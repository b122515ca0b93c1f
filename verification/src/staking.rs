//! The staking contract's reward ledger. Each asset has a pool holding a
//! cumulative reward index per unit of bonded liquidity (and a second one for
//! short positions); each staker's `RewardInfo` remembers the index it last
//! settled at, so that its share of every later deposit is
//! `bond_amount * (pool_index - own_index)`.
use vstd::prelude::*;
use crate::asset::{Asset, AssetInfo, Coin, assert_sent_native_token_balance, sent_amount};
use crate::math::{decimal_division, decimal_subtraction, nano_units, lemma_nano_units_bound};
use crate::decimal::{
    frac, mul_div, ratio_atomics, spec_uint_mul, uint_mul, uint_mul_fits, Decimal,
};

verus! {

/// Why a staking operation was refused.
#[derive(Debug, PartialEq, Eq)]
pub enum StakingError {
    /// The sender may not perform the operation.
    Unauthorized,
    /// An unbond asked for more than the staker's bond.
    CannotUnbondMoreThanBond,
    /// A subtraction of amounts went below zero.
    Overflow,
    /// The asset already has a pool.
    AssetAlreadyRegistered,
    /// The pool's staking token was already replaced once.
    AlreadyMigrated,
    /// `premium_min_update_interval` has not passed since the last update.
    PremiumUpdateTooEarly,
    /// Auto-staking was given no native asset.
    MissingNativeAsset,
    /// Auto-staking was given no token asset.
    MissingTokenAsset,
    /// The pair's liquidity token is not the pool's staking token.
    InvalidStakingToken,
    /// The listed rewards do not add up to the amount sent.
    RewardsAmountMismatch,
    /// A deprecated staking token was sent; the pool now uses the given one.
    StakingTokenMigrated(String),
    /// The staker still holds a bond of the deprecated staking token, which
    /// has to be withdrawn before the new token can be bonded.
    DeprecatedPosition,
}

/// Replacement of a pool's staking token.
pub struct MigrationParams {
    pub index_snapshot: Decimal,
    pub deprecated_staking_token: String,
}

/// Per-asset reward pool.
pub struct PoolInfo {
    pub staking_token: String,
    /// Rewards not yet distributed because nothing was bonded.
    pub pending_reward: u128,
    /// Short rewards not yet distributed because no short position existed.
    pub short_pending_reward: u128,
    pub total_bond_amount: u128,
    pub total_short_amount: u128,
    pub reward_index: Decimal,
    pub short_reward_index: Decimal,
    pub premium_rate: Decimal,
    pub short_reward_weight: Decimal,
    pub premium_updated_time: u64,
    pub migration_params: Option<MigrationParams>,
}

/// A staker's position in one pool (long or short side).
#[derive(Clone, Copy, Debug, PartialEq, Eq, Structural)]
pub struct RewardInfo {
    pub index: Decimal,
    pub bond_amount: u128,
    pub pending_reward: u128,
}

/// The index of the side of the pool that `is_short` selects.
pub open spec fn pool_index(pool: PoolInfo, is_short: bool) -> Decimal {
    if is_short {
        pool.short_reward_index
    } else {
        pool.reward_index
    }
}

/// A long position bonded before its pool's staking token was replaced: the
/// pool is migrated and the staker still holds a bond whose index is below
/// the index at the replacement. A staker's record does not say which token
/// its bond came from. A bond of the new token settles at the pool's index,
/// which is at or above that index; a deprecated bond settles at that index
/// and no further (see `settle_index`), after which its record is no longer
/// told apart from one of the new token.
pub open spec fn is_deprecated_position(pool: PoolInfo, reward_info: Option<RewardInfo>) -> bool {
    match pool.migration_params {
        Some(p) => match reward_info {
            Some(r) => r.bond_amount > 0 && r.index.atomics < p.index_snapshot.atomics,
            None => false,
        },
        None => false,
    }
}

fn deprecated_position(pool: &PoolInfo, reward_info: &Option<RewardInfo>) -> (b: bool)
    ensures
        b == is_deprecated_position(*pool, *reward_info),
{
    match &pool.migration_params {
        Some(p) => match reward_info {
            Some(r) => r.bond_amount > 0 && r.index.atomics < p.index_snapshot.atomics,
            None => false,
        },
        None => false,
    }
}

/// The index a staker settles against: the pool's index of its side, except
/// that a deprecated position earns nothing after its token was replaced and
/// settles against the index at the replacement.
pub open spec fn settle_index(pool: PoolInfo, reward: RewardInfo, is_short: bool) -> Decimal {
    if !is_short && is_deprecated_position(pool, Some(reward)) {
        pool.migration_params->Some_0.index_snapshot
    } else {
        pool_index(pool, is_short)
    }
}

/// A migrated pool's index is never below the index at the replacement: the
/// index of a pool only grows.
pub open spec fn pool_valid(pool: PoolInfo) -> bool {
    match pool.migration_params {
        Some(p) => p.index_snapshot.atomics <= pool.reward_index.atomics,
        None => true,
    }
}

/// Reward earned since the staker last settled: `bond * settle_index - bond * own_index`.
pub open spec fn accrued_reward(pool: PoolInfo, reward: RewardInfo, is_short: bool) -> int {
    spec_uint_mul(reward.bond_amount as int, settle_index(pool, reward, is_short))
        - spec_uint_mul(reward.bond_amount as int, reward.index)
}

/// Neither product of `before_share_change` overflows, nor does the new
/// pending reward.
pub open spec fn share_change_fits(pool: PoolInfo, reward: RewardInfo, is_short: bool) -> bool {
    &&& uint_mul_fits(reward.bond_amount as int, settle_index(pool, reward, is_short))
    &&& uint_mul_fits(reward.bond_amount as int, reward.index)
    &&& accrued_reward(pool, reward, is_short) >= 0 ==> reward.pending_reward
        + accrued_reward(pool, reward, is_short) <= u128::MAX
}

/// The staker's record after settling against the pool.
pub open spec fn settled(pool: PoolInfo, reward: RewardInfo, is_short: bool) -> RewardInfo {
    RewardInfo {
        index: settle_index(pool, reward, is_short),
        bond_amount: reward.bond_amount,
        pending_reward: (reward.pending_reward + accrued_reward(pool, reward, is_short)) as u128,
    }
}

/// Moves the reward accrued since the last settlement into `pending_reward`
/// and brings the staker's index up to the one it settles against (see
/// `settle_index`). Fails with `Overflow`, leaving the record alone, when the
/// staker's index is ahead of that one.
pub fn before_share_change(pool: &PoolInfo, reward_info: &mut RewardInfo, is_short: bool) -> (r:
    Result<(), StakingError>)
    requires
        share_change_fits(*pool, *old(reward_info), is_short),
    ensures
        accrued_reward(*pool, *old(reward_info), is_short) >= 0 ==> r is Ok && *final(reward_info)
            == settled(*pool, *old(reward_info), is_short),
        accrued_reward(*pool, *old(reward_info), is_short) < 0 ==> r == Err::<(), StakingError>(
            StakingError::Overflow,
        ) && *final(reward_info) == *old(reward_info),
{
    let index = if is_short {
        pool.short_reward_index
    } else if deprecated_position(pool, &Some(*reward_info)) {
        match &pool.migration_params {
            Some(p) => p.index_snapshot,
            None => pool.reward_index,
        }
    } else {
        pool.reward_index
    };
    let earned = uint_mul(reward_info.bond_amount, index);
    let owed = uint_mul(reward_info.bond_amount, reward_info.index);
    if earned < owed {
        return Err(StakingError::Overflow);
    }
    let pending_reward = earned - owed;
    reward_info.index = index;
    reward_info.pending_reward = reward_info.pending_reward + pending_reward;
    Ok(())
}


/// Pending reward and index of one side of a pool after `reward` is added.
/// With nothing bonded the reward waits in `pending`; otherwise it is spread
/// together with what was waiting, raising the index by `reward / total`.
pub open spec fn spec_distribute(pending: u128, total: u128, index: Decimal, reward: int) -> (
    int,
    int,
) {
    if total == 0 {
        (pending + reward, index.atomics as int)
    } else {
        (0, index.atomics + ratio_atomics(reward + pending, total as int))
    }
}

/// `spec_distribute` does not overflow.
pub open spec fn distribute_fits(pending: u128, total: u128, index: Decimal, reward: int) -> bool {
    if total == 0 {
        pending + reward <= u128::MAX
    } else {
        &&& reward + pending <= u128::MAX
        &&& index.atomics + ratio_atomics(reward + pending, total as int) <= u128::MAX
    }
}

fn distribute(pending: u128, total: u128, index: Decimal, reward: u128) -> (r: (u128, Decimal))
    requires
        distribute_fits(pending, total, index, reward as int),
    ensures
        r.0 as int == spec_distribute(pending, total, index, reward as int).0,
        r.1.atomics as int == spec_distribute(pending, total, index, reward as int).1,
{
    if total == 0 {
        (pending + reward, index)
    } else {
        let all = reward + pending;
        assert(ratio_atomics(all as int, total as int) >= 0) by (nonlinear_arith)
            requires
                all >= 0,
                total > 0,
        ;
        let per_bond = Decimal::from_ratio(all, total);
        (0, index.add(per_bond))
    }
}

/// The short part of a reward deposit: `amount * short_reward_weight`.
pub open spec fn short_share(pool: PoolInfo, amount: int) -> int {
    spec_uint_mul(amount, pool.short_reward_weight)
}

/// `deposit_reward_to_pool` does not panic.
pub open spec fn deposit_fits(pool: PoolInfo, amount: u128) -> bool {
    &&& uint_mul_fits(amount as int, pool.short_reward_weight)
    &&& short_share(pool, amount as int) <= amount
    &&& distribute_fits(
        pool.pending_reward,
        pool.total_bond_amount,
        pool.reward_index,
        amount - short_share(pool, amount as int),
    )
    &&& distribute_fits(
        pool.short_pending_reward,
        pool.total_short_amount,
        pool.short_reward_index,
        short_share(pool, amount as int),
    )
}

/// Adds a reward deposit to one pool: the `short_reward_weight` share goes to
/// short positions, the rest to bonded liquidity; each side's share is spread
/// over its total (with what was pending) or kept pending when the total is
/// zero. Nothing else in the pool changes.
pub fn deposit_reward_to_pool(pool: &mut PoolInfo, amount: u128)
    requires
        deposit_fits(*old(pool), amount),
    ensures
        ({
            let normal = spec_distribute(
                old(pool).pending_reward,
                old(pool).total_bond_amount,
                old(pool).reward_index,
                amount - short_share(*old(pool), amount as int),
            );
            let short = spec_distribute(
                old(pool).short_pending_reward,
                old(pool).total_short_amount,
                old(pool).short_reward_index,
                short_share(*old(pool), amount as int),
            );
            &&& final(pool).pending_reward == normal.0
            &&& final(pool).reward_index.atomics == normal.1
            &&& final(pool).short_pending_reward == short.0
            &&& final(pool).short_reward_index.atomics == short.1
        }),
        final(pool).staking_token == old(pool).staking_token,
        final(pool).total_bond_amount == old(pool).total_bond_amount,
        final(pool).total_short_amount == old(pool).total_short_amount,
        final(pool).premium_rate == old(pool).premium_rate,
        final(pool).short_reward_weight == old(pool).short_reward_weight,
        final(pool).premium_updated_time == old(pool).premium_updated_time,
        final(pool).migration_params == old(pool).migration_params,
{
    let short_reward = uint_mul(amount, pool.short_reward_weight);
    let normal_reward = amount - short_reward;
    let (pending, index) = distribute(
        pool.pending_reward,
        pool.total_bond_amount,
        pool.reward_index,
        normal_reward,
    );
    pool.pending_reward = pending;
    pool.reward_index = index;
    let (short_pending, short_index) = distribute(
        pool.short_pending_reward,
        pool.total_short_amount,
        pool.short_reward_index,
        short_reward,
    );
    pool.short_pending_reward = short_pending;
    pool.short_reward_index = short_index;
}


/// A staker's record, or a fresh one (zero index, bond and pending reward)
/// when the staker has none in this pool.
pub open spec fn existing_or_empty(reward_info: Option<RewardInfo>) -> RewardInfo {
    match reward_info {
        Some(r) => r,
        None => RewardInfo { index: Decimal { atomics: 0 }, bond_amount: 0, pending_reward: 0 },
    }
}

/// The bonded total of the side of the pool that `is_short` selects.
pub open spec fn side_total(pool: PoolInfo, is_short: bool) -> u128 {
    if is_short {
        pool.total_short_amount
    } else {
        pool.total_bond_amount
    }
}

/// `pool` with the selected side's total replaced.
pub open spec fn with_side_total(pool: PoolInfo, is_short: bool, total: u128) -> PoolInfo {
    if is_short {
        PoolInfo { total_short_amount: total, ..pool }
    } else {
        PoolInfo { total_bond_amount: total, ..pool }
    }
}

/// `increase_bond_amount` does not panic.
pub open spec fn increase_fits(
    pool: PoolInfo,
    reward_info: Option<RewardInfo>,
    amount: u128,
    is_short: bool,
) -> bool {
    let r = existing_or_empty(reward_info);
    &&& share_change_fits(pool, r, is_short)
    &&& accrued_reward(pool, r, is_short) >= 0 ==> side_total(pool, is_short) + amount
        <= u128::MAX && r.bond_amount + amount <= u128::MAX
}

/// Bonds `amount` more for a staker (liquidity when `is_short` is false,
/// short position tokens otherwise): first settles the staker's reward, then
/// raises both the staker's bond and the pool's total by `amount`. Returns
/// the staker's new record.
pub fn increase_bond_amount(
    pool: &mut PoolInfo,
    reward_info: Option<RewardInfo>,
    amount: u128,
    is_short: bool,
) -> (r: Result<RewardInfo, StakingError>)
    requires
        increase_fits(*old(pool), reward_info, amount, is_short),
    ensures
        ({
            let before = existing_or_empty(reward_info);
            let s = settled(*old(pool), before, is_short);
            if accrued_reward(*old(pool), before, is_short) >= 0 {
                &&& r == Ok::<RewardInfo, StakingError>(
                    RewardInfo { bond_amount: (s.bond_amount + amount) as u128, ..s },
                )
                &&& *final(pool) == with_side_total(
                    *old(pool),
                    is_short,
                    (side_total(*old(pool), is_short) + amount) as u128,
                )
            } else {
                &&& r == Err::<RewardInfo, StakingError>(StakingError::Overflow)
                &&& *final(pool) == *old(pool)
            }
        }),
{
    let mut info = match reward_info {
        Some(r) => r,
        None => RewardInfo { index: Decimal::zero(), bond_amount: 0, pending_reward: 0 },
    };
    match before_share_change(pool, &mut info, is_short) {
        Ok(()) => {},
        Err(e) => {
            return Err(e);
        },
    }
    if is_short {
        pool.total_short_amount = pool.total_short_amount + amount;
    } else {
        pool.total_bond_amount = pool.total_bond_amount + amount;
    }
    info.bond_amount = info.bond_amount + amount;
    Ok(info)
}

/// What `decrease_bond_amount` keeps of a staker's record: nothing once both
/// the bond and the pending reward are zero.
pub open spec fn kept_record(r: RewardInfo) -> Option<RewardInfo> {
    if r.pending_reward == 0 && r.bond_amount == 0 {
        None
    } else {
        Some(r)
    }
}

/// Whether a staker's bond counts in the pool's total: the bond of a
/// deprecated position is of the replaced token, which the total (reset when
/// the token was replaced) no longer counts.
pub open spec fn counts_in_total(pool: PoolInfo, reward: RewardInfo, is_short: bool) -> bool {
    is_short || !is_deprecated_position(pool, Some(reward))
}

/// Unbonds `amount` for a staker: refuses to unbond more than the staker's
/// bond, settles the reward, then lowers the staker's bond by `amount`, and
/// the pool's total too unless the bond is of a deprecated token. Returns
/// the staker's remaining record, or `None` when it is to be removed. On an
/// error the pool is left alone.
pub fn decrease_bond_amount(
    pool: &mut PoolInfo,
    reward_info: RewardInfo,
    amount: u128,
    is_short: bool,
) -> (r: Result<Option<RewardInfo>, StakingError>)
    requires
        amount <= reward_info.bond_amount ==> share_change_fits(*old(pool), reward_info, is_short),
    ensures
        ({
            let s = settled(*old(pool), reward_info, is_short);
            if reward_info.bond_amount < amount {
                &&& r == Err::<Option<RewardInfo>, StakingError>(
                    StakingError::CannotUnbondMoreThanBond,
                )
                &&& *final(pool) == *old(pool)
            } else if accrued_reward(*old(pool), reward_info, is_short) < 0 || (counts_in_total(
                *old(pool),
                reward_info,
                is_short,
            ) && side_total(*old(pool), is_short) < amount) {
                &&& r == Err::<Option<RewardInfo>, StakingError>(StakingError::Overflow)
                &&& *final(pool) == *old(pool)
            } else {
                &&& r == Ok::<Option<RewardInfo>, StakingError>(
                    kept_record(RewardInfo { bond_amount: (s.bond_amount - amount) as u128, ..s }),
                )
                &&& *final(pool) == if counts_in_total(*old(pool), reward_info, is_short) {
                    with_side_total(
                        *old(pool),
                        is_short,
                        (side_total(*old(pool), is_short) - amount) as u128,
                    )
                } else {
                    *old(pool)
                }
            }
        }),
{
    if reward_info.bond_amount < amount {
        return Err(StakingError::CannotUnbondMoreThanBond);
    }
    let counted = is_short || !deprecated_position(pool, &Some(reward_info));
    let mut info = reward_info;
    match before_share_change(pool, &mut info, is_short) {
        Ok(()) => {},
        Err(e) => {
            return Err(e);
        },
    }
    if is_short {
        if pool.total_short_amount < amount {
            return Err(StakingError::Overflow);
        }
        pool.total_short_amount = pool.total_short_amount - amount;
    } else if counted {
        if pool.total_bond_amount < amount {
            return Err(StakingError::Overflow);
        }
        pool.total_bond_amount = pool.total_bond_amount - amount;
    }
    info.bond_amount = info.bond_amount - amount;
    if info.pending_reward == 0 && info.bond_amount == 0 {
        Ok(None)
    } else {
        Ok(Some(info))
    }
}

/// Withdraws a staker's whole reward from one pool: settles it and hands out
/// all that is pending. Returns the amount paid and the record to keep, or
/// `None` when nothing stays bonded.
pub fn withdraw_pool_reward(pool: &PoolInfo, reward_info: RewardInfo, is_short: bool) -> (r:
    Result<(u128, Option<RewardInfo>), StakingError>)
    requires
        share_change_fits(*pool, reward_info, is_short),
    ensures
        ({
            let s = settled(*pool, reward_info, is_short);
            if accrued_reward(*pool, reward_info, is_short) >= 0 {
                r == Ok::<(u128, Option<RewardInfo>), StakingError>(
                    (
                        s.pending_reward,
                        if s.bond_amount == 0 {
                            None
                        } else {
                            Some(RewardInfo { pending_reward: 0, ..s })
                        },
                    ),
                )
            } else {
                r == Err::<(u128, Option<RewardInfo>), StakingError>(StakingError::Overflow)
            }
        }),
{
    let mut info = reward_info;
    match before_share_change(pool, &mut info, is_short) {
        Ok(()) => {},
        Err(e) => {
            return Err(e);
        },
    }
    let amount = info.pending_reward;
    info.pending_reward = 0;
    if info.bond_amount == 0 {
        Ok((amount, None))
    } else {
        Ok((amount, Some(info)))
    }
}


/// The staking contract's settings.
pub struct Config {
    pub owner: String,
    pub mirror_token: String,
    pub mint_contract: String,
    pub oracle_contract: String,
    pub terraswap_factory: String,
    pub base_denom: String,
    pub premium_min_update_interval: u64,
    pub short_reward_contract: String,
}

/// Changes the settings that are given; only the owner may.
pub fn update_config(
    config: &mut Config,
    sender: &String,
    owner: Option<String>,
    premium_min_update_interval: Option<u64>,
    short_reward_contract: Option<String>,
) -> (r: Result<(), StakingError>)
    ensures
        sender@ != old(config).owner@ ==> r == Err::<(), StakingError>(StakingError::Unauthorized)
            && *final(config) == *old(config),
        sender@ == old(config).owner@ ==> r is Ok && *final(config) == (Config {
            owner: match owner {
                Some(o) => o,
                None => old(config).owner,
            },
            premium_min_update_interval: match premium_min_update_interval {
                Some(i) => i,
                None => old(config).premium_min_update_interval,
            },
            short_reward_contract: match short_reward_contract {
                Some(c) => c,
                None => old(config).short_reward_contract,
            },
            ..*old(config)
        }),
{
    if !sender.eq(&config.owner) {
        return Err(StakingError::Unauthorized);
    }
    if let Some(o) = owner {
        config.owner = o;
    }
    if let Some(i) = premium_min_update_interval {
        config.premium_min_update_interval = i;
    }
    if let Some(c) = short_reward_contract {
        config.short_reward_contract = c;
    }
    Ok(())
}

/// A new, empty pool for an asset whose liquidity is staked as `staking_token`.
pub fn new_pool_info(staking_token: String) -> (p: PoolInfo)
    ensures
        p.staking_token == staking_token,
        p.pending_reward == 0,
        p.short_pending_reward == 0,
        p.total_bond_amount == 0,
        p.total_short_amount == 0,
        p.reward_index.atomics == 0,
        p.short_reward_index.atomics == 0,
        p.premium_rate.atomics == 0,
        p.short_reward_weight.atomics == 0,
        p.premium_updated_time == 0,
        p.migration_params is None,
{
    PoolInfo {
        staking_token,
        pending_reward: 0,
        short_pending_reward: 0,
        total_bond_amount: 0,
        total_short_amount: 0,
        reward_index: Decimal::zero(),
        short_reward_index: Decimal::zero(),
        premium_rate: Decimal::zero(),
        short_reward_weight: Decimal::zero(),
        premium_updated_time: 0,
        migration_params: None,
    }
}

/// Registers an asset: only the owner may, and only once per asset
/// (`already_registered` tells whether a pool exists). Returns the new pool.
pub fn register_asset(
    config: &Config,
    sender: &String,
    already_registered: bool,
    staking_token: String,
) -> (r: Result<PoolInfo, StakingError>)
    ensures
        sender@ != config.owner@ ==> r == Err::<PoolInfo, StakingError>(StakingError::Unauthorized),
        sender@ == config.owner@ && already_registered ==> r == Err::<PoolInfo, StakingError>(
            StakingError::AssetAlreadyRegistered,
        ),
        sender@ == config.owner@ && !already_registered ==> r is Ok && ({
            let p = r->Ok_0;
            &&& p.staking_token == staking_token
            &&& p.pending_reward == 0 && p.short_pending_reward == 0
            &&& p.total_bond_amount == 0 && p.total_short_amount == 0
            &&& p.reward_index.atomics == 0 && p.short_reward_index.atomics == 0
            &&& p.premium_rate.atomics == 0 && p.short_reward_weight.atomics == 0
            &&& p.premium_updated_time == 0 && p.migration_params is None
        }),
{
    if !config.owner.eq(sender) {
        return Err(StakingError::Unauthorized);
    }
    if already_registered {
        return Err(StakingError::AssetAlreadyRegistered);
    }
    Ok(new_pool_info(staking_token))
}

/// Replaces a pool's staking token once: the old bonds are dropped from the
/// total, and the reward index at this moment is kept with the old token.
/// Returns the deprecated token.
pub fn deprecate_staking_token(pool: &mut PoolInfo, new_staking_token: String) -> (r: Result<
    String,
    StakingError,
>)
    ensures
        old(pool).migration_params is Some ==> r == Err::<String, StakingError>(
            StakingError::AlreadyMigrated,
        ) && *final(pool) == *old(pool),
        old(pool).migration_params is None ==> r == Ok::<String, StakingError>(
            old(pool).staking_token,
        ) && *final(pool) == (PoolInfo {
            staking_token: new_staking_token,
            total_bond_amount: 0,
            migration_params: Some(
                MigrationParams {
                    index_snapshot: old(pool).reward_index,
                    deprecated_staking_token: old(pool).staking_token,
                },
            ),
            ..*old(pool)
        }),
{
    if pool.migration_params.is_some() {
        return Err(StakingError::AlreadyMigrated);
    }
    let mut deprecated = new_staking_token;
    std::mem::swap(&mut pool.staking_token, &mut deprecated);
    let deprecated_copy = deprecated.clone();
    pool.total_bond_amount = 0;
    pool.migration_params = Some(
        MigrationParams { index_snapshot: pool.reward_index, deprecated_staking_token: deprecated },
    );
    Ok(deprecated_copy)
}

/// The base coins that auto-staking provides as liquidity: those sent, less
/// the tax on sending them on; refused when the tax exceeds them.
pub fn auto_stake_provided_amount(native_amount: u128, tax: u128) -> (r: Result<u128, StakingError>)
    ensures
        tax <= native_amount ==> r == Ok::<u128, StakingError>((native_amount - tax) as u128),
        tax > native_amount ==> r == Err::<u128, StakingError>(StakingError::Overflow),
{
    if tax > native_amount {
        return Err(StakingError::Overflow);
    }
    Ok(native_amount - tax)
}

/// Checks that a bond arrives from the pool's staking token. A deprecated
/// staking token is told which token replaced it; any other sender is
/// unauthorized.
pub fn check_bond_sender(pool: &PoolInfo, token: &String) -> (r: Result<(), StakingError>)
    ensures
        token@ == pool.staking_token@ ==> r is Ok,
        token@ != pool.staking_token@ ==> match pool.migration_params {
            Some(p) => if p.deprecated_staking_token@ == token@ {
                r matches Err(StakingError::StakingTokenMigrated(t)) && t@ == pool.staking_token@
            } else {
                r == Err::<(), StakingError>(StakingError::Unauthorized)
            },
            None => r == Err::<(), StakingError>(StakingError::Unauthorized),
        },
{
    if pool.staking_token.eq(token) {
        return Ok(());
    }
    match &pool.migration_params {
        Some(p) => {
            if p.deprecated_staking_token.eq(token) {
                return Err(StakingError::StakingTokenMigrated(pool.staking_token.clone()));
            }
        },
        None => {},
    }
    Err(StakingError::Unauthorized)
}

/// Sum of the amounts of a reward list.
pub open spec fn rewards_sum(rewards: Seq<(String, u128)>) -> int
    decreases rewards.len(),
{
    if rewards.len() == 0 {
        0
    } else {
        rewards_sum(rewards.drop_last()) + rewards.last().1
    }
}

/// Checks a reward deposit: only the reward token may send it, and the listed
/// per-asset rewards must add up to the amount sent. Returns that total.
pub fn check_deposit_reward(
    config: &Config,
    sender: &String,
    rewards: &Vec<(String, u128)>,
    amount: u128,
) -> (r: Result<u128, StakingError>)
    requires
        sender@ == config.mirror_token@ ==> rewards_sum(rewards@) <= u128::MAX,
    ensures
        sender@ != config.mirror_token@ ==> r == Err::<u128, StakingError>(
            StakingError::Unauthorized,
        ),
        sender@ == config.mirror_token@ && rewards_sum(rewards@) != amount ==> r == Err::<
            u128,
            StakingError,
        >(StakingError::RewardsAmountMismatch),
        sender@ == config.mirror_token@ && rewards_sum(rewards@) == amount ==> r == Ok::<
            u128,
            StakingError,
        >(amount),
{
    if !config.mirror_token.eq(sender) {
        return Err(StakingError::Unauthorized);
    }
    let mut total: u128 = 0;
    let mut i: usize = 0;
    while i < rewards.len()
        invariant
            i <= rewards.len(),
            total == rewards_sum(rewards@.take(i as int)),
            rewards_sum(rewards@) <= u128::MAX,
        decreases rewards.len() - i,
    {
        proof {
            lemma_rewards_sum_prefix_le(rewards@, i as int + 1);
            assert(rewards@.take(i as int + 1).drop_last() =~= rewards@.take(i as int));
        }
        total = total + rewards[i].1;
        i = i + 1;
    }
    assert(rewards@.take(rewards@.len() as int) =~= rewards@);
    if total != amount {
        return Err(StakingError::RewardsAmountMismatch);
    }
    Ok(total)
}

/// A prefix of a reward list sums to no more than the whole list.
pub proof fn lemma_rewards_sum_prefix_le(rewards: Seq<(String, u128)>, n: int)
    requires
        0 <= n <= rewards.len(),
    ensures
        rewards_sum(rewards.take(n)) <= rewards_sum(rewards),
    decreases rewards.len() - n,
{
    if n < rewards.len() {
        lemma_rewards_sum_prefix_le(rewards, n + 1);
        assert(rewards.take(n + 1).drop_last() =~= rewards.take(n));
    } else {
        assert(rewards.take(n) =~= rewards);
    }
}


/// The pair's price of the asset in the base denomination, from the pool's
/// balances: native balance over token balance (a zero token balance counts
/// as one), as atomics.
pub open spec fn spec_terraswap_price(first_is_native: bool, amount0: u128, amount1: u128) -> int {
    if first_is_native {
        if amount1 == 0 {
            ratio_atomics(amount0 as int, 1)
        } else {
            ratio_atomics(amount0 as int, amount1 as int)
        }
    } else {
        if amount0 == 0 {
            ratio_atomics(amount1 as int, 1)
        } else {
            ratio_atomics(amount1 as int, amount0 as int)
        }
    }
}

/// The premium `(pair_price - oracle_price) / oracle_price` as atomics, at
/// the nine-digit precision of the decimal helpers.
pub open spec fn spec_premium(pair_price: int, oracle_price: Decimal) -> int {
    let diff = (nano_units(Decimal { atomics: pair_price as u128 }) - nano_units(oracle_price))
        * 1_000_000_000int;
    ratio_atomics(nano_units(Decimal { atomics: diff as u128 }), nano_units(oracle_price))
}

/// `compute_premium_rate` does not panic.
pub open spec fn premium_fits(pool_assets: [Asset; 2], oracle_price: Decimal) -> bool {
    let p = spec_terraswap_price(
        pool_assets[0].info.is_native(),
        pool_assets[0].amount,
        pool_assets[1].amount,
    );
    &&& p <= u128::MAX
    &&& p > oracle_price.atomics ==> nano_units(oracle_price) > 0 && spec_premium(p, oracle_price)
        <= u128::MAX
}

/// Premium of the pair price over the oracle price, from the pair's pool
/// balances and the oracle's price. Returns the premium (zero when the pair
/// trades at or below the oracle) and whether the oracle has no price (zero).
pub fn compute_premium_rate(pool_assets: &[Asset; 2], oracle_price: Decimal) -> (r: (Decimal, bool))
    requires
        premium_fits(*pool_assets, oracle_price),
    ensures
        ({
            let p = spec_terraswap_price(
                pool_assets[0].info.is_native(),
                pool_assets[0].amount,
                pool_assets[1].amount,
            );
            if p > oracle_price.atomics {
                r.0.atomics == spec_premium(p, oracle_price) && !r.1
            } else {
                r.0.atomics == 0 && r.1 == (oracle_price.atomics == 0)
            }
        }),
{
    let a0 = pool_assets[0].amount;
    let a1 = pool_assets[1].amount;
    let terraswap_price = if pool_assets[0].info.is_native_token() {
        if a1 == 0 {
            Decimal::from_ratio(a0, 1)
        } else {
            Decimal::from_ratio(a0, a1)
        }
    } else {
        if a0 == 0 {
            Decimal::from_ratio(a1, 1)
        } else {
            Decimal::from_ratio(a1, a0)
        }
    };
    if terraswap_price.gt(&oracle_price) {
        proof {
            lemma_nano_units_monotone(oracle_price, terraswap_price);
        }
        let diff = decimal_subtraction(terraswap_price, oracle_price);
        (decimal_division(diff, oracle_price), false)
    } else if oracle_price.is_zero() {
        (Decimal::zero(), true)
    } else {
        (Decimal::zero(), false)
    }
}

/// Scaling down to nine digits keeps the order of decimals.
pub proof fn lemma_nano_units_monotone(a: Decimal, b: Decimal)
    requires
        a.atomics <= b.atomics,
    ensures
        nano_units(a) <= nano_units(b),
{
    if a.atomics != 0 {
        assert(1_000_000_000int * a.atomics <= 1_000_000_000int * b.atomics) by (nonlinear_arith)
            requires
                a.atomics <= b.atomics,
        ;
        assert(1_000_000_000int * a.atomics / frac() <= 1_000_000_000int * b.atomics / frac())
            by (nonlinear_arith)
            requires
                1_000_000_000int * a.atomics <= 1_000_000_000int * b.atomics,
        ;
    }
}

/// The pair's price is the native amount over the token amount, whichever
/// of the two the pair lists first: for a pair of one native coin and one
/// token, swapping the order of the pool's assets changes neither the price
/// nor the premium computed from it, and with a non-zero token amount the
/// price is `native * 10^18 / token` atomics.
pub proof fn lemma_premium_ignores_asset_order(
    native: Asset,
    token: Asset,
    oracle_price: Decimal,
)
    requires
        native.info.is_native(),
        !token.info.is_native(),
    ensures
        spec_terraswap_price(native.info.is_native(), native.amount, token.amount)
            == spec_terraswap_price(token.info.is_native(), token.amount, native.amount),
        token.amount != 0 ==> spec_terraswap_price(
            token.info.is_native(),
            token.amount,
            native.amount,
        ) == ratio_atomics(native.amount as int, token.amount as int),
        token.amount != 0 ==> spec_terraswap_price(
            native.info.is_native(),
            native.amount,
            token.amount,
        ) == ratio_atomics(native.amount as int, token.amount as int),
        premium_fits([native, token], oracle_price) == premium_fits([token, native], oracle_price),
{
}

/// Records a new premium and short reward weight on a pool, after checking
/// that `premium_min_update_interval` seconds passed since the last update.
/// When the asset has no oracle price the short reward weight is zero.
pub fn adjust_pool_premium(
    pool: &mut PoolInfo,
    now_seconds: u64,
    premium_min_update_interval: u64,
    premium_rate: Decimal,
    no_price_feed: bool,
    short_reward_weight: Decimal,
) -> (r: Result<(), StakingError>)
    requires
        old(pool).premium_updated_time + premium_min_update_interval <= u64::MAX,
    ensures
        now_seconds < old(pool).premium_updated_time + premium_min_update_interval ==> r == Err::<
            (),
            StakingError,
        >(StakingError::PremiumUpdateTooEarly) && *final(pool) == *old(pool),
        now_seconds >= old(pool).premium_updated_time + premium_min_update_interval ==> r is Ok
            && *final(pool) == (PoolInfo {
            premium_rate,
            short_reward_weight: if no_price_feed {
                Decimal { atomics: 0 }
            } else {
                short_reward_weight
            },
            premium_updated_time: now_seconds,
            ..*old(pool)
        }),
{
    if now_seconds < pool.premium_updated_time + premium_min_update_interval {
        return Err(StakingError::PremiumUpdateTooEarly);
    }
    pool.premium_rate = premium_rate;
    pool.short_reward_weight = if no_price_feed {
        Decimal::zero()
    } else {
        short_reward_weight
    };
    pool.premium_updated_time = now_seconds;
    Ok(())
}

/// A pool record as stored before staking tokens could be replaced.
pub struct LegacyPoolInfo {
    pub staking_token: String,
    pub pending_reward: u128,
    pub short_pending_reward: u128,
    pub total_bond_amount: u128,
    pub total_short_amount: u128,
    pub reward_index: Decimal,
    pub short_reward_index: Decimal,
    pub premium_rate: Decimal,
    pub short_reward_weight: Decimal,
    pub premium_updated_time: u64,
}

/// The current record for a legacy pool: the same fields, not migrated.
pub fn migrate_pool_info(legacy: LegacyPoolInfo) -> (p: PoolInfo)
    ensures
        p == (PoolInfo {
            staking_token: legacy.staking_token,
            pending_reward: legacy.pending_reward,
            short_pending_reward: legacy.short_pending_reward,
            total_bond_amount: legacy.total_bond_amount,
            total_short_amount: legacy.total_short_amount,
            reward_index: legacy.reward_index,
            short_reward_index: legacy.short_reward_index,
            premium_rate: legacy.premium_rate,
            short_reward_weight: legacy.short_reward_weight,
            premium_updated_time: legacy.premium_updated_time,
            migration_params: None,
        }),
{
    PoolInfo {
        staking_token: legacy.staking_token,
        pending_reward: legacy.pending_reward,
        short_pending_reward: legacy.short_pending_reward,
        total_bond_amount: legacy.total_bond_amount,
        total_short_amount: legacy.total_short_amount,
        reward_index: legacy.reward_index,
        short_reward_index: legacy.short_reward_index,
        premium_rate: legacy.premium_rate,
        short_reward_weight: legacy.short_reward_weight,
        premium_updated_time: legacy.premium_updated_time,
        migration_params: None,
    }
}


/// The index (0 or 1) of the last asset of the pair that is native (`native`
/// true) or a token (`native` false), if any.
pub open spec fn last_of_kind(assets: [Asset; 2], native: bool) -> Option<int> {
    if assets[1].info.is_native() == native {
        Some(1)
    } else if assets[0].info.is_native() == native {
        Some(0)
    } else {
        None
    }
}

/// Picks the native asset and the token asset of an auto-stake request and
/// checks that each native amount was really sent. Returns their indices
/// `(native, token)`; `Err(None)` signals a native amount that does not
/// match what was sent.
pub fn select_auto_stake_assets(assets: &[Asset; 2], funds: &Vec<Coin>) -> (r: Result<
    (usize, usize),
    Option<StakingError>,
>)
    ensures
        ({
            let sent_ok = |a: Asset|
                match a.info {
                    AssetInfo::NativeToken { denom } => a.amount == sent_amount(funds@, denom@),
                    AssetInfo::Token { .. } => true,
                };
            if !sent_ok(assets[0]) || !sent_ok(assets[1]) {
                r == Err::<(usize, usize), Option<StakingError>>(None)
            } else if last_of_kind(*assets, true) is None {
                r == Err::<(usize, usize), Option<StakingError>>(
                    Some(StakingError::MissingNativeAsset),
                )
            } else if last_of_kind(*assets, false) is None {
                r == Err::<(usize, usize), Option<StakingError>>(
                    Some(StakingError::MissingTokenAsset),
                )
            } else {
                r is Ok && r->Ok_0.0 == last_of_kind(*assets, true)->Some_0 && r->Ok_0.1
                    == last_of_kind(*assets, false)->Some_0
            }
        }),
{
    if !assert_sent_native_token_balance(&assets[0], funds) {
        return Err(None);
    }
    if !assert_sent_native_token_balance(&assets[1], funds) {
        return Err(None);
    }
    let native = if assets[1].info.is_native_token() {
        1usize
    } else if assets[0].info.is_native_token() {
        0usize
    } else {
        return Err(Some(StakingError::MissingNativeAsset));
    };
    let token = if !assets[1].info.is_native_token() {
        1usize
    } else if !assets[0].info.is_native_token() {
        0usize
    } else {
        return Err(Some(StakingError::MissingTokenAsset));
    };
    Ok((native, token))
}

/// The liquidity token of the pair must be the pool's staking token.
pub fn check_staking_token(pool: &PoolInfo, liquidity_token: &String) -> (r: Result<
    (),
    StakingError,
>)
    ensures
        r is Ok <==> pool.staking_token@ == liquidity_token@,
        r is Err ==> r == Err::<(), StakingError>(StakingError::InvalidStakingToken),
{
    if pool.staking_token.eq(liquidity_token) {
        Ok(())
    } else {
        Err(StakingError::InvalidStakingToken)
    }
}

/// Liquidity tokens received by auto-staking: only the contract itself may
/// call the hook, and the amount is the rise of its staking token balance.
pub fn auto_stake_hook_amount(
    sender: &String,
    contract: &String,
    current_balance: u128,
    prev_balance: u128,
) -> (r: Result<u128, StakingError>)
    ensures
        sender@ != contract@ ==> r == Err::<u128, StakingError>(StakingError::Unauthorized),
        sender@ == contract@ && current_balance < prev_balance ==> r == Err::<u128, StakingError>(
            StakingError::Overflow,
        ),
        sender@ == contract@ && current_balance >= prev_balance ==> r == Ok::<u128, StakingError>(
            (current_balance - prev_balance) as u128,
        ),
{
    if !sender.eq(contract) {
        return Err(StakingError::Unauthorized);
    }
    if current_balance < prev_balance {
        return Err(StakingError::Overflow);
    }
    Ok(current_balance - prev_balance)
}


/// Settling leaves the record at the index it is settled against from then
/// on. That fails only for a deprecated position once the pool's index has
/// moved past the index at the replacement: it settles at that index, and
/// is then no longer told apart from a bond of the new token.
pub open spec fn settles_in_place(pool: PoolInfo, reward: RewardInfo, is_short: bool) -> bool {
    !is_short && is_deprecated_position(pool, Some(reward)) ==> pool.migration_params->Some_0.index_snapshot
        == pool.reward_index
}

/// Settling is idempotent: once a staker has settled against a pool, settling
/// again against the same pool earns nothing and changes nothing (see
/// `settles_in_place` for the one record where it does not hold).
pub proof fn lemma_settle_idempotent(pool: PoolInfo, reward: RewardInfo, is_short: bool)
    requires
        pool_valid(pool),
        settles_in_place(pool, reward, is_short),
        accrued_reward(pool, reward, is_short) >= 0,
        share_change_fits(pool, reward, is_short),
    ensures
        accrued_reward(pool, settled(pool, reward, is_short), is_short) == 0,
        settled(pool, settled(pool, reward, is_short), is_short) == settled(pool, reward, is_short),
{
}

/// `amount * d` grows with `d`.
pub proof fn lemma_uint_mul_monotone(amount: int, d1: Decimal, d2: Decimal)
    requires
        0 <= amount,
        d1.atomics <= d2.atomics,
    ensures
        spec_uint_mul(amount, d1) <= spec_uint_mul(amount, d2),
{
    if amount != 0 && d1.atomics != 0 {
        assert(amount * (d1.atomics as int) <= amount * (d2.atomics as int)) by (nonlinear_arith)
            requires
                0 <= amount,
                d1.atomics <= d2.atomics,
        ;
        assert(amount * (d1.atomics as int) / frac() <= amount * (d2.atomics as int) / frac())
            by (nonlinear_arith)
            requires
                amount * (d1.atomics as int) <= amount * (d2.atomics as int),
        ;
    } else if amount != 0 {
        assert(amount * (d2.atomics as int) / frac() >= 0) by (nonlinear_arith)
            requires
                0 <= amount,
                0 <= d2.atomics,
        ;
    }
}

/// A staker whose index is not ahead of the pool's has accrued a
/// non-negative reward, so settling it never fails.
pub proof fn lemma_index_behind_pool_settles(pool: PoolInfo, reward: RewardInfo, is_short: bool)
    requires
        reward.index.atomics <= pool_index(pool, is_short).atomics,
    ensures
        accrued_reward(pool, reward, is_short) >= 0,
{
    lemma_uint_mul_monotone(
        reward.bond_amount as int,
        reward.index,
        settle_index(pool, reward, is_short),
    );
}

/// A deposit spread over bonded liquidity never credits that liquidity with
/// more than was spread: the index raise `reward / total`, applied to the
/// whole `total`, gives back at most `reward`.
pub proof fn lemma_distribution_bounded(reward: int, total: int)
    requires
        0 <= reward,
        0 < total,
        ratio_atomics(reward, total) <= u128::MAX,
    ensures
        spec_uint_mul(total, Decimal { atomics: ratio_atomics(reward, total) as u128 }) <= reward,
{
    let q = ratio_atomics(reward, total);
    assert(0 <= q) by (nonlinear_arith)
        requires
            q == reward * 1_000_000_000_000_000_000int / total,
            0 <= reward,
            0 < total,
    ;
    assert(q * total <= reward * 1_000_000_000_000_000_000int) by (nonlinear_arith)
        requires
            q == reward * 1_000_000_000_000_000_000int / total,
            0 <= reward,
            0 < total,
    ;
    assert(total * q / 1_000_000_000_000_000_000int <= reward) by (nonlinear_arith)
        requires
            q * total <= reward * 1_000_000_000_000_000_000int,
            0 <= q,
            0 < total,
    ;
}


/// Bonds liquidity tokens for a staker (see `increase_bond_amount`). A
/// staker still holding the deprecated staking token of a migrated pool is
/// refused until that bond is withdrawn.
pub fn bond(pool: &mut PoolInfo, reward_info: Option<RewardInfo>, amount: u128) -> (r: Result<
    RewardInfo,
    StakingError,
>)
    requires
        !is_deprecated_position(*old(pool), reward_info) ==> increase_fits(
            *old(pool),
            reward_info,
            amount,
            false,
        ),
    ensures
        ({
            let before = existing_or_empty(reward_info);
            let s = settled(*old(pool), before, false);
            if is_deprecated_position(*old(pool), reward_info) {
                &&& r == Err::<RewardInfo, StakingError>(StakingError::DeprecatedPosition)
                &&& *final(pool) == *old(pool)
            } else if accrued_reward(*old(pool), before, false) >= 0 {
                &&& r == Ok::<RewardInfo, StakingError>(
                    RewardInfo { bond_amount: (s.bond_amount + amount) as u128, ..s },
                )
                &&& *final(pool) == (PoolInfo {
                    total_bond_amount: (old(pool).total_bond_amount + amount) as u128,
                    ..*old(pool)
                })
            } else {
                &&& r == Err::<RewardInfo, StakingError>(StakingError::Overflow)
                &&& *final(pool) == *old(pool)
            }
        }),
{
    if deprecated_position(pool, &reward_info) {
        return Err(StakingError::DeprecatedPosition);
    }
    increase_bond_amount(pool, reward_info, amount, false)
}

/// Unbonds liquidity tokens for a staker (see `decrease_bond_amount`).
/// Returns the staker's remaining record, if it is kept; the tokens go back
/// from the token that `unbond_token` names.
pub fn unbond(pool: &mut PoolInfo, reward_info: RewardInfo, amount: u128) -> (r: Result<
    Option<RewardInfo>,
    StakingError,
>)
    requires
        amount <= reward_info.bond_amount ==> share_change_fits(*old(pool), reward_info, false),
    ensures
        ({
            let s = settled(*old(pool), reward_info, false);
            if reward_info.bond_amount < amount {
                &&& r == Err::<Option<RewardInfo>, StakingError>(
                    StakingError::CannotUnbondMoreThanBond,
                )
                &&& *final(pool) == *old(pool)
            } else if accrued_reward(*old(pool), reward_info, false) < 0 || (
            !is_deprecated_position(*old(pool), Some(reward_info)) && old(pool).total_bond_amount
                < amount) {
                &&& r == Err::<Option<RewardInfo>, StakingError>(StakingError::Overflow)
                &&& *final(pool) == *old(pool)
            } else {
                &&& r == Ok::<Option<RewardInfo>, StakingError>(
                    kept_record(RewardInfo { bond_amount: (s.bond_amount - amount) as u128, ..s }),
                )
                &&& *final(pool) == if is_deprecated_position(*old(pool), Some(reward_info)) {
                    *old(pool)
                } else {
                    PoolInfo {
                        total_bond_amount: (old(pool).total_bond_amount - amount) as u128,
                        ..*old(pool)
                    }
                }
            }
        }),
{
    decrease_bond_amount(pool, reward_info, amount, false)
}

/// Records short position tokens for a staker; only the mint contract may.
pub fn increase_short_token(
    config: &Config,
    sender: &String,
    pool: &mut PoolInfo,
    reward_info: Option<RewardInfo>,
    amount: u128,
) -> (r: Result<RewardInfo, StakingError>)
    requires
        sender@ == config.mint_contract@ ==> increase_fits(*old(pool), reward_info, amount, true),
    ensures
        sender@ != config.mint_contract@ ==> r == Err::<RewardInfo, StakingError>(
            StakingError::Unauthorized,
        ) && *final(pool) == *old(pool),
        sender@ == config.mint_contract@ ==> ({
            let before = existing_or_empty(reward_info);
            let s = settled(*old(pool), before, true);
            if accrued_reward(*old(pool), before, true) >= 0 {
                &&& r == Ok::<RewardInfo, StakingError>(
                    RewardInfo { bond_amount: (s.bond_amount + amount) as u128, ..s },
                )
                &&& *final(pool) == (PoolInfo {
                    total_short_amount: (old(pool).total_short_amount + amount) as u128,
                    ..*old(pool)
                })
            } else {
                &&& r == Err::<RewardInfo, StakingError>(StakingError::Overflow)
                &&& *final(pool) == *old(pool)
            }
        }),
{
    if !sender.eq(&config.mint_contract) {
        return Err(StakingError::Unauthorized);
    }
    increase_bond_amount(pool, reward_info, amount, true)
}

/// Removes short position tokens of a staker; only the mint contract may.
pub fn decrease_short_token(
    config: &Config,
    sender: &String,
    pool: &mut PoolInfo,
    reward_info: RewardInfo,
    amount: u128,
) -> (r: Result<Option<RewardInfo>, StakingError>)
    requires
        sender@ == config.mint_contract@ && amount <= reward_info.bond_amount ==> share_change_fits(
            *old(pool),
            reward_info,
            true,
        ),
    ensures
        sender@ != config.mint_contract@ ==> r == Err::<Option<RewardInfo>, StakingError>(
            StakingError::Unauthorized,
        ) && *final(pool) == *old(pool),
        sender@ == config.mint_contract@ ==> ({
            let s = settled(*old(pool), reward_info, true);
            if reward_info.bond_amount < amount {
                &&& r == Err::<Option<RewardInfo>, StakingError>(
                    StakingError::CannotUnbondMoreThanBond,
                )
                &&& *final(pool) == *old(pool)
            } else if accrued_reward(*old(pool), reward_info, true) < 0
                || old(pool).total_short_amount < amount {
                &&& r == Err::<Option<RewardInfo>, StakingError>(StakingError::Overflow)
                &&& *final(pool) == *old(pool)
            } else {
                &&& r == Ok::<Option<RewardInfo>, StakingError>(
                    kept_record(RewardInfo { bond_amount: (s.bond_amount - amount) as u128, ..s }),
                )
                &&& *final(pool) == (PoolInfo {
                    total_short_amount: (old(pool).total_short_amount - amount) as u128,
                    ..*old(pool)
                })
            }
        }),
{
    if !sender.eq(&config.mint_contract) {
        return Err(StakingError::Unauthorized);
    }
    decrease_bond_amount(pool, reward_info, amount, true)
}

/// The token that an unbond of a staker's liquidity is paid in: the
/// replaced token for a deprecated position, the pool's staking token
/// otherwise.
pub fn unbond_token(pool: &PoolInfo, reward_info: &RewardInfo) -> (t: String)
    ensures
        is_deprecated_position(*pool, Some(*reward_info)) ==> t@
            == pool.migration_params->Some_0.deprecated_staking_token@,
        !is_deprecated_position(*pool, Some(*reward_info)) ==> t@ == pool.staking_token@,
{
    if deprecated_position(pool, &Some(*reward_info)) {
        match &pool.migration_params {
            Some(p) => p.deprecated_staking_token.clone(),
            None => pool.staking_token.clone(),
        }
    } else {
        pool.staking_token.clone()
    }
}

/// What a query reports of whether a staker's position has to be moved to
/// the pool's new staking token: `Some(true)` for a deprecated long
/// position, nothing otherwise.
pub fn should_migrate(pool: &PoolInfo, reward_info: &RewardInfo, is_short: bool) -> (r: Option<
    bool,
>)
    ensures
        r == (if !is_short && is_deprecated_position(*pool, Some(*reward_info)) {
            Some(true)
        } else {
            None::<bool>
        }),
{
    if !is_short && deprecated_position(pool, &Some(*reward_info)) {
        Some(true)
    } else {
        None
    }
}

/// A staker's bond and reward in a pool as a query shows them: settled
/// against the pool, without storing anything.
pub fn query_reward_info(pool: &PoolInfo, reward_info: RewardInfo, is_short: bool) -> (r: Result<
    (u128, u128),
    StakingError,
>)
    requires
        share_change_fits(*pool, reward_info, is_short),
    ensures
        accrued_reward(*pool, reward_info, is_short) >= 0 ==> r == Ok::<(u128, u128), StakingError>(
            (reward_info.bond_amount, settled(*pool, reward_info, is_short).pending_reward),
        ),
        accrued_reward(*pool, reward_info, is_short) < 0 ==> r == Err::<(u128, u128), StakingError>(
            StakingError::Overflow,
        ),
{
    let mut info = reward_info;
    match before_share_change(pool, &mut info, is_short) {
        Ok(()) => {},
        Err(e) => {
            return Err(e);
        },
    }
    Ok((info.bond_amount, info.pending_reward))
}

/// Sum of the rewards that settling each record against its pool hands out.
pub open spec fn sum_withdrawn(pools: Seq<PoolInfo>, rewards: Seq<RewardInfo>, is_short: bool) -> int
    decreases rewards.len(),
{
    if rewards.len() == 0 {
        0
    } else {
        let i = rewards.len() - 1;
        sum_withdrawn(pools, rewards.drop_last(), is_short) + settled(
            pools[i],
            rewards[i],
            is_short,
        ).pending_reward
    }
}

/// Withdraws a staker's rewards from several pools at once (`pools[i]` is
/// the pool of `rewards[i]`). Returns the total paid and, per pool, the
/// record to keep (`None` to remove). Stops at the first record that cannot
/// be settled.
pub fn withdraw_reward(pools: &Vec<PoolInfo>, rewards: &Vec<RewardInfo>, is_short: bool) -> (r:
    Result<(u128, Vec<Option<RewardInfo>>), StakingError>)
    requires
        pools.len() == rewards.len(),
        forall|i: int|
            0 <= i < rewards.len() ==> share_change_fits(pools@[i], #[trigger] rewards@[i], is_short),
        sum_withdrawn(pools@, rewards@, is_short) <= u128::MAX,
    ensures
        (forall|i: int|
            0 <= i < rewards.len() ==> accrued_reward(pools@[i], #[trigger] rewards@[i], is_short)
                >= 0) ==> r is Ok && r->Ok_0.0 == sum_withdrawn(pools@, rewards@, is_short)
            && r->Ok_0.1@.len() == rewards.len() && forall|i: int|
            0 <= i < rewards.len() ==> #[trigger] r->Ok_0.1@[i] == if settled(
                pools@[i],
                rewards@[i],
                is_short,
            ).bond_amount == 0 {
                None
            } else {
                Some(RewardInfo { pending_reward: 0, ..settled(pools@[i], rewards@[i], is_short) })
            },
        (exists|i: int|
            0 <= i < rewards.len() && accrued_reward(pools@[i], #[trigger] rewards@[i], is_short)
                < 0) ==> r == Err::<(u128, Vec<Option<RewardInfo>>), StakingError>(
            StakingError::Overflow,
        ),
{
    let mut amount: u128 = 0;
    let mut kept: Vec<Option<RewardInfo>> = Vec::new();
    let mut i: usize = 0;
    while i < rewards.len()
        invariant
            pools.len() == rewards.len(),
            forall|k: int|
                0 <= k < rewards.len() ==> share_change_fits(
                    pools@[k],
                    #[trigger] rewards@[k],
                    is_short,
                ),
            sum_withdrawn(pools@, rewards@, is_short) <= u128::MAX,
            i <= rewards.len(),
            forall|k: int|
                0 <= k < i ==> accrued_reward(pools@[k], #[trigger] rewards@[k], is_short) >= 0,
            amount == sum_withdrawn(pools@, rewards@.take(i as int), is_short),
            kept@.len() == i,
            forall|k: int|
                0 <= k < i ==> #[trigger] kept@[k] == if settled(
                    pools@[k],
                    rewards@[k],
                    is_short,
                ).bond_amount == 0 {
                    None
                } else {
                    Some(RewardInfo { pending_reward: 0, ..settled(pools@[k], rewards@[k], is_short) })
                },
        decreases rewards.len() - i,
    {
        let (paid, record) = match withdraw_pool_reward(&pools[i], rewards[i], is_short) {
            Ok(v) => v,
            Err(e) => {
                return Err(e);
            },
        };
        proof {
            assert(rewards@.take(i as int + 1).drop_last() =~= rewards@.take(i as int));
            lemma_sum_withdrawn_prefix_le(pools@, rewards@, is_short, i as int + 1);
        }
        amount = amount + paid;
        kept.push(record);
        i = i + 1;
    }
    assert(rewards@.take(i as int) =~= rewards@);
    Ok((amount, kept))
}

/// Partial sums of withdrawals do not exceed the whole (each record that
/// settles pays a non-negative amount).
pub proof fn lemma_sum_withdrawn_prefix_le(
    pools: Seq<PoolInfo>,
    rewards: Seq<RewardInfo>,
    is_short: bool,
    n: int,
)
    requires
        0 <= n <= rewards.len(),
        forall|i: int|
            0 <= i < rewards.len() ==> share_change_fits(pools[i], #[trigger] rewards[i], is_short),
    ensures
        sum_withdrawn(pools, rewards.take(n), is_short) <= sum_withdrawn(pools, rewards, is_short),
    decreases rewards.len() - n,
{
    if n < rewards.len() {
        lemma_sum_withdrawn_prefix_le(pools, rewards, is_short, n + 1);
        assert(rewards.take(n + 1).drop_last() =~= rewards.take(n));
        assert(rewards.take(n + 1)[n] == rewards[n]);
    } else {
        assert(rewards.take(n) =~= rewards);
    }
}


/// Total bond of a list of stakers' records.
pub open spec fn sum_bonds(s: Seq<RewardInfo>) -> int
    decreases s.len(),
{
    if s.len() == 0 {
        0
    } else {
        sum_bonds(s.drop_last()) + s.last().bond_amount
    }
}

proof fn lemma_sum_bonds_update(s: Seq<RewardInfo>, i: int, rec: RewardInfo)
    requires
        0 <= i < s.len(),
    ensures
        sum_bonds(s.update(i, rec)) == sum_bonds(s) - s[i].bond_amount + rec.bond_amount,
    decreases s.len(),
{
    if i == s.len() - 1 {
        assert(s.update(i, rec).drop_last() =~= s.drop_last());
    } else {
        lemma_sum_bonds_update(s.drop_last(), i, rec);
        assert(s.update(i, rec).drop_last() =~= s.drop_last().update(i, rec));
    }
}

proof fn lemma_sum_bonds_concat(a: Seq<RewardInfo>, b: Seq<RewardInfo>)
    ensures
        sum_bonds(a + b) == sum_bonds(a) + sum_bonds(b),
    decreases b.len(),
{
    if b.len() == 0 {
        assert(a + b =~= a);
    } else {
        lemma_sum_bonds_concat(a, b.drop_last());
        assert((a + b).drop_last() =~= a + b.drop_last());
    }
}

proof fn lemma_sum_bonds_remove(s: Seq<RewardInfo>, i: int)
    requires
        0 <= i < s.len(),
    ensures
        sum_bonds(s.remove(i)) == sum_bonds(s) - s[i].bond_amount,
{
    let one = seq![s[i]];
    assert(s =~= s.take(i) + one + s.skip(i + 1));
    assert(s.remove(i) =~= s.take(i) + s.skip(i + 1));
    lemma_sum_bonds_concat(s.take(i) + one, s.skip(i + 1));
    lemma_sum_bonds_concat(s.take(i), one);
    lemma_sum_bonds_concat(s.take(i), s.skip(i + 1));
    assert(one.drop_last() =~= Seq::<RewardInfo>::empty());
    assert(sum_bonds(one.drop_last()) == 0);
    assert(sum_bonds(one) == s[i].bond_amount);
}

/// Bonding keeps a pool side's total equal to the sum of its stakers'
/// bonds: bonding `amount` for a staker who already has a record (at `i`)
/// raises both by `amount`.
pub proof fn lemma_bond_existing_keeps_total(
    stakers: Seq<RewardInfo>,
    i: int,
    total: int,
    new_record: RewardInfo,
    amount: int,
)
    requires
        0 <= i < stakers.len(),
        total == sum_bonds(stakers),
        new_record.bond_amount == stakers[i].bond_amount + amount,
    ensures
        total + amount == sum_bonds(stakers.update(i, new_record)),
{
    lemma_sum_bonds_update(stakers, i, new_record);
}

/// Bonding keeps a pool side's total equal to the sum of its stakers'
/// bonds: a new staker's record holds exactly the bonded amount.
pub proof fn lemma_bond_new_keeps_total(
    stakers: Seq<RewardInfo>,
    total: int,
    new_record: RewardInfo,
    amount: int,
)
    requires
        total == sum_bonds(stakers),
        new_record.bond_amount == amount,
    ensures
        total + amount == sum_bonds(stakers.push(new_record)),
{
    assert(stakers.push(new_record).drop_last() =~= stakers);
}

/// Unbonding keeps a pool side's total equal to the sum of its stakers'
/// bonds, whether the staker's record is kept (with `amount` less) or
/// removed (its whole bond was unbonded).
pub proof fn lemma_unbond_keeps_total(
    stakers: Seq<RewardInfo>,
    i: int,
    total: int,
    amount: int,
    kept: Option<RewardInfo>,
)
    requires
        0 <= i < stakers.len(),
        total == sum_bonds(stakers),
        match kept {
            Some(r) => r.bond_amount == stakers[i].bond_amount - amount,
            None => stakers[i].bond_amount == amount,
        },
    ensures
        total - amount == match kept {
            Some(r) => sum_bonds(stakers.update(i, r)),
            None => sum_bonds(stakers.remove(i)),
        },
{
    match kept {
        Some(r) => lemma_sum_bonds_update(stakers, i, r),
        None => lemma_sum_bonds_remove(stakers, i),
    }
}

/// Per staker, settling across an index raise earns at most the raise
/// applied to its bond, plus one for rounding.
pub proof fn lemma_accrued_le_raise(bond: int, from: int, raise: int)
    requires
        0 <= bond,
        0 <= from,
        0 <= raise,
    ensures
        bond * (from + raise) / frac() - bond * from / frac() <= bond * raise / frac() + 1,
{
    let f = frac();
    let a = bond * from;
    let b = bond * raise;
    assert(bond * (from + raise) == a + b) by (nonlinear_arith)
        requires
            a == bond * from,
            b == bond * raise,
    ;
    assert((a + b) / f <= a / f + b / f + 1) by (nonlinear_arith)
        requires
            a >= 0,
            b >= 0,
            f == 1_000_000_000_000_000_000int,
    ;
}


/// `amount * d` is `floor(amount * atomics / 10^18)` for every amount.
pub proof fn lemma_uint_mul_formula(amount: int, d: Decimal)
    requires
        0 <= amount,
    ensures
        spec_uint_mul(amount, d) == amount * (d.atomics as int) / frac(),
{
    if amount == 0 {
        assert(amount * (d.atomics as int) == 0);
    } else if d.atomics == 0 {
        assert(amount * (d.atomics as int) == 0) by (nonlinear_arith)
            requires
                d.atomics == 0,
        ;
    }
}

/// Total reward that settling every listed (long side) staker against the
/// pool would hand out.
pub open spec fn sum_accrued(pool: PoolInfo, stakers: Seq<RewardInfo>) -> int
    decreases stakers.len(),
{
    if stakers.len() == 0 {
        0
    } else {
        sum_accrued(pool, stakers.drop_last()) + accrued_reward(pool, stakers.last(), false)
    }
}

/// `sum_i floor(b_i * raise / 10^18) + count`, a bound for what stakers
/// earn across an index raise.
pub open spec fn sum_raise(stakers: Seq<RewardInfo>, raise: int) -> int
    decreases stakers.len(),
{
    if stakers.len() == 0 {
        0
    } else {
        sum_raise(stakers.drop_last(), raise) + stakers.last().bond_amount * raise / frac() + 1
    }
}

proof fn lemma_sum_accrued_le_sum_raise(pool: PoolInfo, stakers: Seq<RewardInfo>, from: int, raise: int)
    requires
        0 <= from,
        0 <= raise,
        pool_valid(pool),
        pool.reward_index.atomics == from + raise,
        forall|i: int| 0 <= i < stakers.len() ==> (#[trigger] stakers[i]).index.atomics == from,
    ensures
        sum_accrued(pool, stakers) <= sum_raise(stakers, raise),
    decreases stakers.len(),
{
    if stakers.len() > 0 {
        let t = stakers.drop_last();
        assert forall|i: int| 0 <= i < t.len() implies (#[trigger] t[i]).index.atomics == from by {
            assert(t[i] == stakers[i]);
        }
        lemma_sum_accrued_le_sum_raise(pool, t, from, raise);
        let r = stakers.last();
        assert(r == stakers[stakers.len() - 1]);
        lemma_uint_mul_monotone(
            r.bond_amount as int,
            settle_index(pool, r, false),
            pool.reward_index,
        );
        lemma_uint_mul_formula(r.bond_amount as int, pool.reward_index);
        lemma_uint_mul_formula(r.bond_amount as int, r.index);
        lemma_accrued_le_raise(r.bond_amount as int, from, raise);
    }
}

proof fn lemma_sum_raise_le_total(stakers: Seq<RewardInfo>, raise: int)
    requires
        0 <= raise,
    ensures
        sum_raise(stakers, raise) <= sum_bonds(stakers) * raise / frac() + stakers.len(),
        sum_bonds(stakers) >= 0,
    decreases stakers.len(),
{
    if stakers.len() > 0 {
        let t = stakers.drop_last();
        lemma_sum_raise_le_total(t, raise);
        let b = stakers.last().bond_amount as int;
        let rest = sum_bonds(t);
        assert(rest * raise / frac() + b * raise / frac() <= (rest + b) * raise / frac())
            by (nonlinear_arith)
            requires
                rest >= 0,
                b >= 0,
                raise >= 0,
        ;
    }
}

/// Stakers never collect more than was deposited, up to rounding: when all
/// stakers of a pool's long side last settled at the index `from`, and a
/// deposit of `reward` (with what was pending) raised the index by
/// `reward / total` over their total bond, settling all of them hands out
/// at most `reward` plus one unit per staker.
pub proof fn lemma_rewards_bounded_by_deposit(
    pool: PoolInfo,
    stakers: Seq<RewardInfo>,
    from: int,
    reward: int,
)
    requires
        0 <= from,
        0 <= reward,
        pool_valid(pool),
        sum_bonds(stakers) > 0,
        ratio_atomics(reward, sum_bonds(stakers)) <= u128::MAX,
        pool.reward_index.atomics == from + ratio_atomics(reward, sum_bonds(stakers)),
        forall|i: int| 0 <= i < stakers.len() ==> (#[trigger] stakers[i]).index.atomics == from,
    ensures
        sum_accrued(pool, stakers) <= reward + stakers.len(),
{
    let total = sum_bonds(stakers);
    let raise = ratio_atomics(reward, total);
    assert(raise >= 0) by (nonlinear_arith)
        requires
            raise == reward * 1_000_000_000_000_000_000int / total,
            reward >= 0,
            total > 0,
    ;
    lemma_sum_accrued_le_sum_raise(pool, stakers, from, raise);
    lemma_sum_raise_le_total(stakers, raise);
    lemma_distribution_bounded(reward, total);
    lemma_uint_mul_formula(total, Decimal { atomics: raise as u128 });
}


/// After a withdrawal, nothing is pending: settling the kept record against
/// the same pool (as a query does) shows a zero reward and the same bond.
pub proof fn lemma_withdraw_leaves_nothing_pending(
    pool: PoolInfo,
    reward: RewardInfo,
    is_short: bool,
)
    requires
        pool_valid(pool),
        settles_in_place(pool, reward, is_short),
        accrued_reward(pool, reward, is_short) >= 0,
        share_change_fits(pool, reward, is_short),
    ensures
        ({
            let kept = RewardInfo { pending_reward: 0, ..settled(pool, reward, is_short) };
            &&& accrued_reward(pool, kept, is_short) == 0
            &&& settled(pool, kept, is_short).pending_reward == 0
            &&& settled(pool, kept, is_short).bond_amount == reward.bond_amount
        }),
{
}


/// Bonding an amount and unbonding the same amount leaves the pool's totals
/// as they were, and the staker's bond too.
pub proof fn lemma_bond_unbond_round_trip(pool: PoolInfo, bond_amount: u128, amount: u128, is_short: bool)
    requires
        side_total(pool, is_short) + amount <= u128::MAX,
        bond_amount + amount <= u128::MAX,
    ensures
        ({
            let bonded = with_side_total(pool, is_short, (side_total(pool, is_short) + amount) as u128);
            &&& side_total(bonded, is_short) >= amount
            &&& with_side_total(bonded, is_short, (side_total(bonded, is_short) - amount) as u128) == pool
            &&& ((bond_amount + amount) as u128) >= amount
            &&& ((bond_amount + amount) as u128) - amount == bond_amount
        }),
{
}

} // verus!
