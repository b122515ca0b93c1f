use mirror_contracts::asset::{Asset, AssetInfo, Coin};
use mirror_contracts::decimal::Decimal;
use mirror_contracts::short_reward::query_short_reward_weight;
use mirror_contracts::staking::{
    adjust_pool_premium, auto_stake_hook_amount, auto_stake_provided_amount, bond, check_bond_sender, check_deposit_reward,
    compute_premium_rate, decrease_short_token, deposit_reward_to_pool, deprecate_staking_token,
    increase_short_token, migrate_pool_info, query_reward_info, register_asset,
    select_auto_stake_assets, should_migrate, unbond, unbond_token, update_config,
    withdraw_reward, Config, LegacyPoolInfo, MigrationParams, PoolInfo, RewardInfo,
    StakingError,
};

const MOCK_TIME: u64 = 1_571_797_419;

fn config() -> Config {
    Config {
        owner: "owner".to_string(),
        mirror_token: "reward".to_string(),
        mint_contract: "mint".to_string(),
        oracle_contract: "oracle".to_string(),
        terraswap_factory: "terraswap_factory".to_string(),
        base_denom: "uusd".to_string(),
        premium_min_update_interval: 3600,
        short_reward_contract: "short_reward".to_string(),
    }
}

fn registered_pool(staking_token: &str) -> PoolInfo {
    register_asset(&config(), &"owner".to_string(), false, staking_token.to_string()).unwrap()
}

fn pool_with_weight(staking_token: &str, premium: u64, weight: u64) -> PoolInfo {
    PoolInfo {
        premium_rate: Decimal::percent(premium),
        short_reward_weight: Decimal::percent(weight),
        ..registered_pool(staking_token)
    }
}

fn deposit(pool: &mut PoolInfo, amount: u128) {
    let rewards = vec![("asset".to_string(), amount)];
    let total = check_deposit_reward(&config(), &"reward".to_string(), &rewards, amount).unwrap();
    deposit_reward_to_pool(pool, total);
}

#[test]
fn testing_proper_initialization() {
    let pool = registered_pool("staking");
    assert_eq!(pool.staking_token, "staking");
    assert_eq!(pool.total_bond_amount, 0);
    assert_eq!(pool.reward_index, Decimal::zero());
    assert_eq!(pool.pending_reward, 0);
    assert!(pool.migration_params.is_none());
}

#[test]
fn testing_update_config() {
    let mut cfg = config();
    let res = update_config(&mut cfg, &"owner".to_string(), Some("owner2".to_string()), Some(7200), None);
    assert!(res.is_ok());
    assert_eq!(cfg.owner, "owner2");
    assert_eq!(cfg.premium_min_update_interval, 7200);
    assert_eq!(cfg.short_reward_contract, "short_reward");

    let res = update_config(&mut cfg, &"owner".to_string(), None, Some(7200), None);
    assert_eq!(res, Err(StakingError::Unauthorized));
}

#[test]
fn testing_test_register() {
    let res = register_asset(&config(), &"addr".to_string(), false, "staking".to_string());
    assert!(matches!(res, Err(StakingError::Unauthorized)));
    let pool = registered_pool("staking");
    assert_eq!(pool.staking_token, "staking");
    assert_eq!(pool.total_short_amount, 0);
    let res = register_asset(&config(), &"owner".to_string(), true, "staking".to_string());
    assert!(matches!(res, Err(StakingError::AssetAlreadyRegistered)));
}

#[test]
fn reward_test_test_deposit_reward() {
    let mut pool = pool_with_weight("staking", 2, 20);
    let long = bond(&mut pool, None, 100).unwrap();
    let short =
        increase_short_token(&config(), &"mint".to_string(), &mut pool, None, 100).unwrap();
    assert_eq!(long.bond_amount, 100);
    assert_eq!(short.bond_amount, 100);

    deposit(&mut pool, 100);
    assert_eq!(pool.total_bond_amount, 100);
    assert_eq!(pool.total_short_amount, 100);
    assert_eq!(pool.reward_index, Decimal::from_ratio(80, 100));
    assert_eq!(pool.short_reward_index, Decimal::from_ratio(20, 100));

    // a premium over the threshold weighs the distribution 60:40
    let mut pool = PoolInfo {
        reward_index: Decimal::zero(),
        short_reward_index: Decimal::zero(),
        premium_rate: Decimal::percent(10),
        short_reward_weight: Decimal::percent(40),
        ..pool
    };
    deposit(&mut pool, 100);
    assert_eq!(pool.reward_index, Decimal::from_ratio(60, 100));
    assert_eq!(pool.short_reward_index, Decimal::from_ratio(40, 100));
}

#[test]
fn reward_test_test_deposit_reward_when_no_bonding() {
    let mut pool = pool_with_weight("staking", 2, 20);
    deposit(&mut pool, 100);
    assert_eq!(pool.reward_index, Decimal::zero());
    assert_eq!(pool.short_reward_index, Decimal::zero());
    assert_eq!(pool.pending_reward, 80);
    assert_eq!(pool.short_pending_reward, 20);

    let mut pool = PoolInfo {
        pending_reward: 0,
        short_pending_reward: 0,
        premium_rate: Decimal::percent(10),
        short_reward_weight: Decimal::percent(40),
        ..pool
    };
    deposit(&mut pool, 100);
    assert_eq!(pool.reward_index, Decimal::zero());
    assert_eq!(pool.short_reward_index, Decimal::zero());
    assert_eq!(pool.pending_reward, 60);
    assert_eq!(pool.short_pending_reward, 40);
}

#[test]
fn reward_test_test_before_share_changes() {
    let mut pool = pool_with_weight("staking", 2, 20);
    let info = bond(&mut pool, None, 100).unwrap();
    increase_short_token(&config(), &"mint".to_string(), &mut pool, None, 100).unwrap();
    deposit(&mut pool, 100);
    assert_eq!(info, RewardInfo { pending_reward: 0, bond_amount: 100, index: Decimal::zero() });

    let info = bond(&mut pool, Some(info), 100).unwrap();
    assert_eq!(
        info,
        RewardInfo {
            pending_reward: 80,
            bond_amount: 200,
            index: Decimal::from_ratio(80, 100),
        }
    );

    // a second deposit brings the index to 0.8 + 0.4 = 1.2
    deposit(&mut pool, 100);
    let info = unbond(&mut pool, info, 100).unwrap().unwrap();
    assert_eq!(
        info,
        RewardInfo {
            pending_reward: 160,
            bond_amount: 100,
            index: Decimal::from_ratio(120, 100),
        }
    );
}

#[test]
fn reward_test_test_withdraw() {
    let mut pool = pool_with_weight("staking", 2, 20);
    let info = bond(&mut pool, None, 100).unwrap();
    deposit(&mut pool, 100);
    let pools = vec![pool];
    let (amount, kept) = withdraw_reward(&pools, &vec![info], false).unwrap();
    assert_eq!(amount, 80);
    assert_eq!(kept[0].unwrap().pending_reward, 0);
    assert_eq!(kept[0].unwrap().bond_amount, 100);
}

#[test]
fn reward_test_withdraw_multiple_rewards() {
    let mut pool1 = pool_with_weight("staking", 2, 20);
    let mut pool2 = pool_with_weight("staking2", 2, 20);
    let long1 = bond(&mut pool1, None, 100).unwrap();
    let long2 = bond(&mut pool2, None, 1000).unwrap();
    let short1 =
        increase_short_token(&config(), &"mint".to_string(), &mut pool1, None, 50).unwrap();

    let rewards = vec![("asset".to_string(), 100u128), ("asset2".to_string(), 200u128)];
    assert_eq!(check_deposit_reward(&config(), &"reward".to_string(), &rewards, 300), Ok(300));
    deposit_reward_to_pool(&mut pool1, 100);
    deposit_reward_to_pool(&mut pool2, 200);

    assert_eq!(query_reward_info(&pool1, long1, false), Ok((100, 80)));
    assert_eq!(query_reward_info(&pool2, long2, false), Ok((1000, 160)));
    assert_eq!(query_reward_info(&pool1, short1, true), Ok((50, 20)));

    let long_pools = vec![pool1, pool2];
    let (long_amount, long_kept) =
        withdraw_reward(&long_pools, &vec![long1, long2], false).unwrap();
    let short_pools = vec![long_pools.into_iter().next().unwrap()];
    let (short_amount, short_kept) = withdraw_reward(&short_pools, &vec![short1], true).unwrap();
    assert_eq!(long_amount + short_amount, 260);

    assert_eq!(query_reward_info(&short_pools[0], long_kept[0].unwrap(), false), Ok((100, 0)));
    assert_eq!(long_kept[1].unwrap().bond_amount, 1000);
    assert_eq!(long_kept[1].unwrap().pending_reward, 0);
    assert_eq!(query_reward_info(&short_pools[0], short_kept[0].unwrap(), true), Ok((50, 0)));
}

fn pair(native: u128, token: u128) -> [Asset; 2] {
    [
        Asset { info: AssetInfo::NativeToken { denom: "uusd".to_string() }, amount: native },
        Asset { info: AssetInfo::Token { contract_addr: "asset".to_string() }, amount: token },
    ]
}

fn adjust(pool: &mut PoolInfo, now: u64, assets: &[Asset; 2]) -> Result<(), StakingError> {
    let oracle = Decimal::from_ratio(100, 1);
    let (premium, no_feed) = compute_premium_rate(assets, oracle);
    let weight = query_short_reward_weight(premium).unwrap();
    adjust_pool_premium(pool, now, 3600, premium, no_feed, weight)
}

#[test]
fn reward_test_test_adjust_premium() {
    let mut pool = registered_pool("staking");
    let mut now = MOCK_TIME;

    // pair price 100, oracle price 100: no premium
    adjust(&mut pool, now, &pair(100, 1)).unwrap();
    assert_eq!(pool.premium_rate, Decimal::zero());
    assert_eq!(pool.premium_updated_time, now);

    // too early for another update
    assert_eq!(adjust(&mut pool, now, &pair(90, 1)), Err(StakingError::PremiumUpdateTooEarly));

    now += 3600;
    adjust(&mut pool, now, &pair(90, 1)).unwrap();
    assert_eq!(pool.premium_rate, Decimal::zero());
    assert_eq!(pool.premium_updated_time, now);

    // pair price 105: 5% premium
    now += 3600;
    adjust(&mut pool, now, &pair(105, 1)).unwrap();
    assert_eq!(pool.premium_rate, Decimal::percent(5));
    assert_eq!(pool.premium_updated_time, now);
}

#[test]
fn staking_test_test_bond_tokens() {
    let mut pool = registered_pool("staking");
    assert!(check_bond_sender(&pool, &"staking".to_string()).is_ok());
    let info = bond(&mut pool, None, 100).unwrap();
    assert_eq!(info, RewardInfo { index: Decimal::zero(), bond_amount: 100, pending_reward: 0 });
    assert_eq!(pool.total_bond_amount, 100);
    assert_eq!(pool.total_short_amount, 0);

    let info = bond(&mut pool, Some(info), 100).unwrap();
    assert_eq!(info.bond_amount, 200);
    assert_eq!(pool.total_bond_amount, 200);

    // bonding from another token is refused
    assert_eq!(check_bond_sender(&pool, &"staking2".to_string()), Err(StakingError::Unauthorized));
}

#[test]
fn staking_test_test_unbond() {
    let mut pool = registered_pool("staking");
    let info = bond(&mut pool, None, 100).unwrap();

    assert_eq!(unbond(&mut pool, info, 150), Err(StakingError::CannotUnbondMoreThanBond));
    assert_eq!(pool.total_bond_amount, 100);

    assert_eq!(unbond(&mut pool, info, 100), Ok(None));
    assert_eq!(pool.total_bond_amount, 0);
    assert_eq!(pool.total_short_amount, 0);
}

#[test]
fn test_increase_short_token() {
    let mut pool = registered_pool("staking");
    let res = increase_short_token(&config(), &"addr".to_string(), &mut pool, None, 100);
    assert_eq!(res, Err(StakingError::Unauthorized));

    let info = increase_short_token(&config(), &"mint".to_string(), &mut pool, None, 100).unwrap();
    assert_eq!(pool.total_bond_amount, 0);
    assert_eq!(pool.total_short_amount, 100);
    assert_eq!(info, RewardInfo { index: Decimal::zero(), bond_amount: 100, pending_reward: 0 });
}

#[test]
fn test_decrease_short_token() {
    let mut pool = registered_pool("staking");
    let info = increase_short_token(&config(), &"mint".to_string(), &mut pool, None, 100).unwrap();
    let res = decrease_short_token(&config(), &"addr".to_string(), &mut pool, info, 100);
    assert_eq!(res, Err(StakingError::Unauthorized));
    let res = decrease_short_token(&config(), &"mint".to_string(), &mut pool, info, 100);
    assert_eq!(res, Ok(None));
    assert_eq!(pool.total_bond_amount, 0);
    assert_eq!(pool.total_short_amount, 0);
}

#[test]
fn test_auto_stake() {
    let uusd = |amount: u128| Asset {
        info: AssetInfo::NativeToken { denom: "uusd".to_string() },
        amount,
    };
    let token = |amount: u128| Asset {
        info: AssetInfo::Token { contract_addr: "asset".to_string() },
        amount,
    };
    let sent = vec![Coin { denom: "uusd".to_string(), amount: 100 }];

    let res = select_auto_stake_assets(&[uusd(100), uusd(100)], &sent);
    assert_eq!(res, Err(Some(StakingError::MissingTokenAsset)));

    let res = select_auto_stake_assets(&[token(1), token(1)], &vec![]);
    assert_eq!(res, Err(Some(StakingError::MissingNativeAsset)));

    // no coins sent with the native amount
    let res = select_auto_stake_assets(&[uusd(100), token(1)], &vec![]);
    assert_eq!(res, Err(None));

    let res = select_auto_stake_assets(&[uusd(100), token(1)], &sent);
    assert_eq!(res, Ok((0, 1)));

    // the hook: only the contract itself, amount is the balance increase
    let contract = "cosmos2contract".to_string();
    assert_eq!(
        auto_stake_hook_amount(&"addr0000".to_string(), &contract, 100, 0),
        Err(StakingError::Unauthorized)
    );
    assert_eq!(auto_stake_hook_amount(&contract, &contract, 100, 0), Ok(100));
    let mut pool = registered_pool("lptoken");
    let info = bond(&mut pool, None, 100).unwrap();
    assert_eq!(info.bond_amount, 100);
    assert_eq!(pool.total_bond_amount, 100);
}

#[test]
fn test_deprecate() {
    let mut pool = pool_with_weight("staking", 2, 20);
    // bond 100 liquidity tokens and 200 short tokens, then deposit 100 (80:20)
    let long = bond(&mut pool, None, 100).unwrap();
    let short =
        increase_short_token(&config(), &"mint".to_string(), &mut pool, None, 200).unwrap();
    deposit(&mut pool, 100);
    assert_eq!(pool.reward_index, Decimal::from_ratio(80, 100));
    assert_eq!(pool.short_reward_index, Decimal::from_ratio(20, 200));
    assert_eq!(query_reward_info(&pool, long, false), Ok((100, 80)));
    assert_eq!(query_reward_info(&pool, short, true), Ok((200, 20)));
    assert_eq!(should_migrate(&pool, &long, false), None);
    assert_eq!(should_migrate(&pool, &short, true), None);

    // deprecate the staking token, then deposit more rewards
    let deprecated = deprecate_staking_token(&mut pool, "new_staking".to_string()).unwrap();
    assert_eq!(deprecated, "staking");
    deposit(&mut pool, 100);
    assert_eq!(pool.staking_token, "new_staking");
    assert_eq!(pool.total_bond_amount, 0); // reset
    assert_eq!(pool.total_short_amount, 200);
    assert_eq!(pool.reward_index, Decimal::from_ratio(80, 100)); // stays the same
    assert_eq!(pool.short_reward_index, Decimal::from_ratio(40, 200)); // increased 20
    assert_eq!(pool.short_pending_reward, 0);
    assert_eq!(pool.pending_reward, 80); // new reward waiting here
    let params = pool.migration_params.as_ref().unwrap();
    assert_eq!(params.index_snapshot, Decimal::from_ratio(80, 100));
    assert_eq!(params.deprecated_staking_token, "staking");
    assert_eq!(query_reward_info(&pool, long, false), Ok((100, 80))); // did not change
    assert_eq!(should_migrate(&pool, &long, false), Some(true)); // should migrate
    assert_eq!(query_reward_info(&pool, short, true), Ok((200, 40))); // more rewards here
    assert_eq!(should_migrate(&pool, &short, true), None);

    // try to bond new or old staking token, should fail both
    assert_eq!(
        check_bond_sender(&pool, &"staking".to_string()),
        Err(StakingError::StakingTokenMigrated("new_staking".to_string()))
    );
    assert!(check_bond_sender(&pool, &"new_staking".to_string()).is_ok());
    let before = copy_pool_with_params(&pool);
    assert_eq!(bond(&mut pool, Some(long), 100), Err(StakingError::DeprecatedPosition));
    assert_eq!(pool.total_bond_amount, before.total_bond_amount);

    // unbond all the old tokens: they are paid in the deprecated token
    assert_eq!(unbond_token(&pool, &long), "staking");
    let kept = unbond(&mut pool, long, 100).unwrap().unwrap();
    assert_eq!(pool.total_bond_amount, 0);
    assert_eq!(query_reward_info(&pool, kept, false), Ok((0, 80))); // still the same
    assert_eq!(should_migrate(&pool, &kept, false), None); // now its back to empty
    assert_eq!(query_reward_info(&pool, short, true), Ok((200, 40)));

    // now can bond the new staking token
    let long = bond(&mut pool, Some(kept), 100).unwrap();
    assert_eq!(pool.total_bond_amount, 100);

    // deposit new rewards; the rewards pending since the deprecation go to the index too
    deposit(&mut pool, 100);
    assert_eq!(query_reward_info(&pool, long, false), Ok((100, 240))); // 80 * 3
    assert_eq!(should_migrate(&pool, &long, false), None);
    assert_eq!(query_reward_info(&pool, short, true), Ok((200, 60))); // 40 + 20

    // completely new users can bond
    let newcomer = bond(&mut pool, None, 100).unwrap();
    assert_eq!(query_reward_info(&pool, newcomer, false), Ok((100, 0)));
    assert_eq!(should_migrate(&pool, &newcomer, false), None);
    assert_eq!(unbond_token(&pool, &newcomer), "new_staking");

    assert_eq!(
        deprecate_staking_token(&mut pool, "other".to_string()),
        Err(StakingError::AlreadyMigrated)
    );
}

fn copy_pool_with_params(p: &PoolInfo) -> PoolInfo {
    PoolInfo {
        staking_token: p.staking_token.clone(),
        migration_params: p.migration_params.as_ref().map(|m| MigrationParams {
            index_snapshot: m.index_snapshot,
            deprecated_staking_token: m.deprecated_staking_token.clone(),
        }),
        ..*p
    }
}

#[test]
fn migration_test_test_pool_infos_migration() {
    let legacy = LegacyPoolInfo {
        staking_token: "staking".to_string(),
        pending_reward: 1,
        short_pending_reward: 2,
        total_bond_amount: 3,
        total_short_amount: 4,
        reward_index: Decimal::percent(5),
        short_reward_index: Decimal::percent(6),
        premium_rate: Decimal::percent(7),
        short_reward_weight: Decimal::percent(8),
        premium_updated_time: 9,
    };
    let pool = migrate_pool_info(legacy);
    assert_eq!(pool.staking_token, "staking");
    assert_eq!(pool.pending_reward, 1);
    assert_eq!(pool.short_pending_reward, 2);
    assert_eq!(pool.total_bond_amount, 3);
    assert_eq!(pool.total_short_amount, 4);
    assert_eq!(pool.reward_index, Decimal::percent(5));
    assert_eq!(pool.short_reward_index, Decimal::percent(6));
    assert_eq!(pool.premium_rate, Decimal::percent(7));
    assert_eq!(pool.short_reward_weight, Decimal::percent(8));
    assert_eq!(pool.premium_updated_time, 9);
    assert!(pool.migration_params.is_none());
}

#[test]
fn deposit_reward_mismatch_and_sender() {
    let rewards = vec![("asset".to_string(), 100u128)];
    assert_eq!(
        check_deposit_reward(&config(), &"reward".to_string(), &rewards, 99),
        Err(StakingError::RewardsAmountMismatch)
    );
    assert_eq!(
        check_deposit_reward(&config(), &"factory".to_string(), &rewards, 100),
        Err(StakingError::Unauthorized)
    );
}

fn copy_pool(p: &PoolInfo) -> PoolInfo {
    PoolInfo { staking_token: p.staking_token.clone(), migration_params: None, ..*p }
}

#[test]
fn rewards_never_exceed_deposit() {
    // three stakers of 1, 1 and 1 share a deposit of 100: each gets 33
    let mut pool = registered_pool("staking");
    let a = bond(&mut pool, None, 1).unwrap();
    let b = bond(&mut pool, None, 1).unwrap();
    let c = bond(&mut pool, None, 1).unwrap();
    deposit_reward_to_pool(&mut pool, 100);
    let pools = vec![copy_pool(&pool), copy_pool(&pool), pool];
    let (amount, _) = withdraw_reward(&pools, &vec![a, b, c], false).unwrap();
    assert_eq!(amount, 99);
}

#[test]
fn bond_unbond_round_trip() {
    let mut pool = registered_pool("staking");
    let other = bond(&mut pool, None, 100).unwrap();
    let mine = bond(&mut pool, None, 30).unwrap();
    let mine = bond(&mut pool, Some(mine), 50).unwrap();
    assert_eq!(pool.total_bond_amount, 180);
    let mine = unbond(&mut pool, mine, 50).unwrap().unwrap();
    assert_eq!(pool.total_bond_amount, 130);
    assert_eq!(mine.bond_amount, 30);
    assert_eq!(other.bond_amount, 100);
}

#[test]
fn auto_stake_provides_net_of_tax() {
    assert_eq!(auto_stake_provided_amount(100, 1), Ok(99));
    assert_eq!(auto_stake_provided_amount(1, 2), Err(StakingError::Overflow));
}
