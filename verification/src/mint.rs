//! The mint contract: collateralized debt positions that mint mAssets
//! against collateral, with the checks and arithmetic of opening, depositing,
//! withdrawing, minting, burning and liquidating by auction.
use vstd::prelude::*;
use crate::asset::{Asset, AssetInfo, same_asset};
use crate::decimal::{frac, ratio_atomics, spec_uint_mul, uint_mul, uint_mul_fits, Decimal};
use crate::math::{
    decimal_division, decimal_multiplication, decimal_multiplication_fits, decimal_subtraction,
    lemma_nano_units_bound, nano_units, reverse_decimal, spec_decimal_multiplication,
    spec_division, division_fits, spec_reverse, spec_product,
};

verus! {

/// Why a mint operation was refused.
#[derive(Debug, PartialEq, Eq)]
pub enum MintError {
    Unauthorized,
    /// The collateral is not the position's collateral, or its amount is zero.
    WrongCollateral,
    /// The asset is not the position's asset, or its amount is zero.
    WrongAsset,
    /// Opening asked for a collateral ratio below the asset's minimum.
    LowCollateralRatio,
    /// The collateral buys less than one unit of the asset.
    CollateralTooSmall,
    CannotWithdrawMoreThanProvided,
    /// Withdrawing would leave the position under its minimum ratio.
    WithdrawBelowMinRatio,
    /// Minting would leave the position under its minimum ratio.
    MintBelowMinRatio,
    CannotBurnMoreThanMinted,
    CannotLiquidateMoreThanPosition,
    /// The position is collateralized above its minimum ratio.
    SafelyCollateralized,
    /// The asset was migrated away (it has an end price).
    DeprecatedAsset,
    /// The collateral was revoked from the collateral oracle.
    RevokedCollateral,
    /// The pre-IPO minting period ended at the given time.
    MintPeriodEnded(u64),
    /// Burning a pre-IPO asset is disabled since its minting period ended.
    BurnPeriodEnded(u64),
    /// Pre-IPO assets only take the base denomination as collateral.
    PreIpoCollateral,
    AuctionDiscountTooLarge,
    MinCollateralRatioTooSmall,
    ProtocolFeeTooLarge,
    AssetAlreadyRegistered,
    NoIpoParams,
    /// An amount subtraction went below zero.
    Overflow,
}

/// Terms of a pre-IPO asset.
pub struct IPOParams {
    pub mint_end: u64,
    pub pre_ipo_price: Decimal,
    pub min_collateral_ratio_after_ipo: Decimal,
    pub trigger_addr: String,
}

/// Per-asset settings.
pub struct AssetConfig {
    pub token: String,
    pub auction_discount: Decimal,
    pub min_collateral_ratio: Decimal,
    pub end_price: Option<Decimal>,
    pub ipo_params: Option<IPOParams>,
}

/// The mint contract's settings.
pub struct Config {
    pub owner: String,
    pub oracle: String,
    pub collector: String,
    pub collateral_oracle: String,
    pub staking: String,
    pub terraswap_factory: String,
    pub lock: String,
    pub base_denom: String,
    pub token_code_id: u64,
    pub protocol_fee_rate: Decimal,
}

/// A collateralized debt position.
pub struct Position {
    pub idx: u128,
    pub owner: String,
    pub collateral: Asset,
    pub asset: Asset,
}

/// An auction discount may be at most 100%.
pub fn assert_auction_discount(auction_discount: Decimal) -> (r: Result<(), MintError>)
    ensures
        r is Ok <==> auction_discount.atomics <= frac(),
        r is Err ==> r == Err::<(), MintError>(MintError::AuctionDiscountTooLarge),
{
    if auction_discount.atomics > Decimal::one().atomics {
        Err(MintError::AuctionDiscountTooLarge)
    } else {
        Ok(())
    }
}

/// A minimum collateral ratio must be at least 100%.
pub fn assert_min_collateral_ratio(min_collateral_ratio: Decimal) -> (r: Result<(), MintError>)
    ensures
        r is Ok <==> min_collateral_ratio.atomics >= frac(),
        r is Err ==> r == Err::<(), MintError>(MintError::MinCollateralRatioTooSmall),
{
    if min_collateral_ratio.atomics < Decimal::one().atomics {
        Err(MintError::MinCollateralRatioTooSmall)
    } else {
        Ok(())
    }
}

/// A protocol fee rate must be below 100%; returns it.
pub fn assert_protocol_fee(protocol_fee_rate: Decimal) -> (r: Result<Decimal, MintError>)
    ensures
        protocol_fee_rate.atomics < frac() ==> r == Ok::<Decimal, MintError>(protocol_fee_rate),
        protocol_fee_rate.atomics >= frac() ==> r == Err::<Decimal, MintError>(
            MintError::ProtocolFeeTooLarge,
        ),
{
    if protocol_fee_rate.atomics >= Decimal::one().atomics {
        Err(MintError::ProtocolFeeTooLarge)
    } else {
        Ok(protocol_fee_rate)
    }
}

/// Operations other than burning are refused for a migrated asset.
pub fn assert_migrated_asset(asset_config: &AssetConfig) -> (r: Result<(), MintError>)
    ensures
        r is Ok <==> asset_config.end_price is None,
        r is Err ==> r == Err::<(), MintError>(MintError::DeprecatedAsset),
{
    if asset_config.end_price.is_some() {
        Err(MintError::DeprecatedAsset)
    } else {
        Ok(())
    }
}

/// A revoked collateral is refused; otherwise returns its price and
/// multiplier.
pub fn assert_revoked_collateral(collateral_info: (Decimal, Decimal, bool)) -> (r: Result<
    (Decimal, Decimal),
    MintError,
>)
    ensures
        collateral_info.2 ==> r == Err::<(Decimal, Decimal), MintError>(
            MintError::RevokedCollateral,
        ),
        !collateral_info.2 ==> r == Ok::<(Decimal, Decimal), MintError>(
            (collateral_info.0, collateral_info.1),
        ),
{
    if collateral_info.2 {
        Err(MintError::RevokedCollateral)
    } else {
        Ok((collateral_info.0, collateral_info.1))
    }
}

/// The end of the minting period of a pre-IPO asset, if it is one.
pub open spec fn mint_end(asset_config: AssetConfig) -> Option<u64> {
    match asset_config.ipo_params {
        Some(p) => Some(p.mint_end),
        None => None,
    }
}

/// Minting a pre-IPO asset is refused after its minting period.
pub fn assert_mint_period(now_seconds: u64, asset_config: &AssetConfig) -> (r: Result<
    (),
    MintError,
>)
    ensures
        match mint_end(*asset_config) {
            Some(end) => if end < now_seconds {
                r == Err::<(), MintError>(MintError::MintPeriodEnded(end))
            } else {
                r is Ok
            },
            None => r is Ok,
        },
{
    match &asset_config.ipo_params {
        Some(p) => {
            if p.mint_end < now_seconds {
                return Err(MintError::MintPeriodEnded(p.mint_end));
            }
            Ok(())
        },
        None => Ok(()),
    }
}

/// Burning a pre-IPO asset is refused after its minting period (until the
/// IPO is triggered and the IPO terms are dropped).
pub fn assert_burn_period(now_seconds: u64, asset_config: &AssetConfig) -> (r: Result<
    (),
    MintError,
>)
    ensures
        match mint_end(*asset_config) {
            Some(end) => if end < now_seconds {
                r == Err::<(), MintError>(MintError::BurnPeriodEnded(end))
            } else {
                r is Ok
            },
            None => r is Ok,
        },
{
    match &asset_config.ipo_params {
        Some(p) => {
            if p.mint_end < now_seconds {
                return Err(MintError::BurnPeriodEnded(p.mint_end));
            }
            Ok(())
        },
        None => Ok(()),
    }
}

/// A pre-IPO asset only takes the base denomination as collateral.
pub fn assert_pre_ipo_collateral(
    base_denom: &String,
    asset_config: &AssetConfig,
    collateral_info: &AssetInfo,
) -> (r: Result<(), MintError>)
    ensures
        r is Ok <==> (asset_config.ipo_params is None || match *collateral_info {
            AssetInfo::NativeToken { denom } => denom@ == base_denom@,
            AssetInfo::Token { .. } => false,
        }),
        r is Err ==> r == Err::<(), MintError>(MintError::PreIpoCollateral),
{
    if asset_config.ipo_params.is_some() {
        match collateral_info {
            AssetInfo::Token { .. } => {
                return Err(MintError::PreIpoCollateral);
            },
            AssetInfo::NativeToken { denom } => {
                if !denom.eq(base_denom) {
                    return Err(MintError::PreIpoCollateral);
                }
            },
        }
    }
    Ok(())
}

/// The given collateral must be the position's collateral, and non-zero.
pub fn assert_collateral(position: &Position, collateral: &Asset) -> (r: Result<(), MintError>)
    ensures
        r is Ok <==> same_asset(position.collateral.info, collateral.info) && collateral.amount
            != 0,
        r is Err ==> r == Err::<(), MintError>(MintError::WrongCollateral),
{
    if !position.collateral.info.equal(&collateral.info) || collateral.amount == 0 {
        return Err(MintError::WrongCollateral);
    }
    Ok(())
}

/// The given asset must be the position's asset, and non-zero.
pub fn assert_asset(position: &Position, asset: &Asset) -> (r: Result<(), MintError>)
    ensures
        r is Ok <==> same_asset(position.asset.info, asset.info) && asset.amount != 0,
        r is Err ==> r == Err::<(), MintError>(MintError::WrongAsset),
{
    if !position.asset.info.equal(&asset.info) || asset.amount == 0 {
        return Err(MintError::WrongAsset);
    }
    Ok(())
}

/// Only the position's owner may act on it.
pub fn assert_position_owner(position: &Position, sender: &String) -> (r: Result<(), MintError>)
    ensures
        r is Ok <==> position.owner@ == sender@,
        r is Err ==> r == Err::<(), MintError>(MintError::Unauthorized),
{
    if !sender.eq(&position.owner) {
        return Err(MintError::Unauthorized);
    }
    Ok(())
}


/// The stored price of an asset that overrides the oracle: the end price of
/// a migrated asset, else the pre-IPO price of a pre-IPO asset.
pub open spec fn spec_fixed_price(asset_config: AssetConfig) -> Option<Decimal> {
    match asset_config.end_price {
        Some(p) => Some(p),
        None => match asset_config.ipo_params {
            Some(ipo) => Some(ipo.pre_ipo_price),
            None => None,
        },
    }
}

/// Reads the stored price that overrides the oracle, if any.
pub fn read_fixed_price(asset_config: &AssetConfig) -> (r: Option<Decimal>)
    ensures
        r == spec_fixed_price(*asset_config),
{
    match asset_config.end_price {
        Some(p) => Some(p),
        None => match &asset_config.ipo_params {
            Some(ipo) => Some(ipo.pre_ipo_price),
            None => None,
        },
    }
}

/// The price of an asset when it needs no oracle query: its fixed price, or
/// one for the base denomination. `None` means the oracle must be asked.
pub fn load_asset_price(fixed_price: Option<Decimal>, asset_denom: &String, base_denom: &String) -> (r:
    Option<Decimal>)
    ensures
        match fixed_price {
            Some(p) => r == Some(p),
            None => if asset_denom@ == base_denom@ {
                r == Some(Decimal { atomics: frac() as u128 })
            } else {
                r is None
            },
        },
{
    match fixed_price {
        Some(p) => Some(p),
        None => {
            if asset_denom.eq(base_denom) {
                Some(Decimal::one())
            } else {
                None
            }
        },
    }
}

/// Where the price of a collateral comes from.
#[derive(Debug, PartialEq, Eq, Structural)]
pub enum CollateralSource {
    /// The base denomination: price one, multiplier one, not revoked.
    Base,
    /// A migrated mAsset: its end price, the oracle's multiplier, revoked.
    Revoked(Decimal),
    /// Price, multiplier and revocation all from the collateral oracle.
    Oracle,
}

/// Decides where a collateral's price comes from.
pub fn load_collateral_info(
    collateral_denom: &String,
    base_denom: &String,
    end_price: Option<Decimal>,
) -> (r: CollateralSource)
    ensures
        collateral_denom@ == base_denom@ ==> r == CollateralSource::Base,
        collateral_denom@ != base_denom@ ==> match end_price {
            Some(p) => r == CollateralSource::Revoked(p),
            None => r == CollateralSource::Oracle,
        },
{
    if collateral_denom.eq(base_denom) {
        return CollateralSource::Base;
    }
    match end_price {
        Some(p) => CollateralSource::Revoked(p),
        None => CollateralSource::Oracle,
    }
}

/// A position must be opened with some collateral.
pub fn check_open_collateral(collateral: &Asset) -> (r: Result<(), MintError>)
    ensures
        r is Ok <==> collateral.amount != 0,
        r is Err ==> r == Err::<(), MintError>(MintError::WrongCollateral),
{
    if collateral.amount == 0 {
        Err(MintError::WrongCollateral)
    } else {
        Ok(())
    }
}

/// The checks of opening a position that come before its minimum ratio:
/// the collateral is not revoked, the asset not migrated, and a pre-IPO
/// asset is still in its minting period and gets the base denomination as
/// collateral.
pub open spec fn open_prechecks_pass(
    config: Config,
    asset_config: AssetConfig,
    now_seconds: u64,
    collateral: Asset,
    collateral_info: (Decimal, Decimal, bool),
) -> bool {
    &&& !collateral_info.2
    &&& asset_config.end_price is None
    &&& !(mint_end(asset_config) is Some && mint_end(asset_config)->Some_0 < now_seconds)
    &&& (asset_config.ipo_params is None || match collateral.info {
        AssetInfo::NativeToken { denom } => denom@ == config.base_denom@,
        AssetInfo::Token { .. } => false,
    })
}

/// The refusals of opening a position that come before its minimum ratio,
/// in the order `validate_open_position` makes them.
pub fn check_open_prechecks(
    config: &Config,
    asset_config: &AssetConfig,
    now_seconds: u64,
    collateral: &Asset,
    collateral_info: (Decimal, Decimal, bool),
) -> (r: Result<(), MintError>)
    ensures
        r is Ok <==> open_prechecks_pass(
            *config,
            *asset_config,
            now_seconds,
            *collateral,
            collateral_info,
        ),
        r is Err ==> r == (match spec_validate_open(
            *config,
            *asset_config,
            now_seconds,
            *collateral,
            collateral_info,
            Decimal { atomics: 0 },
        ) {
            Err(e) => Err::<(), MintError>(e),
            Ok(_) => Ok::<(), MintError>(()),
        }),
{
    match assert_revoked_collateral(collateral_info) {
        Ok(_) => {},
        Err(e) => {
            return Err(e);
        },
    }
    match assert_migrated_asset(asset_config) {
        Ok(()) => {},
        Err(e) => {
            return Err(e);
        },
    }
    match assert_mint_period(now_seconds, asset_config) {
        Ok(()) => {},
        Err(e) => {
            return Err(e);
        },
    }
    assert_pre_ipo_collateral(&config.base_denom, asset_config, &collateral.info)
}

/// What `validate_open_position` answers.
pub open spec fn spec_validate_open(
    config: Config,
    asset_config: AssetConfig,
    now_seconds: u64,
    collateral: Asset,
    collateral_info: (Decimal, Decimal, bool),
    collateral_ratio: Decimal,
) -> Result<Decimal, MintError> {
    let min_ratio = spec_product(asset_config.min_collateral_ratio, collateral_info.1);
    if collateral_info.2 {
        Err(MintError::RevokedCollateral)
    } else if asset_config.end_price is Some {
        Err(MintError::DeprecatedAsset)
    } else if mint_end(asset_config) is Some && mint_end(asset_config)->Some_0 < now_seconds {
        Err(MintError::MintPeriodEnded(mint_end(asset_config)->Some_0))
    } else if asset_config.ipo_params is Some && !(match collateral.info {
        AssetInfo::NativeToken { denom } => denom@ == config.base_denom@,
        AssetInfo::Token { .. } => false,
    }) {
        Err(MintError::PreIpoCollateral)
    } else if collateral_ratio.atomics < min_ratio.atomics {
        Err(MintError::LowCollateralRatio)
    } else {
        Ok(collateral_info.0)
    }
}

/// The checks of opening a position, once the collateral's price,
/// multiplier and revocation are known: the collateral is not revoked, the
/// asset not migrated, a pre-IPO asset is still in its minting period and
/// gets the base denomination as collateral, and the requested ratio is at
/// least the asset's minimum times the collateral's multiplier. Returns the
/// collateral price.
pub fn validate_open_position(
    config: &Config,
    asset_config: &AssetConfig,
    now_seconds: u64,
    collateral: &Asset,
    collateral_info: (Decimal, Decimal, bool),
    collateral_ratio: Decimal,
) -> (r: Result<Decimal, MintError>)
    requires
        open_prechecks_pass(*config, *asset_config, now_seconds, *collateral, collateral_info)
            ==> decimal_multiplication_fits(asset_config.min_collateral_ratio, collateral_info.1),
    ensures
        r == spec_validate_open(
            *config,
            *asset_config,
            now_seconds,
            *collateral,
            collateral_info,
            collateral_ratio,
        ),
{
    let (collateral_price, collateral_multiplier) = match assert_revoked_collateral(
        collateral_info,
    ) {
        Ok(v) => v,
        Err(e) => {
            return Err(e);
        },
    };
    match assert_migrated_asset(asset_config) {
        Ok(()) => {},
        Err(e) => {
            return Err(e);
        },
    }
    match assert_mint_period(now_seconds, asset_config) {
        Ok(()) => {},
        Err(e) => {
            return Err(e);
        },
    }
    match assert_pre_ipo_collateral(&config.base_denom, asset_config, &collateral.info) {
        Ok(()) => {},
        Err(e) => {
            return Err(e);
        },
    }
    let min_ratio = decimal_multiplication(asset_config.min_collateral_ratio, collateral_multiplier);
    if collateral_ratio.lt(&min_ratio) {
        return Err(MintError::LowCollateralRatio);
    }
    Ok(collateral_price)
}

/// The amount minted for a new position:
/// `collateral * (collateral_price / asset_price) * (1 / collateral_ratio)`.
pub open spec fn spec_open_mint_amount(
    collateral_amount: u128,
    collateral_price: Decimal,
    asset_price: Decimal,
    collateral_ratio: Decimal,
) -> int {
    spec_uint_mul(
        spec_uint_mul(collateral_amount as int, spec_division(collateral_price, asset_price)),
        spec_reverse(collateral_ratio),
    )
}

/// `compute_mint_amount` does not panic.
pub open spec fn mint_amount_fits(
    collateral_amount: u128,
    collateral_price: Decimal,
    asset_price: Decimal,
    collateral_ratio: Decimal,
) -> bool {
    &&& division_fits(collateral_price, asset_price)
    &&& nano_units(collateral_ratio) > 0
    &&& uint_mul_fits(collateral_amount as int, spec_division(collateral_price, asset_price))
    &&& uint_mul_fits(
        spec_uint_mul(collateral_amount as int, spec_division(collateral_price, asset_price)),
        spec_reverse(collateral_ratio),
    )
}

/// Converts the collateral of a new position into the amount to mint;
/// refuses when that amount rounds down to zero.
pub fn compute_mint_amount(
    collateral_amount: u128,
    collateral_price: Decimal,
    asset_price: Decimal,
    collateral_ratio: Decimal,
) -> (r: Result<u128, MintError>)
    requires
        mint_amount_fits(collateral_amount, collateral_price, asset_price, collateral_ratio),
    ensures
        ({
            let m = spec_open_mint_amount(
                collateral_amount,
                collateral_price,
                asset_price,
                collateral_ratio,
            );
            &&& m == 0 ==> r == Err::<u128, MintError>(MintError::CollateralTooSmall)
            &&& m != 0 ==> r == Ok::<u128, MintError>(m as u128)
        }),
{
    let asset_price_in_collateral_asset = decimal_division(collateral_price, asset_price);
    let value = uint_mul(collateral_amount, asset_price_in_collateral_asset);
    let mint_amount = uint_mul(value, reverse_decimal(collateral_ratio));
    if mint_amount == 0 {
        return Err(MintError::CollateralTooSmall);
    }
    Ok(mint_amount)
}


/// Opens a position: refuses zero collateral, then runs the checks of
/// `validate_open_position`, then converts the collateral into the amount
/// to mint (see `compute_mint_amount`), records the position under
/// `position_idx` for `owner`, and returns it with the next position index.
pub fn open_position(
    position_idx: u128,
    owner: String,
    collateral: Asset,
    asset_info: AssetInfo,
    config: &Config,
    asset_config: &AssetConfig,
    now_seconds: u64,
    collateral_info: (Decimal, Decimal, bool),
    collateral_ratio: Decimal,
    asset_price: Decimal,
) -> (r: Result<(Position, u128), MintError>)
    requires
        collateral.amount != 0 && open_prechecks_pass(
            *config,
            *asset_config,
            now_seconds,
            collateral,
            collateral_info,
        ) ==> decimal_multiplication_fits(asset_config.min_collateral_ratio, collateral_info.1),
        collateral.amount != 0 && spec_validate_open(
            *config,
            *asset_config,
            now_seconds,
            collateral,
            collateral_info,
            collateral_ratio,
        ) is Ok ==> mint_amount_fits(
            collateral.amount,
            collateral_info.0,
            asset_price,
            collateral_ratio,
        ) && position_idx < u128::MAX,
    ensures
        ({
            let v = spec_validate_open(
                *config,
                *asset_config,
                now_seconds,
                collateral,
                collateral_info,
                collateral_ratio,
            );
            let m = spec_open_mint_amount(
                collateral.amount,
                collateral_info.0,
                asset_price,
                collateral_ratio,
            );
            if collateral.amount == 0 {
                r == Err::<(Position, u128), MintError>(MintError::WrongCollateral)
            } else if v is Err {
                r == Err::<(Position, u128), MintError>(v->Err_0)
            } else if m == 0 {
                r == Err::<(Position, u128), MintError>(MintError::CollateralTooSmall)
            } else {
                r == Ok::<(Position, u128), MintError>(
                    (
                        Position {
                            idx: position_idx,
                            owner,
                            collateral,
                            asset: Asset { info: asset_info, amount: m as u128 },
                        },
                        (position_idx + 1) as u128,
                    ),
                )
            }
        }),
{
    match check_open_collateral(&collateral) {
        Ok(()) => {},
        Err(e) => {
            return Err(e);
        },
    }
    let collateral_price = match validate_open_position(
        config,
        asset_config,
        now_seconds,
        &collateral,
        collateral_info,
        collateral_ratio,
    ) {
        Ok(p) => p,
        Err(e) => {
            return Err(e);
        },
    };
    let mint_amount = match compute_mint_amount(
        collateral.amount,
        collateral_price,
        asset_price,
        collateral_ratio,
    ) {
        Ok(m) => m,
        Err(e) => {
            return Err(e);
        },
    };
    let position = Position {
        idx: position_idx,
        owner,
        collateral,
        asset: Asset { info: asset_info, amount: mint_amount },
    };
    Ok((position, position_idx + 1))
}

/// The refusals of a deposit, in the order `deposit` makes them.
pub fn check_deposit(
    position: &Position,
    sender: &String,
    collateral: &Asset,
    collateral_revoked: bool,
    asset_config: &AssetConfig,
) -> (r: Result<(), MintError>)
    ensures
        ({
            if position.owner@ != sender@ {
                r == Err::<(), MintError>(MintError::Unauthorized)
            } else if !same_asset(position.collateral.info, collateral.info)
                || collateral.amount == 0 {
                r == Err::<(), MintError>(MintError::WrongCollateral)
            } else if collateral_revoked {
                r == Err::<(), MintError>(MintError::RevokedCollateral)
            } else if asset_config.end_price is Some {
                r == Err::<(), MintError>(MintError::DeprecatedAsset)
            } else {
                r is Ok
            }
        }),
{
    match assert_position_owner(position, sender) {
        Ok(()) => {},
        Err(e) => {
            return Err(e);
        },
    }
    match assert_collateral(position, collateral) {
        Ok(()) => {},
        Err(e) => {
            return Err(e);
        },
    }
    if collateral_revoked {
        return Err(MintError::RevokedCollateral);
    }
    assert_migrated_asset(asset_config)
}

/// Adds collateral to a position: only its owner may, with the position's
/// own (non-zero, not revoked) collateral, while the asset is not migrated.
pub fn deposit(
    position: &mut Position,
    sender: &String,
    collateral: &Asset,
    collateral_revoked: bool,
    asset_config: &AssetConfig,
) -> (r: Result<(), MintError>)
    requires
        old(position).owner@ == sender@ && same_asset(old(position).collateral.info, collateral.info)
            && collateral.amount != 0 && !collateral_revoked && asset_config.end_price is None
            ==> old(position).collateral.amount + collateral.amount <= u128::MAX,
    ensures
        ({
            if old(position).owner@ != sender@ {
                r == Err::<(), MintError>(MintError::Unauthorized)
            } else if !same_asset(old(position).collateral.info, collateral.info)
                || collateral.amount == 0 {
                r == Err::<(), MintError>(MintError::WrongCollateral)
            } else if collateral_revoked {
                r == Err::<(), MintError>(MintError::RevokedCollateral)
            } else if asset_config.end_price is Some {
                r == Err::<(), MintError>(MintError::DeprecatedAsset)
            } else {
                r is Ok
            }
        }),
        r is Ok ==> final(position).collateral.amount == old(position).collateral.amount
            + collateral.amount,
        r is Err ==> final(position).collateral.amount == old(position).collateral.amount,
        final(position).idx == old(position).idx,
        final(position).owner == old(position).owner,
        final(position).collateral.info == old(position).collateral.info,
        final(position).asset == old(position).asset,
{
    match check_deposit(position, sender, collateral, collateral_revoked, asset_config) {
        Ok(()) => {},
        Err(e) => {
            return Err(e);
        },
    }
    position.collateral.amount = position.collateral.amount + collateral.amount;
    Ok(())
}

/// Collateral that an asset amount requires:
/// `amount * (asset_price / collateral_price) * min_ratio * multiplier`,
/// each product rounded down.
pub open spec fn spec_required_collateral(
    asset_amount: int,
    asset_price: Decimal,
    collateral_price: Decimal,
    min_collateral_ratio: Decimal,
    multiplier: Decimal,
) -> int {
    spec_uint_mul(
        spec_uint_mul(
            spec_uint_mul(asset_amount, spec_division(asset_price, collateral_price)),
            min_collateral_ratio,
        ),
        multiplier,
    )
}

/// `required_collateral` does not panic.
pub open spec fn required_collateral_fits(
    asset_amount: int,
    asset_price: Decimal,
    collateral_price: Decimal,
    min_collateral_ratio: Decimal,
    multiplier: Decimal,
) -> bool {
    let v = spec_uint_mul(asset_amount, spec_division(asset_price, collateral_price));
    &&& division_fits(asset_price, collateral_price)
    &&& uint_mul_fits(asset_amount, spec_division(asset_price, collateral_price))
    &&& uint_mul_fits(v, min_collateral_ratio)
    &&& uint_mul_fits(spec_uint_mul(v, min_collateral_ratio), multiplier)
}

fn required_collateral(
    asset_amount: u128,
    asset_price: Decimal,
    collateral_price: Decimal,
    min_collateral_ratio: Decimal,
    multiplier: Decimal,
) -> (r: u128)
    requires
        required_collateral_fits(
            asset_amount as int,
            asset_price,
            collateral_price,
            min_collateral_ratio,
            multiplier,
        ),
    ensures
        r == spec_required_collateral(
            asset_amount as int,
            asset_price,
            collateral_price,
            min_collateral_ratio,
            multiplier,
        ),
{
    let value = uint_mul(asset_amount, decimal_division(asset_price, collateral_price));
    uint_mul(uint_mul(value, min_collateral_ratio), multiplier)
}

/// The refusals of a withdrawal that come before its collateral ratio, in
/// the order `withdraw` makes them. Returns the amount to withdraw: the
/// given collateral's, or all of the position's.
pub fn check_withdraw(position: &Position, sender: &String, collateral: Option<&Asset>) -> (r:
    Result<u128, MintError>)
    ensures
        ({
            let p = *position;
            let amount = match collateral {
                Some(c) => c.amount,
                None => p.collateral.amount,
            };
            if p.owner@ != sender@ {
                r == Err::<u128, MintError>(MintError::Unauthorized)
            } else if collateral is Some && (!same_asset(
                p.collateral.info,
                collateral->Some_0.info,
            ) || collateral->Some_0.amount == 0) {
                r == Err::<u128, MintError>(MintError::WrongCollateral)
            } else if p.collateral.amount < amount {
                r == Err::<u128, MintError>(MintError::CannotWithdrawMoreThanProvided)
            } else {
                r == Ok::<u128, MintError>(amount)
            }
        }),
{
    match assert_position_owner(position, sender) {
        Ok(()) => {},
        Err(e) => {
            return Err(e);
        },
    }
    match collateral {
        Some(c) => {
            match assert_collateral(position, c) {
                Ok(()) => {},
                Err(e) => {
                    return Err(e);
                },
            }
            if position.collateral.amount < c.amount {
                return Err(MintError::CannotWithdrawMoreThanProvided);
            }
            Ok(c.amount)
        },
        None => Ok(position.collateral.amount),
    }
}

/// Takes collateral out of a position (all of it when `collateral` is
/// `None`): only the owner may, only the position's collateral, no more
/// than the position holds, and never leaving less collateral than the
/// minimum ratio requires for the minted amount. Returns the amount taken
/// and whether the position is now empty (to be removed).
pub fn withdraw(
    position: &mut Position,
    sender: &String,
    collateral: Option<&Asset>,
    asset_price: Decimal,
    collateral_price: Decimal,
    collateral_multiplier: Decimal,
    min_collateral_ratio: Decimal,
) -> (r: Result<(u128, bool), MintError>)
    requires
        old(position).owner@ == sender@ && match collateral {
            Some(c) => same_asset(old(position).collateral.info, c.info) && c.amount != 0
                && c.amount <= old(position).collateral.amount,
            None => true,
        } ==> required_collateral_fits(
            old(position).asset.amount as int,
            asset_price,
            collateral_price,
            min_collateral_ratio,
            collateral_multiplier,
        ),
    ensures
        ({
            let p = *old(position);
            let required = spec_required_collateral(
                p.asset.amount as int,
                asset_price,
                collateral_price,
                min_collateral_ratio,
                collateral_multiplier,
            );
            let amount = match collateral {
                Some(c) => c.amount,
                None => p.collateral.amount,
            };
            if p.owner@ != sender@ {
                r == Err::<(u128, bool), MintError>(MintError::Unauthorized)
            } else if collateral is Some && (!same_asset(
                p.collateral.info,
                collateral->Some_0.info,
            ) || collateral->Some_0.amount == 0) {
                r == Err::<(u128, bool), MintError>(MintError::WrongCollateral)
            } else if p.collateral.amount < amount {
                r == Err::<(u128, bool), MintError>(MintError::CannotWithdrawMoreThanProvided)
            } else if required > p.collateral.amount - amount {
                r == Err::<(u128, bool), MintError>(MintError::WithdrawBelowMinRatio)
            } else {
                r == Ok::<(u128, bool), MintError>(
                    (amount, p.collateral.amount - amount == 0 && p.asset.amount == 0),
                )
            }
        }),
        r is Ok ==> final(position).collateral.amount == old(position).collateral.amount
            - r->Ok_0.0,
        r is Ok ==> final(position).collateral.amount >= spec_required_collateral(
            old(position).asset.amount as int,
            asset_price,
            collateral_price,
            min_collateral_ratio,
            collateral_multiplier,
        ),
        r is Err ==> final(position).collateral.amount == old(position).collateral.amount,
        final(position).idx == old(position).idx,
        final(position).owner == old(position).owner,
        final(position).collateral.info == old(position).collateral.info,
        final(position).asset == old(position).asset,
{
    let amount = match check_withdraw(position, sender, collateral) {
        Ok(a) => a,
        Err(e) => {
            return Err(e);
        },
    };
    let collateral_amount = position.collateral.amount - amount;
    let required = required_collateral(
        position.asset.amount,
        asset_price,
        collateral_price,
        min_collateral_ratio,
        collateral_multiplier,
    );
    if required > collateral_amount {
        return Err(MintError::WithdrawBelowMinRatio);
    }
    position.collateral.amount = collateral_amount;
    Ok((amount, collateral_amount == 0 && position.asset.amount == 0))
}

/// The checks of a mint that come before its collateral ratio: the sender
/// owns the position, mints its (non-zero) asset, the asset is not migrated,
/// the collateral not revoked and a pre-IPO minting period not over.
pub open spec fn mint_checks_pass(
    p: Position,
    sender: String,
    asset: Asset,
    asset_config: AssetConfig,
    now_seconds: u64,
    collateral_info: (Decimal, Decimal, bool),
) -> bool {
    &&& p.owner@ == sender@
    &&& same_asset(p.asset.info, asset.info) && asset.amount != 0
    &&& asset_config.end_price is None
    &&& !collateral_info.2
    &&& !(mint_end(asset_config) is Some && mint_end(asset_config)->Some_0 < now_seconds)
}

/// The refusals of a mint that come before its collateral ratio, in the
/// order `mint` makes them.
pub fn check_mint(
    position: &Position,
    sender: &String,
    asset: &Asset,
    asset_config: &AssetConfig,
    now_seconds: u64,
    collateral_info: (Decimal, Decimal, bool),
) -> (r: Result<(), MintError>)
    ensures
        r is Ok <==> mint_checks_pass(
            *position,
            *sender,
            *asset,
            *asset_config,
            now_seconds,
            collateral_info,
        ),
        ({
            let p = *position;
            if p.owner@ != sender@ {
                r == Err::<(), MintError>(MintError::Unauthorized)
            } else if !same_asset(p.asset.info, asset.info) || asset.amount == 0 {
                r == Err::<(), MintError>(MintError::WrongAsset)
            } else if asset_config.end_price is Some {
                r == Err::<(), MintError>(MintError::DeprecatedAsset)
            } else if collateral_info.2 {
                r == Err::<(), MintError>(MintError::RevokedCollateral)
            } else if mint_end(*asset_config) is Some && mint_end(*asset_config)->Some_0
                < now_seconds {
                r == Err::<(), MintError>(
                    MintError::MintPeriodEnded(mint_end(*asset_config)->Some_0),
                )
            } else {
                r is Ok
            }
        }),
{
    match assert_position_owner(position, sender) {
        Ok(()) => {},
        Err(e) => {
            return Err(e);
        },
    }
    match assert_asset(position, asset) {
        Ok(()) => {},
        Err(e) => {
            return Err(e);
        },
    }
    match assert_migrated_asset(asset_config) {
        Ok(()) => {},
        Err(e) => {
            return Err(e);
        },
    }
    match assert_revoked_collateral(collateral_info) {
        Ok(_) => {},
        Err(e) => {
            return Err(e);
        },
    }
    assert_mint_period(now_seconds, asset_config)
}

/// Mints more of a position's asset: only the owner may, only the
/// position's (non-zero) asset, while the asset is not migrated, the
/// collateral not revoked and a pre-IPO minting period not over, and only as
/// long as the position's collateral covers the minimum ratio for the new
/// total.
pub fn mint(
    position: &mut Position,
    sender: &String,
    asset: &Asset,
    asset_config: &AssetConfig,
    now_seconds: u64,
    collateral_info: (Decimal, Decimal, bool),
    asset_price: Decimal,
) -> (r: Result<(), MintError>)
    requires
        mint_checks_pass(*old(position), *sender, *asset, *asset_config, now_seconds, collateral_info)
            ==> old(position).asset.amount + asset.amount <= u128::MAX && required_collateral_fits(
            old(position).asset.amount + asset.amount,
            asset_price,
            collateral_info.0,
            asset_config.min_collateral_ratio,
            collateral_info.1,
        ),
    ensures
        ({
            let p = *old(position);
            let required = spec_required_collateral(
                p.asset.amount + asset.amount,
                asset_price,
                collateral_info.0,
                asset_config.min_collateral_ratio,
                collateral_info.1,
            );
            if p.owner@ != sender@ {
                r == Err::<(), MintError>(MintError::Unauthorized)
            } else if !same_asset(p.asset.info, asset.info) || asset.amount == 0 {
                r == Err::<(), MintError>(MintError::WrongAsset)
            } else if asset_config.end_price is Some {
                r == Err::<(), MintError>(MintError::DeprecatedAsset)
            } else if collateral_info.2 {
                r == Err::<(), MintError>(MintError::RevokedCollateral)
            } else if mint_end(*asset_config) is Some && mint_end(*asset_config)->Some_0
                < now_seconds {
                r == Err::<(), MintError>(
                    MintError::MintPeriodEnded(mint_end(*asset_config)->Some_0),
                )
            } else if required > p.collateral.amount {
                r == Err::<(), MintError>(MintError::MintBelowMinRatio)
            } else {
                r is Ok
            }
        }),
        r is Ok ==> final(position).asset.amount == old(position).asset.amount + asset.amount,
        r is Err ==> final(position).asset.amount == old(position).asset.amount,
        final(position).idx == old(position).idx,
        final(position).owner == old(position).owner,
        final(position).asset.info == old(position).asset.info,
        final(position).collateral == old(position).collateral,
{
    match check_mint(position, sender, asset, asset_config, now_seconds, collateral_info) {
        Ok(()) => {},
        Err(e) => {
            return Err(e);
        },
    }
    let collateral_price = collateral_info.0;
    let collateral_multiplier = collateral_info.1;
    let asset_amount = asset.amount + position.asset.amount;
    let required = required_collateral(
        asset_amount,
        asset_price,
        collateral_price,
        asset_config.min_collateral_ratio,
        collateral_multiplier,
    );
    if required > position.collateral.amount {
        return Err(MintError::MintBelowMinRatio);
    }
    position.asset.amount = position.asset.amount + asset.amount;
    Ok(())
}


/// What a burn pays out.
#[derive(Debug, PartialEq, Eq, Structural)]
pub struct BurnOutcome {
    /// Collateral sent to the collector.
    pub protocol_fee: u128,
    /// Collateral returned to the burner (migrated assets only).
    pub refund_collateral: u128,
    /// The position is used up and is to be removed.
    pub closed: bool,
}

/// Collateral per unit of a migrated asset implied by a position:
/// `collateral / asset`.
pub open spec fn conversion_rate(position: Position) -> Decimal {
    Decimal {
        atomics: ratio_atomics(
            position.collateral.amount as int,
            position.asset.amount as int,
        ) as u128,
    }
}

/// Collateral refunded for burning `burn` of a migrated asset, before the
/// fee: the value at the end price, capped by the position's own rate.
pub open spec fn deprecated_refund(position: Position, burn: u128, end_price: Decimal, collateral_price: Decimal) -> int {
    let by_price = spec_uint_mul(burn as int, spec_division(end_price, collateral_price));
    let by_rate = spec_uint_mul(burn as int, conversion_rate(position));
    if by_price < by_rate {
        by_price
    } else {
        by_rate
    }
}

/// Protocol fee for burning or liquidating `amount`:
/// `amount * price_in_collateral * fee_rate`.
pub open spec fn spec_protocol_fee(amount: u128, price_in_collateral: Decimal, fee_rate: Decimal) -> int {
    spec_uint_mul(spec_uint_mul(amount as int, price_in_collateral), fee_rate)
}

/// `burn` does not panic once its checks have passed.
pub open spec fn burn_fits(
    position: Position,
    burn: u128,
    asset_config: AssetConfig,
    collateral_price: Decimal,
    asset_price: Decimal,
    fee_rate: Decimal,
) -> bool {
    match asset_config.end_price {
        Some(ep) => {
            let cpa = spec_division(ep, collateral_price);
            &&& division_fits(ep, collateral_price)
            &&& uint_mul_fits(burn as int, cpa)
            &&& ratio_atomics(position.collateral.amount as int, position.asset.amount as int)
                <= u128::MAX
            &&& uint_mul_fits(burn as int, conversion_rate(position))
            &&& uint_mul_fits(spec_uint_mul(burn as int, cpa), fee_rate)
            &&& spec_protocol_fee(burn, cpa, fee_rate) <= deprecated_refund(
                position,
                burn,
                ep,
                collateral_price,
            )
        },
        None => {
            let cpa = spec_division(asset_price, collateral_price);
            &&& division_fits(asset_price, collateral_price)
            &&& uint_mul_fits(burn as int, cpa)
            &&& uint_mul_fits(spec_uint_mul(burn as int, cpa), fee_rate)
        },
    }
}

/// The checks of a burn that come before its arithmetic: the position's
/// (non-zero) asset, no more than minted, a pre-IPO burn period not over,
/// and, unless the asset is migrated, the sender owns the position.
pub open spec fn burn_checks_pass(
    p: Position,
    sender: String,
    asset: Asset,
    asset_config: AssetConfig,
    now_seconds: u64,
) -> bool {
    &&& same_asset(p.asset.info, asset.info) && asset.amount != 0
    &&& asset.amount <= p.asset.amount
    &&& !(mint_end(asset_config) is Some && mint_end(asset_config)->Some_0 < now_seconds)
    &&& (asset_config.end_price is Some || p.owner@ == sender@)
}

/// The refusals of a burn that come before any price is needed, in the
/// order `burn` makes them: the position's (non-zero) asset, no more than
/// minted, a pre-IPO burn period not over.
pub fn check_burn(position: &Position, asset: &Asset, asset_config: &AssetConfig, now_seconds: u64) -> (r:
    Result<(), MintError>)
    ensures
        !same_asset(position.asset.info, asset.info) || asset.amount == 0 ==> r == Err::<
            (),
            MintError,
        >(MintError::WrongAsset),
        same_asset(position.asset.info, asset.info) && asset.amount != 0 && position.asset.amount
            < asset.amount ==> r == Err::<(), MintError>(MintError::CannotBurnMoreThanMinted),
        same_asset(position.asset.info, asset.info) && asset.amount != 0 && asset.amount
            <= position.asset.amount ==> match mint_end(*asset_config) {
            Some(end) => if end < now_seconds {
                r == Err::<(), MintError>(MintError::BurnPeriodEnded(end))
            } else {
                r is Ok
            },
            None => r is Ok,
        },
{
    match assert_asset(position, asset) {
        Ok(()) => {},
        Err(e) => {
            return Err(e);
        },
    }
    if position.asset.amount < asset.amount {
        return Err(MintError::CannotBurnMoreThanMinted);
    }
    assert_burn_period(now_seconds, asset_config)
}

/// Burning at most a position's asset, at the rate `collateral / asset`,
/// never refunds more than the position's collateral.
pub proof fn lemma_conversion_refund_bounded(position: Position, burn: u128)
    requires
        0 < burn <= position.asset.amount,
        ratio_atomics(position.collateral.amount as int, position.asset.amount as int)
            <= u128::MAX,
    ensures
        0 <= spec_uint_mul(burn as int, conversion_rate(position)) <= position.collateral.amount,
{
    let c = position.collateral.amount as int;
    let a = position.asset.amount as int;
    let q = c * frac() / a;
    assert(0 <= q && q * a <= c * frac()) by (nonlinear_arith)
        requires
            q == c * 1_000_000_000_000_000_000int / a,
            a > 0,
            c >= 0,
    ;
    assert(conversion_rate(position).atomics == q);
    if q != 0 {
        assert(burn * q <= c * 1_000_000_000_000_000_000int) by (nonlinear_arith)
            requires
                q * a <= c * 1_000_000_000_000_000_000int,
                0 < burn <= a,
                q >= 0,
        ;
        assert(0 <= burn * q / 1_000_000_000_000_000_000int <= c) by (nonlinear_arith)
            requires
                burn * q <= c * 1_000_000_000_000_000_000int,
                burn > 0,
                q >= 0,
        ;
    }
}


/// Burns minted asset against a position. Checks that it is the position's
/// (non-zero) asset, no more than minted, and that a pre-IPO burn period is
/// not over. For a migrated asset anyone may burn: collateral is refunded
/// at the end price (capped by the position's collateral per asset), less
/// the protocol fee. Otherwise only the owner may burn, and the protocol fee
/// is taken from the position's collateral.
pub fn burn(
    position: &mut Position,
    sender: &String,
    asset: &Asset,
    asset_config: &AssetConfig,
    now_seconds: u64,
    collateral_price: Decimal,
    asset_price: Decimal,
    protocol_fee_rate: Decimal,
) -> (r: Result<BurnOutcome, MintError>)
    requires
        burn_checks_pass(*old(position), *sender, *asset, *asset_config, now_seconds) ==> burn_fits(
            *old(position),
            asset.amount,
            *asset_config,
            collateral_price,
            asset_price,
            protocol_fee_rate,
        ),
    ensures
        ({
            let p = *old(position);
            let b = asset.amount;
            if !same_asset(p.asset.info, asset.info) || b == 0 {
                r == Err::<BurnOutcome, MintError>(MintError::WrongAsset) && *final(position) == p
            } else if p.asset.amount < b {
                r == Err::<BurnOutcome, MintError>(MintError::CannotBurnMoreThanMinted)
                    && *final(position) == p
            } else if mint_end(*asset_config) is Some && mint_end(*asset_config)->Some_0
                < now_seconds {
                r == Err::<BurnOutcome, MintError>(
                    MintError::BurnPeriodEnded(mint_end(*asset_config)->Some_0),
                ) && *final(position) == p
            } else {
                match asset_config.end_price {
                    Some(ep) => {
                        let cpa = spec_division(ep, collateral_price);
                        let refund = deprecated_refund(p, b, ep, collateral_price);
                        let fee = spec_protocol_fee(b, cpa, protocol_fee_rate);
                        let left = p.collateral.amount - refund;
                        &&& r == Ok::<BurnOutcome, MintError>(
                            BurnOutcome {
                                protocol_fee: fee as u128,
                                refund_collateral: (refund - fee) as u128,
                                closed: left <= 1 && p.asset.amount - b == 0,
                            },
                        )
                        &&& final(position).collateral.amount == left
                        &&& final(position).asset.amount == p.asset.amount - b
                    },
                    None => {
                        let fee = spec_protocol_fee(
                            b,
                            spec_division(asset_price, collateral_price),
                            protocol_fee_rate,
                        );
                        if p.owner@ != sender@ {
                            r == Err::<BurnOutcome, MintError>(MintError::Unauthorized)
                                && *final(position) == p
                        } else if fee > p.collateral.amount {
                            r == Err::<BurnOutcome, MintError>(MintError::Overflow)
                                && *final(position) == p
                        } else {
                            &&& r == Ok::<BurnOutcome, MintError>(
                                BurnOutcome {
                                    protocol_fee: fee as u128,
                                    refund_collateral: 0,
                                    closed: false,
                                },
                            )
                            &&& final(position).collateral.amount == p.collateral.amount - fee
                            &&& final(position).asset.amount == p.asset.amount - b
                        }
                    },
                }
            }
        }),
        r is Ok ==> final(position).asset.amount + asset.amount == old(position).asset.amount,
        r is Ok ==> final(position).collateral.amount + r->Ok_0.refund_collateral
            + r->Ok_0.protocol_fee == old(position).collateral.amount,
        final(position).idx == old(position).idx,
        final(position).owner == old(position).owner,
        final(position).asset.info == old(position).asset.info,
        final(position).collateral.info == old(position).collateral.info,
{
    let burn_amount = asset.amount;
    match assert_asset(position, asset) {
        Ok(()) => {},
        Err(e) => {
            return Err(e);
        },
    }
    if position.asset.amount < burn_amount {
        return Err(MintError::CannotBurnMoreThanMinted);
    }
    match assert_burn_period(now_seconds, asset_config) {
        Ok(()) => {},
        Err(e) => {
            return Err(e);
        },
    }
    match asset_config.end_price {
        Some(end_price) => {
            let collateral_price_in_asset = decimal_division(end_price, collateral_price);
            let conversion = Decimal::from_ratio(
                position.collateral.amount,
                position.asset.amount,
            );
            proof {
                lemma_conversion_refund_bounded(*position, burn_amount);
            }
            let by_price = uint_mul(burn_amount, collateral_price_in_asset);
            let by_rate = uint_mul(burn_amount, conversion);
            let mut refund = if by_price < by_rate {
                by_price
            } else {
                by_rate
            };
            position.asset.amount = position.asset.amount - burn_amount;
            position.collateral.amount = position.collateral.amount - refund;
            let closed = position.collateral.amount <= 1 && position.asset.amount == 0;
            let protocol_fee = uint_mul(
                uint_mul(burn_amount, collateral_price_in_asset),
                protocol_fee_rate,
            );
            if protocol_fee != 0 {
                refund = refund - protocol_fee;
            }
            Ok(BurnOutcome { protocol_fee, refund_collateral: refund, closed })
        },
        None => {
            match assert_position_owner(position, sender) {
                Ok(()) => {},
                Err(e) => {
                    return Err(e);
                },
            }
            let collateral_price_in_asset = decimal_division(asset_price, collateral_price);
            let protocol_fee = uint_mul(
                uint_mul(burn_amount, collateral_price_in_asset),
                protocol_fee_rate,
            );
            if protocol_fee != 0 {
                if position.collateral.amount < protocol_fee {
                    return Err(MintError::Overflow);
                }
                position.collateral.amount = position.collateral.amount - protocol_fee;
            }
            position.asset.amount = position.asset.amount - burn_amount;
            Ok(BurnOutcome { protocol_fee, refund_collateral: 0, closed: false })
        },
    }
}


/// What a liquidation pays out.
#[derive(Debug, PartialEq, Eq, Structural)]
pub struct AuctionOutcome {
    /// Collateral paid to the liquidator, net of the protocol fee.
    pub return_collateral_amount: u128,
    /// Asset handed back to the liquidator because the collateral ran out.
    pub refund_asset_amount: u128,
    /// Asset burnt against the position.
    pub liquidated_asset_amount: u128,
    /// Collateral sent to the collector.
    pub protocol_fee: u128,
    /// Collateral left for the owner of a position whose debt is paid off.
    pub owner_refund: u128,
    /// The position is used up and is to be removed.
    pub closed: bool,
}

/// The liquidation price in collateral per asset: the oracle price ratio
/// divided by `1 - auction_discount`.
pub open spec fn discounted_price(
    asset_price: Decimal,
    collateral_price: Decimal,
    auction_discount: Decimal,
) -> Decimal {
    spec_division(
        spec_division(asset_price, collateral_price),
        Decimal {
            atomics: ((1_000_000_000int - nano_units(auction_discount))
                * 1_000_000_000int) as u128,
        },
    )
}

/// Collateral bought by `amount` of asset at the liquidation price.
pub open spec fn auction_value(
    amount: u128,
    asset_price: Decimal,
    collateral_price: Decimal,
    auction_discount: Decimal,
) -> int {
    spec_uint_mul(amount as int, discounted_price(asset_price, collateral_price, auction_discount))
}

/// Asset refunded when `value` exceeds the position's collateral.
pub open spec fn auction_refund(
    value: int,
    collateral: u128,
    asset_price: Decimal,
    collateral_price: Decimal,
    auction_discount: Decimal,
) -> int {
    if value > collateral {
        spec_uint_mul(
            value - collateral,
            spec_reverse(discounted_price(asset_price, collateral_price, auction_discount)),
        )
    } else {
        0
    }
}

/// `auction` does not panic once its checks have passed.
pub open spec fn auction_fits(
    position: Position,
    amount: u128,
    asset_price: Decimal,
    collateral_price: Decimal,
    collateral_multiplier: Decimal,
    asset_config: AssetConfig,
    fee_rate: Decimal,
) -> bool {
    let cpa = spec_division(asset_price, collateral_price);
    let d = asset_config.auction_discount;
    let dp = discounted_price(asset_price, collateral_price, d);
    let value = auction_value(amount, asset_price, collateral_price, d);
    let refund = auction_refund(value, position.collateral.amount, asset_price, collateral_price, d);
    let ret = if value > position.collateral.amount {
        position.collateral.amount as int
    } else {
        value
    };
    &&& required_collateral_fits(
        position.asset.amount as int,
        asset_price,
        collateral_price,
        asset_config.min_collateral_ratio,
        collateral_multiplier,
    )
    &&& nano_units(d) <= 1_000_000_000
    &&& division_fits(
        cpa,
        Decimal { atomics: ((1_000_000_000int - nano_units(d)) * 1_000_000_000int) as u128 },
    )
    &&& uint_mul_fits(amount as int, dp)
    &&& value > position.collateral.amount ==> nano_units(dp) > 0 && uint_mul_fits(
        value - position.collateral.amount,
        spec_reverse(dp),
    )
    &&& refund <= amount
    &&& uint_mul_fits((amount - refund) as int, cpa)
    &&& uint_mul_fits(spec_uint_mul((amount - refund) as int, cpa), fee_rate)
    &&& spec_protocol_fee((amount - refund) as u128, cpa, fee_rate) <= ret
}

/// The checks of an auction that come before its arithmetic: the
/// position's (non-zero) asset, not migrated, and no more than the
/// position's asset.
pub open spec fn auction_checks_pass(p: Position, asset: Asset, asset_config: AssetConfig) -> bool {
    &&& same_asset(p.asset.info, asset.info) && asset.amount != 0
    &&& asset_config.end_price is None
    &&& asset.amount <= p.asset.amount
}

/// The refusals of an auction that come before any price is needed, in the
/// order `auction` makes them.
pub fn check_auction(position: &Position, asset: &Asset, asset_config: &AssetConfig) -> (r: Result<
    (),
    MintError,
>)
    ensures
        r is Ok <==> auction_checks_pass(*position, *asset, *asset_config),
        !same_asset(position.asset.info, asset.info) || asset.amount == 0 ==> r == Err::<
            (),
            MintError,
        >(MintError::WrongAsset),
        same_asset(position.asset.info, asset.info) && asset.amount != 0
            && asset_config.end_price is Some ==> r == Err::<(), MintError>(
            MintError::DeprecatedAsset,
        ),
        same_asset(position.asset.info, asset.info) && asset.amount != 0
            && asset_config.end_price is None && asset.amount > position.asset.amount ==> r
            == Err::<(), MintError>(MintError::CannotLiquidateMoreThanPosition),
{
    match assert_asset(position, asset) {
        Ok(()) => {},
        Err(e) => {
            return Err(e);
        },
    }
    match assert_migrated_asset(asset_config) {
        Ok(()) => {},
        Err(e) => {
            return Err(e);
        },
    }
    if asset.amount > position.asset.amount {
        return Err(MintError::CannotLiquidateMoreThanPosition);
    }
    Ok(())
}

/// Liquidates an undercollateralized position: anyone may pay back up to
/// the position's asset, while the asset is not migrated and the position's
/// collateral is below what its minimum ratio requires. The payer receives
/// collateral at the discounted price (at most all of it, refunding the
/// asset that buys more), less the protocol fee. A position left without
/// collateral or without debt is closed; in the second case its remaining
/// collateral goes back to the owner.
pub fn auction(
    position: &mut Position,
    asset: &Asset,
    asset_config: &AssetConfig,
    asset_price: Decimal,
    collateral_price: Decimal,
    collateral_multiplier: Decimal,
    protocol_fee_rate: Decimal,
) -> (r: Result<AuctionOutcome, MintError>)
    requires
        auction_checks_pass(*old(position), *asset, *asset_config) ==> required_collateral_fits(
            old(position).asset.amount as int,
            asset_price,
            collateral_price,
            asset_config.min_collateral_ratio,
            collateral_multiplier,
        ),
        auction_checks_pass(*old(position), *asset, *asset_config) && spec_required_collateral(
            old(position).asset.amount as int,
            asset_price,
            collateral_price,
            asset_config.min_collateral_ratio,
            collateral_multiplier,
        ) >= old(position).collateral.amount ==> auction_fits(
            *old(position),
            asset.amount,
            asset_price,
            collateral_price,
            collateral_multiplier,
            *asset_config,
            protocol_fee_rate,
        ),
    ensures
        ({
            let p = *old(position);
            let a = asset.amount;
            let d = asset_config.auction_discount;
            let cpa = spec_division(asset_price, collateral_price);
            let required = spec_required_collateral(
                p.asset.amount as int,
                asset_price,
                collateral_price,
                asset_config.min_collateral_ratio,
                collateral_multiplier,
            );
            let value = auction_value(a, asset_price, collateral_price, d);
            let refund = auction_refund(value, p.collateral.amount, asset_price, collateral_price, d);
            let ret = if value > p.collateral.amount {
                p.collateral.amount as int
            } else {
                value
            };
            let liquidated = a - refund;
            let left_asset = p.asset.amount - liquidated;
            let left_collateral = p.collateral.amount - ret;
            let fee = spec_protocol_fee(liquidated as u128, cpa, protocol_fee_rate);
            if !same_asset(p.asset.info, asset.info) || a == 0 {
                r == Err::<AuctionOutcome, MintError>(MintError::WrongAsset) && *final(position)
                    == p
            } else if asset_config.end_price is Some {
                r == Err::<AuctionOutcome, MintError>(MintError::DeprecatedAsset)
                    && *final(position) == p
            } else if a > p.asset.amount {
                r == Err::<AuctionOutcome, MintError>(MintError::CannotLiquidateMoreThanPosition)
                    && *final(position) == p
            } else if required < p.collateral.amount {
                r == Err::<AuctionOutcome, MintError>(MintError::SafelyCollateralized)
                    && *final(position) == p
            } else {
                &&& r == Ok::<AuctionOutcome, MintError>(
                    AuctionOutcome {
                        return_collateral_amount: (ret - fee) as u128,
                        refund_asset_amount: refund as u128,
                        liquidated_asset_amount: liquidated as u128,
                        protocol_fee: fee as u128,
                        owner_refund: if left_collateral != 0 && left_asset == 0 {
                            left_collateral as u128
                        } else {
                            0
                        },
                        closed: left_collateral == 0 || left_asset == 0,
                    },
                )
                &&& final(position).collateral.amount == left_collateral
                &&& final(position).asset.amount == left_asset
            }
        }),
        r is Ok ==> r->Ok_0.return_collateral_amount + r->Ok_0.protocol_fee
            + final(position).collateral.amount == old(position).collateral.amount,
        r is Ok ==> r->Ok_0.liquidated_asset_amount + final(position).asset.amount
            == old(position).asset.amount,
        r is Ok ==> r->Ok_0.liquidated_asset_amount + r->Ok_0.refund_asset_amount == asset.amount,
        r is Ok ==> r->Ok_0.owner_refund == 0 || final(position).asset.amount == 0,
        final(position).idx == old(position).idx,
        final(position).owner == old(position).owner,
        final(position).asset.info == old(position).asset.info,
        final(position).collateral.info == old(position).collateral.info,
{
    match assert_asset(position, asset) {
        Ok(()) => {},
        Err(e) => {
            return Err(e);
        },
    }
    match assert_migrated_asset(asset_config) {
        Ok(()) => {},
        Err(e) => {
            return Err(e);
        },
    }
    if asset.amount > position.asset.amount {
        return Err(MintError::CannotLiquidateMoreThanPosition);
    }
    let collateral_price_in_asset = decimal_division(asset_price, collateral_price);
    let required = required_collateral(
        position.asset.amount,
        asset_price,
        collateral_price,
        asset_config.min_collateral_ratio,
        collateral_multiplier,
    );
    if required < position.collateral.amount {
        return Err(MintError::SafelyCollateralized);
    }
    proof {
        lemma_nano_units_bound(Decimal { atomics: frac() as u128 });
    }
    let discount_complement = decimal_subtraction(Decimal::one(), asset_config.auction_discount);
    let discounted = decimal_division(collateral_price_in_asset, discount_complement);
    let value = uint_mul(asset.amount, discounted);
    let (return_collateral_amount, refund_asset_amount) = if value > position.collateral.amount {
        let refund = uint_mul(value - position.collateral.amount, reverse_decimal(discounted));
        (position.collateral.amount, refund)
    } else {
        (value, 0u128)
    };
    let liquidated = asset.amount - refund_asset_amount;
    let left_asset = position.asset.amount - liquidated;
    let left_collateral = position.collateral.amount - return_collateral_amount;
    position.collateral.amount = left_collateral;
    position.asset.amount = left_asset;
    let owner_refund = if left_collateral != 0 && left_asset == 0 {
        left_collateral
    } else {
        0
    };
    let closed = left_collateral == 0 || left_asset == 0;
    let protocol_fee = uint_mul(
        uint_mul(liquidated, collateral_price_in_asset),
        protocol_fee_rate,
    );
    Ok(
        AuctionOutcome {
            return_collateral_amount: return_collateral_amount - protocol_fee,
            refund_asset_amount,
            liquidated_asset_amount: liquidated,
            protocol_fee,
            owner_refund,
            closed,
        },
    )
}


/// Settings of a new mint contract; the protocol fee rate must be below 100%.
pub fn instantiate(
    owner: String,
    oracle: String,
    collector: String,
    collateral_oracle: String,
    staking: String,
    terraswap_factory: String,
    lock: String,
    base_denom: String,
    token_code_id: u64,
    protocol_fee_rate: Decimal,
) -> (r: Result<Config, MintError>)
    ensures
        protocol_fee_rate.atomics >= frac() ==> r == Err::<Config, MintError>(
            MintError::ProtocolFeeTooLarge,
        ),
        protocol_fee_rate.atomics < frac() ==> r == Ok::<Config, MintError>(
            Config {
                owner,
                oracle,
                collector,
                collateral_oracle,
                staking,
                terraswap_factory,
                lock,
                base_denom,
                token_code_id,
                protocol_fee_rate,
            },
        ),
{
    let protocol_fee_rate = match assert_protocol_fee(protocol_fee_rate) {
        Ok(f) => f,
        Err(e) => {
            return Err(e);
        },
    };
    Ok(
        Config {
            owner,
            oracle,
            collector,
            collateral_oracle,
            staking,
            terraswap_factory,
            lock,
            base_denom,
            token_code_id,
            protocol_fee_rate,
        },
    )
}

/// The value of an optional setting: the new one when given.
pub open spec fn or_keep<T>(new: Option<T>, current: T) -> T {
    match new {
        Some(v) => v,
        None => current,
    }
}

/// Changes the given settings; only the owner may, and a new protocol fee
/// rate must be below 100%. On an error nothing changes.
pub fn update_config(
    config: &mut Config,
    sender: &String,
    owner: Option<String>,
    oracle: Option<String>,
    collector: Option<String>,
    collateral_oracle: Option<String>,
    terraswap_factory: Option<String>,
    lock: Option<String>,
    token_code_id: Option<u64>,
    protocol_fee_rate: Option<Decimal>,
    staking: Option<String>,
) -> (r: Result<(), MintError>)
    ensures
        sender@ != old(config).owner@ ==> r == Err::<(), MintError>(MintError::Unauthorized)
            && *final(config) == *old(config),
        sender@ == old(config).owner@ && protocol_fee_rate is Some
            && protocol_fee_rate->Some_0.atomics >= frac() ==> r == Err::<(), MintError>(
            MintError::ProtocolFeeTooLarge,
        ) && *final(config) == *old(config),
        sender@ == old(config).owner@ && (protocol_fee_rate is None
            || protocol_fee_rate->Some_0.atomics < frac()) ==> r is Ok && *final(config) == (Config {
            owner: or_keep(owner, old(config).owner),
            oracle: or_keep(oracle, old(config).oracle),
            collector: or_keep(collector, old(config).collector),
            collateral_oracle: or_keep(collateral_oracle, old(config).collateral_oracle),
            staking: or_keep(staking, old(config).staking),
            terraswap_factory: or_keep(terraswap_factory, old(config).terraswap_factory),
            lock: or_keep(lock, old(config).lock),
            base_denom: old(config).base_denom,
            token_code_id: or_keep(token_code_id, old(config).token_code_id),
            protocol_fee_rate: or_keep(protocol_fee_rate, old(config).protocol_fee_rate),
        }),
{
    if !sender.eq(&config.owner) {
        return Err(MintError::Unauthorized);
    }
    if let Some(f) = protocol_fee_rate {
        match assert_protocol_fee(f) {
            Ok(_) => {},
            Err(e) => {
                return Err(e);
            },
        }
    }
    if let Some(v) = owner {
        config.owner = v;
    }
    if let Some(v) = oracle {
        config.oracle = v;
    }
    if let Some(v) = collector {
        config.collector = v;
    }
    if let Some(v) = collateral_oracle {
        config.collateral_oracle = v;
    }
    if let Some(v) = terraswap_factory {
        config.terraswap_factory = v;
    }
    if let Some(v) = lock {
        config.lock = v;
    }
    if let Some(v) = token_code_id {
        config.token_code_id = v;
    }
    if let Some(v) = protocol_fee_rate {
        config.protocol_fee_rate = v;
    }
    if let Some(v) = staking {
        config.staking = v;
    }
    Ok(())
}

/// Registers an asset: the discount at most 100%, the minimum ratio (and a
/// pre-IPO asset's ratio after IPO) at least 100%, only by the owner, once.
/// Returns the asset's settings and whether it is to be registered as a
/// collateral (only assets without IPO terms are).
pub fn register_asset(
    config: &Config,
    sender: &String,
    already_registered: bool,
    asset_token: String,
    auction_discount: Decimal,
    min_collateral_ratio: Decimal,
    ipo_params: Option<IPOParams>,
) -> (r: Result<(AssetConfig, bool), MintError>)
    ensures
        ({
            if auction_discount.atomics > frac() {
                r == Err::<(AssetConfig, bool), MintError>(MintError::AuctionDiscountTooLarge)
            } else if min_collateral_ratio.atomics < frac() {
                r == Err::<(AssetConfig, bool), MintError>(MintError::MinCollateralRatioTooSmall)
            } else if sender@ != config.owner@ {
                r == Err::<(AssetConfig, bool), MintError>(MintError::Unauthorized)
            } else if already_registered {
                r == Err::<(AssetConfig, bool), MintError>(MintError::AssetAlreadyRegistered)
            } else if ipo_params is Some
                && ipo_params->Some_0.min_collateral_ratio_after_ipo.atomics < frac() {
                r == Err::<(AssetConfig, bool), MintError>(MintError::MinCollateralRatioTooSmall)
            } else {
                r == Ok::<(AssetConfig, bool), MintError>(
                    (
                        AssetConfig {
                            token: asset_token,
                            auction_discount,
                            min_collateral_ratio,
                            end_price: None,
                            ipo_params,
                        },
                        ipo_params is None,
                    ),
                )
            }
        }),
{
    match assert_auction_discount(auction_discount) {
        Ok(()) => {},
        Err(e) => {
            return Err(e);
        },
    }
    match assert_min_collateral_ratio(min_collateral_ratio) {
        Ok(()) => {},
        Err(e) => {
            return Err(e);
        },
    }
    if !sender.eq(&config.owner) {
        return Err(MintError::Unauthorized);
    }
    if already_registered {
        return Err(MintError::AssetAlreadyRegistered);
    }
    let register_collateral = match &ipo_params {
        Some(p) => {
            match assert_min_collateral_ratio(p.min_collateral_ratio_after_ipo) {
                Ok(()) => {},
                Err(e) => {
                    return Err(e);
                },
            }
            false
        },
        None => true,
    };
    Ok(
        (
            AssetConfig {
                token: asset_token,
                auction_discount,
                min_collateral_ratio,
                end_price: None,
                ipo_params,
            },
            register_collateral,
        ),
    )
}

/// Changes an asset's discount, minimum ratio or IPO terms; only the owner
/// may, under the same bounds as at registration. On an error nothing
/// changes.
pub fn update_asset(
    asset: &mut AssetConfig,
    config: &Config,
    sender: &String,
    auction_discount: Option<Decimal>,
    min_collateral_ratio: Option<Decimal>,
    ipo_params: Option<IPOParams>,
) -> (r: Result<(), MintError>)
    ensures
        ({
            if sender@ != config.owner@ {
                r == Err::<(), MintError>(MintError::Unauthorized) && *final(asset) == *old(asset)
            } else if auction_discount is Some && auction_discount->Some_0.atomics > frac() {
                r == Err::<(), MintError>(MintError::AuctionDiscountTooLarge) && *final(asset)
                    == *old(asset)
            } else if min_collateral_ratio is Some && min_collateral_ratio->Some_0.atomics
                < frac() {
                r == Err::<(), MintError>(MintError::MinCollateralRatioTooSmall) && *final(asset)
                    == *old(asset)
            } else if ipo_params is Some
                && ipo_params->Some_0.min_collateral_ratio_after_ipo.atomics < frac() {
                r == Err::<(), MintError>(MintError::MinCollateralRatioTooSmall) && *final(asset)
                    == *old(asset)
            } else {
                r is Ok && *final(asset) == (AssetConfig {
                    auction_discount: or_keep(auction_discount, old(asset).auction_discount),
                    min_collateral_ratio: or_keep(
                        min_collateral_ratio,
                        old(asset).min_collateral_ratio,
                    ),
                    ipo_params: match ipo_params {
                        Some(p) => Some(p),
                        None => old(asset).ipo_params,
                    },
                    ..*old(asset)
                })
            }
        }),
{
    if !sender.eq(&config.owner) {
        return Err(MintError::Unauthorized);
    }
    if let Some(d) = auction_discount {
        match assert_auction_discount(d) {
            Ok(()) => {},
            Err(e) => {
                return Err(e);
            },
        }
    }
    if let Some(m) = min_collateral_ratio {
        match assert_min_collateral_ratio(m) {
            Ok(()) => {},
            Err(e) => {
                return Err(e);
            },
        }
    }
    if let Some(p) = &ipo_params {
        match assert_min_collateral_ratio(p.min_collateral_ratio_after_ipo) {
            Ok(()) => {},
            Err(e) => {
                return Err(e);
            },
        }
    }
    if let Some(d) = auction_discount {
        asset.auction_discount = d;
    }
    if let Some(m) = min_collateral_ratio {
        asset.min_collateral_ratio = m;
    }
    if let Some(p) = ipo_params {
        asset.ipo_params = Some(p);
    }
    Ok(())
}

/// Marks an asset as migrated at `end_price`: its minimum ratio becomes 100%
/// and its IPO terms are dropped. Only the owner may.
pub fn register_migration(
    asset: &mut AssetConfig,
    config: &Config,
    sender: &String,
    end_price: Decimal,
) -> (r: Result<(), MintError>)
    ensures
        sender@ != config.owner@ ==> r == Err::<(), MintError>(MintError::Unauthorized)
            && *final(asset) == *old(asset),
        sender@ == config.owner@ ==> r is Ok && *final(asset) == (AssetConfig {
            end_price: Some(end_price),
            min_collateral_ratio: Decimal { atomics: frac() as u128 },
            ipo_params: None,
            ..*old(asset)
        }),
{
    if !config.owner.eq(sender) {
        return Err(MintError::Unauthorized);
    }
    asset.end_price = Some(end_price);
    asset.min_collateral_ratio = Decimal::percent(100);
    asset.ipo_params = None;
    Ok(())
}

/// Ends the pre-IPO phase of an asset: only its trigger address may; the
/// minimum ratio becomes the one after IPO and the IPO terms are dropped.
pub fn trigger_ipo(asset: &mut AssetConfig, sender: &String) -> (r: Result<(), MintError>)
    ensures
        match old(asset).ipo_params {
            None => r == Err::<(), MintError>(MintError::NoIpoParams) && *final(asset) == *old(
                asset,
            ),
            Some(p) => if p.trigger_addr@ != sender@ {
                r == Err::<(), MintError>(MintError::Unauthorized) && *final(asset) == *old(asset)
            } else {
                r is Ok && *final(asset) == (AssetConfig {
                    min_collateral_ratio: p.min_collateral_ratio_after_ipo,
                    ipo_params: None,
                    ..*old(asset)
                })
            },
        },
{
    let ratio_after = match &asset.ipo_params {
        None => {
            return Err(MintError::NoIpoParams);
        },
        Some(p) => {
            if !p.trigger_addr.eq(sender) {
                return Err(MintError::Unauthorized);
            }
            p.min_collateral_ratio_after_ipo
        },
    };
    asset.min_collateral_ratio = ratio_after;
    asset.ipo_params = None;
    Ok(())
}

/// A mint configuration as stored before the staking, pair factory,
/// collateral oracle and lock contracts were part of it.
pub struct LegacyConfig {
    pub owner: String,
    pub oracle: String,
    pub collector: String,
    pub base_denom: String,
    pub token_code_id: u64,
    pub protocol_fee_rate: Decimal,
}

/// The current configuration for a legacy one and the new addresses.
pub fn migrate_config(
    legacy: LegacyConfig,
    staking: String,
    terraswap_factory: String,
    collateral_oracle: String,
    lock: String,
) -> (c: Config)
    ensures
        c == (Config {
            owner: legacy.owner,
            oracle: legacy.oracle,
            collector: legacy.collector,
            collateral_oracle,
            staking,
            terraswap_factory,
            lock,
            base_denom: legacy.base_denom,
            token_code_id: legacy.token_code_id,
            protocol_fee_rate: legacy.protocol_fee_rate,
        }),
{
    Config {
        owner: legacy.owner,
        oracle: legacy.oracle,
        collector: legacy.collector,
        collateral_oracle,
        staking,
        terraswap_factory,
        lock,
        base_denom: legacy.base_denom,
        token_code_id: legacy.token_code_id,
        protocol_fee_rate: legacy.protocol_fee_rate,
    }
}

/// An asset configuration as stored before IPO terms existed.
pub struct LegacyAssetConfig {
    pub token: String,
    pub auction_discount: Decimal,
    pub min_collateral_ratio: Decimal,
    pub end_price: Option<Decimal>,
}

/// The current asset configuration for a legacy one: no IPO terms.
pub fn migrate_asset_config(legacy: LegacyAssetConfig) -> (c: AssetConfig)
    ensures
        c == (AssetConfig {
            token: legacy.token,
            auction_discount: legacy.auction_discount,
            min_collateral_ratio: legacy.min_collateral_ratio,
            end_price: legacy.end_price,
            ipo_params: None,
        }),
{
    AssetConfig {
        token: legacy.token,
        auction_discount: legacy.auction_discount,
        min_collateral_ratio: legacy.min_collateral_ratio,
        end_price: legacy.end_price,
        ipo_params: None,
    }
}


/// Collateral just deposited into a position that met its minimum ratio can
/// be withdrawn again: the position is then back to what it held, which
/// still covers what its minted amount requires.
pub proof fn lemma_deposit_then_withdraw(
    position: Position,
    amount: u128,
    asset_price: Decimal,
    collateral_price: Decimal,
    min_collateral_ratio: Decimal,
    multiplier: Decimal,
)
    requires
        position.collateral.amount + amount <= u128::MAX,
        spec_required_collateral(
            position.asset.amount as int,
            asset_price,
            collateral_price,
            min_collateral_ratio,
            multiplier,
        ) <= position.collateral.amount,
    ensures
        ({
            let after_deposit = (position.collateral.amount + amount) as u128;
            &&& amount <= after_deposit
            &&& !(spec_required_collateral(
                position.asset.amount as int,
                asset_price,
                collateral_price,
                min_collateral_ratio,
                multiplier,
            ) > after_deposit - amount)
            &&& after_deposit - amount == position.collateral.amount
        }),
{
}


/// Scaling by one leaves an amount as it is.
proof fn lemma_uint_mul_by_one(x: int)
    requires
        0 <= x,
    ensures
        spec_uint_mul(x, Decimal { atomics: 1_000_000_000_000_000_000 }) == x,
{
    if x != 0 {
        assert(x * 1_000_000_000_000_000_000int / 1_000_000_000_000_000_000int == x)
            by (nonlinear_arith);
    }
}

/// Opening a position asks for a collateral ratio of at least the asset's
/// minimum ratio times the collateral's multiplier (at nine digits): an
/// accepted open always has that ratio; once the checks before it pass,
/// every lower ratio is refused as too low and every ratio at or above it
/// is accepted at the collateral's price. The bar rises with the
/// multiplier: what is accepted with a multiplier is accepted with any
/// smaller one.
pub proof fn lemma_open_ratio_threshold(
    config: Config,
    asset_config: AssetConfig,
    now_seconds: u64,
    collateral: Asset,
    collateral_info: (Decimal, Decimal, bool),
    collateral_ratio: Decimal,
    smaller_multiplier: Decimal,
)
    ensures
        ({
            let bar = spec_decimal_multiplication(
                asset_config.min_collateral_ratio,
                collateral_info.1,
            );
            let v = spec_validate_open(
                config,
                asset_config,
                now_seconds,
                collateral,
                collateral_info,
                collateral_ratio,
            );
            &&& bar <= u128::MAX && v is Ok ==> collateral_ratio.atomics >= bar
            &&& open_prechecks_pass(config, asset_config, now_seconds, collateral, collateral_info)
                && bar <= u128::MAX && collateral_ratio.atomics < bar ==> v == Err::<
                Decimal,
                MintError,
            >(MintError::LowCollateralRatio)
            &&& open_prechecks_pass(config, asset_config, now_seconds, collateral, collateral_info)
                && bar <= u128::MAX && collateral_ratio.atomics >= bar ==> v == Ok::<
                Decimal,
                MintError,
            >(collateral_info.0)
            &&& smaller_multiplier.atomics <= collateral_info.1.atomics && bar <= u128::MAX && v
                is Ok ==> spec_validate_open(
                config,
                asset_config,
                now_seconds,
                collateral,
                (collateral_info.0, smaller_multiplier, collateral_info.2),
                collateral_ratio,
            ) is Ok
        }),
{
    let min = asset_config.min_collateral_ratio;
    lemma_nano_units_bound(min);
    if smaller_multiplier.atomics <= collateral_info.1.atomics {
        crate::staking::lemma_uint_mul_monotone(
            nano_units(min),
            smaller_multiplier,
            collateral_info.1,
        );
    }
}

/// A pre-IPO asset is opened only against the base denomination: when the
/// asset has IPO terms, neither the checks before the ratio nor the whole
/// validation pass unless the collateral is the native coin named by the
/// configuration's base denomination; and when the earlier checks (not
/// revoked, not migrated, within the minting period) pass, any other
/// collateral is refused as pre-IPO collateral.
pub proof fn lemma_pre_ipo_needs_base_denom(
    config: Config,
    asset_config: AssetConfig,
    now_seconds: u64,
    collateral: Asset,
    collateral_info: (Decimal, Decimal, bool),
    collateral_ratio: Decimal,
)
    ensures
        ({
            let is_base = match collateral.info {
                AssetInfo::NativeToken { denom } => denom@ == config.base_denom@,
                AssetInfo::Token { .. } => false,
            };
            let v = spec_validate_open(
                config,
                asset_config,
                now_seconds,
                collateral,
                collateral_info,
                collateral_ratio,
            );
            &&& asset_config.ipo_params is Some && open_prechecks_pass(
                config,
                asset_config,
                now_seconds,
                collateral,
                collateral_info,
            ) ==> is_base
            &&& asset_config.ipo_params is Some && v is Ok ==> is_base
            &&& asset_config.ipo_params is Some && !is_base && !collateral_info.2
                && asset_config.end_price is None && asset_config.ipo_params->Some_0.mint_end
                >= now_seconds ==> v == Err::<Decimal, MintError>(MintError::PreIpoCollateral)
        }),
{
}

/// The collateral a position needs is its asset's value in the collateral
/// times the minimum ratio times the collateral's multiplier, each step
/// rounded down: with ratio and multiplier one it is the value itself, with
/// multiplier one it is the value scaled by the ratio, and any multiplier
/// scales the multiplier-one requirement. A larger multiplier never asks
/// for less.
pub proof fn lemma_required_collateral_scaling(
    asset_amount: int,
    asset_price: Decimal,
    collateral_price: Decimal,
    min_collateral_ratio: Decimal,
    multiplier: Decimal,
    smaller_multiplier: Decimal,
)
    requires
        0 <= asset_amount,
    ensures
        ({
            let one = Decimal { atomics: 1_000_000_000_000_000_000 };
            let base = spec_required_collateral(
                asset_amount,
                asset_price,
                collateral_price,
                one,
                one,
            );
            let with_ratio = spec_required_collateral(
                asset_amount,
                asset_price,
                collateral_price,
                min_collateral_ratio,
                one,
            );
            &&& base == spec_uint_mul(asset_amount, spec_division(asset_price, collateral_price))
            &&& with_ratio == spec_uint_mul(base, min_collateral_ratio)
            &&& spec_required_collateral(
                asset_amount,
                asset_price,
                collateral_price,
                min_collateral_ratio,
                multiplier,
            ) == spec_uint_mul(with_ratio, multiplier)
            &&& smaller_multiplier.atomics <= multiplier.atomics ==> spec_required_collateral(
                asset_amount,
                asset_price,
                collateral_price,
                min_collateral_ratio,
                smaller_multiplier,
            ) <= spec_required_collateral(
                asset_amount,
                asset_price,
                collateral_price,
                min_collateral_ratio,
                multiplier,
            )
        }),
{
    let one = Decimal { atomics: 1_000_000_000_000_000_000 };
    let v = spec_uint_mul(asset_amount, spec_division(asset_price, collateral_price));
    crate::staking::lemma_uint_mul_formula(asset_amount, spec_division(asset_price, collateral_price));
    assert(v >= 0) by (nonlinear_arith)
        requires
            v == asset_amount * (spec_division(asset_price, collateral_price).atomics as int)
                / 1_000_000_000_000_000_000int,
            asset_amount >= 0,
    ;
    lemma_uint_mul_by_one(v);
    let w = spec_uint_mul(v, min_collateral_ratio);
    crate::staking::lemma_uint_mul_formula(v, min_collateral_ratio);
    assert(w >= 0) by (nonlinear_arith)
        requires
            w == v * (min_collateral_ratio.atomics as int) / 1_000_000_000_000_000_000int,
            v >= 0,
    ;
    lemma_uint_mul_by_one(w);
    lemma_uint_mul_by_one(spec_uint_mul(v, one));
    if smaller_multiplier.atomics <= multiplier.atomics {
        crate::staking::lemma_uint_mul_monotone(w, smaller_multiplier, multiplier);
    }
}

/// Burning a migrated asset pays for the burnt amount the smaller of its
/// value at the end price and its share of the position's collateral at
/// the position's own collateral-per-asset rate: never more than either.
pub proof fn lemma_deprecated_refund_capped(
    position: Position,
    burn: u128,
    end_price: Decimal,
    collateral_price: Decimal,
)
    ensures
        ({
            let by_price = spec_uint_mul(burn as int, spec_division(end_price, collateral_price));
            let by_rate = spec_uint_mul(
                burn as int,
                Decimal {
                    atomics: ratio_atomics(
                        position.collateral.amount as int,
                        position.asset.amount as int,
                    ) as u128,
                },
            );
            let refund = deprecated_refund(position, burn, end_price, collateral_price);
            &&& refund <= by_price
            &&& refund <= by_rate
            &&& refund == by_price || refund == by_rate
        }),
{
}

} // verus!
