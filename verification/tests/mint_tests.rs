use mirror_contracts::asset::{Asset, AssetInfo};
use mirror_contracts::decimal::Decimal;
use mirror_contracts::mint as m;
use m::{
    compute_mint_amount, instantiate, load_asset_price, load_collateral_info,
    migrate_asset_config, migrate_config, read_fixed_price, register_asset, trigger_ipo,
    update_asset, update_config, validate_open_position, AssetConfig, AuctionOutcome,
    BurnOutcome, CollateralSource, Config, IPOParams, LegacyAssetConfig, LegacyConfig, MintError,
    Position,
};

const T0: u64 = 1_571_797_419;

fn uusd(amount: u128) -> Asset {
    Asset { info: AssetInfo::NativeToken { denom: "uusd".to_string() }, amount }
}

fn token(addr: &str, amount: u128) -> Asset {
    Asset { info: AssetInfo::Token { contract_addr: addr.to_string() }, amount }
}

fn token_info(addr: &str) -> AssetInfo {
    AssetInfo::Token { contract_addr: addr.to_string() }
}

fn config(fee_percent: u64) -> Config {
    instantiate(
        "owner0000".to_string(),
        "oracle0000".to_string(),
        "collector0000".to_string(),
        "collateraloracle0000".to_string(),
        "staking0000".to_string(),
        "terraswap_factory".to_string(),
        "lock0000".to_string(),
        "uusd".to_string(),
        10,
        Decimal::percent(fee_percent),
    )
    .unwrap()
}

fn asset_config(token: &str, discount: u64, min_ratio: u64) -> AssetConfig {
    let (c, register_collateral) = register_asset(
        &config(1),
        &"owner0000".to_string(),
        false,
        token.to_string(),
        Decimal::percent(discount),
        Decimal::percent(min_ratio),
        None,
    )
    .unwrap();
    assert!(register_collateral);
    c
}

fn price(n: u128) -> Decimal {
    Decimal::from_ratio(n, 1)
}

/// Opens a position for `addr0000` at index `idx`.
fn open(
    idx: u128,
    collateral: Asset,
    cfg: &AssetConfig,
    collateral_price: Decimal,
    asset_price: Decimal,
    ratio: u64,
    now: u64,
) -> Result<Position, MintError> {
    let (position, next) = m::open_position(
        idx,
        "addr0000".to_string(),
        collateral,
        token_info(&cfg.token),
        &config(1),
        cfg,
        now,
        (collateral_price, Decimal::one(), false),
        Decimal::percent(ratio),
        asset_price,
    )?;
    assert_eq!(next, idx + 1);
    Ok(position)
}

#[test]
fn contract_test_proper_initialization() {
    let cfg = config(1);
    assert_eq!(cfg.owner, "owner0000");
    assert_eq!(cfg.oracle, "oracle0000");
    assert_eq!(cfg.base_denom, "uusd");
    assert_eq!(cfg.token_code_id, 10);
    assert_eq!(cfg.protocol_fee_rate, Decimal::percent(1));
    let res = instantiate(
        "owner0000".to_string(),
        "oracle0000".to_string(),
        "collector0000".to_string(),
        "collateraloracle0000".to_string(),
        "staking0000".to_string(),
        "terraswap_factory".to_string(),
        "lock0000".to_string(),
        "uusd".to_string(),
        10,
        Decimal::percent(100),
    );
    assert!(matches!(res, Err(MintError::ProtocolFeeTooLarge)));
}

#[test]
fn contract_test_update_config() {
    let mut cfg = config(1);
    let res = update_config(
        &mut cfg,
        &"owner0000".to_string(),
        Some("owner0001".to_string()),
        None,
        None,
        None,
        None,
        None,
        Some(100),
        None,
        None,
    );
    assert_eq!(res, Ok(()));
    assert_eq!(cfg.owner, "owner0001");
    assert_eq!(cfg.oracle, "oracle0000");
    assert_eq!(cfg.token_code_id, 100);

    let res = update_config(
        &mut cfg,
        &"owner0000".to_string(),
        None,
        Some("oracle0001".to_string()),
        None,
        None,
        None,
        None,
        None,
        None,
        None,
    );
    assert_eq!(res, Err(MintError::Unauthorized));
    assert_eq!(cfg.oracle, "oracle0000");

    let res = update_config(
        &mut cfg,
        &"owner0001".to_string(),
        None,
        None,
        None,
        None,
        None,
        None,
        None,
        Some(Decimal::percent(100)),
        None,
    );
    assert_eq!(res, Err(MintError::ProtocolFeeTooLarge));
}

#[test]
fn contract_test_register_asset() {
    let cfg = config(1);
    let owner = "owner0000".to_string();
    let c = asset_config("asset0000", 20, 150);
    assert_eq!(c.token, "asset0000");
    assert_eq!(c.auction_discount, Decimal::percent(20));
    assert_eq!(c.min_collateral_ratio, Decimal::percent(150));
    assert!(c.end_price.is_none());

    let res = register_asset(
        &cfg, &owner, true, "asset0000".to_string(), Decimal::percent(20), Decimal::percent(150), None,
    );
    assert!(matches!(res, Err(MintError::AssetAlreadyRegistered)));
    let res = register_asset(
        &cfg,
        &"owner0001".to_string(),
        false,
        "asset0001".to_string(),
        Decimal::percent(20),
        Decimal::percent(150),
        None,
    );
    assert!(matches!(res, Err(MintError::Unauthorized)));
    let res = register_asset(
        &cfg, &owner, false, "asset0001".to_string(), Decimal::percent(101), Decimal::percent(150), None,
    );
    assert!(matches!(res, Err(MintError::AuctionDiscountTooLarge)));
    let res = register_asset(
        &cfg, &owner, false, "asset0001".to_string(), Decimal::percent(20), Decimal::percent(99), None,
    );
    assert!(matches!(res, Err(MintError::MinCollateralRatioTooSmall)));
}

#[test]
fn contract_test_update_asset() {
    let cfg = config(1);
    let mut c = asset_config("asset0000", 20, 150);
    let res = update_asset(
        &mut c,
        &cfg,
        &"owner0000".to_string(),
        Some(Decimal::percent(30)),
        Some(Decimal::percent(200)),
        None,
    );
    assert_eq!(res, Ok(()));
    assert_eq!(c.auction_discount, Decimal::percent(30));
    assert_eq!(c.min_collateral_ratio, Decimal::percent(200));

    let res = update_asset(&mut c, &cfg, &"owner0000".to_string(), Some(Decimal::percent(101)), None, None);
    assert_eq!(res, Err(MintError::AuctionDiscountTooLarge));
    let res = update_asset(&mut c, &cfg, &"owner0000".to_string(), None, Some(Decimal::percent(99)), None);
    assert_eq!(res, Err(MintError::MinCollateralRatioTooSmall));
    let res = update_asset(&mut c, &cfg, &"owner0001".to_string(), Some(Decimal::percent(30)), None, None);
    assert_eq!(res, Err(MintError::Unauthorized));
    assert_eq!(c.auction_discount, Decimal::percent(30));
}

#[test]
fn register_migration() {
    let cfg = config(1);
    let mut c = asset_config("asset0000", 20, 150);
    let res = m::register_migration(
        &mut c,
        &cfg,
        &"owner0001".to_string(),
        Decimal::from_ratio(2, 1),
    );
    assert_eq!(res, Err(MintError::Unauthorized));
    let res = m::register_migration(
        &mut c,
        &cfg,
        &"owner0000".to_string(),
        Decimal::percent(50),
    );
    assert_eq!(res, Ok(()));
    assert_eq!(c.token, "asset0000");
    assert_eq!(c.auction_discount, Decimal::percent(20));
    assert_eq!(c.min_collateral_ratio, Decimal::percent(100));
    assert_eq!(c.end_price, Some(Decimal::percent(50)));
}

#[test]
fn migrated_asset() {
    let cfg = config(1);
    let mut c = asset_config("asset0000", 20, 150);
    let mut pos1 = open(1, uusd(1000000), &c, Decimal::one(), Decimal::one(), 150, 1000).unwrap();
    assert_eq!(pos1.asset.amount, 666666);

    m::register_migration(&mut c, &cfg, &"owner0000".to_string(), Decimal::percent(100)).unwrap();

    // no new position on a deprecated asset
    let res = validate_open_position(
        &cfg,
        &c,
        1000,
        &uusd(100),
        (Decimal::one(), Decimal::one(), false),
        Decimal::percent(150),
    );
    assert_eq!(res, Err(MintError::DeprecatedAsset));
    // nor with a revoked collateral
    let res = validate_open_position(
        &cfg,
        &asset_config("asset0001", 20, 150),
        1000,
        &token("asset0000", 1000000),
        (Decimal::one(), Decimal::one(), true),
        Decimal::percent(150),
    );
    assert_eq!(res, Err(MintError::RevokedCollateral));

    // no deposit, no mint
    let res = m::deposit(&mut pos1, &"addr0000".to_string(), &uusd(1), false, &c);
    assert_eq!(res, Err(MintError::DeprecatedAsset));
    let res = m::mint(
        &mut pos1,
        &"addr0000".to_string(),
        &token("asset0000", 1),
        &c,
        1000,
        (Decimal::one(), Decimal::one(), false),
        Decimal::one(),
    );
    assert_eq!(res, Err(MintError::DeprecatedAsset));

    // withdraw down to the 100% ratio; only the owner may
    let end_price = read_fixed_price(&c).unwrap();
    let res = m::withdraw(
        &mut pos1,
        &"addr0001".to_string(),
        Some(&uusd(333334)),
        end_price,
        Decimal::one(),
        Decimal::one(),
        c.min_collateral_ratio,
    );
    assert_eq!(res, Err(MintError::Unauthorized));
    let res = m::withdraw(
        &mut pos1,
        &"addr0000".to_string(),
        Some(&uusd(333334)),
        end_price,
        Decimal::one(),
        Decimal::one(),
        c.min_collateral_ratio,
    );
    assert_eq!(res, Ok((333334, false)));
    assert_eq!(pos1.collateral.amount, 666666);

    // anyone burns the deprecated asset: 666666 back less a fee of 6666
    let res = m::burn(
        &mut pos1,
        &"addr0001".to_string(),
        &token("asset0000", 666666),
        &c,
        1000,
        Decimal::one(),
        end_price,
        cfg.protocol_fee_rate,
    );
    assert_eq!(res, Ok(BurnOutcome { protocol_fee: 6666, refund_collateral: 660000, closed: true }));
    assert_eq!(pos1.asset.amount, 0);
    assert_eq!(pos1.collateral.amount, 0);
}

#[test]
fn revoked_collateral() {
    let c = asset_config("asset0001", 20, 150);
    let mut pos = open(1, token("asset0000", 1000000), &c, Decimal::one(), Decimal::percent(50), 150, 1000)
        .unwrap();
    assert_eq!(pos.asset.amount, 1333333);
    let res = m::deposit(&mut pos, &"addr0000".to_string(), &token("asset0000", 1), true, &c);
    assert_eq!(res, Err(MintError::RevokedCollateral));
    let res = m::mint(
        &mut pos,
        &"addr0000".to_string(),
        &token("asset0001", 1),
        &c,
        1000,
        (Decimal::one(), Decimal::one(), true),
        Decimal::percent(50),
    );
    assert_eq!(res, Err(MintError::RevokedCollateral));
    assert_eq!(
        load_collateral_info(&"asset0000".to_string(), &"uusd".to_string(), Some(Decimal::percent(50))),
        CollateralSource::Revoked(Decimal::percent(50))
    );
}

#[test]
fn migration_test_config_migration() {
    let legacy = LegacyConfig {
        owner: "owner0000".to_string(),
        oracle: "oracle0000".to_string(),
        collector: "collector0000".to_string(),
        base_denom: "uusd".to_string(),
        token_code_id: 10,
        protocol_fee_rate: Decimal::percent(1),
    };
    let cfg = migrate_config(
        legacy,
        "staking0000".to_string(),
        "terraswap_factory0000".to_string(),
        "collateral_oracle0000".to_string(),
        "lock0000".to_string(),
    );
    assert_eq!(cfg.owner, "owner0000");
    assert_eq!(cfg.oracle, "oracle0000");
    assert_eq!(cfg.collector, "collector0000");
    assert_eq!(cfg.collateral_oracle, "collateral_oracle0000");
    assert_eq!(cfg.staking, "staking0000");
    assert_eq!(cfg.terraswap_factory, "terraswap_factory0000");
    assert_eq!(cfg.lock, "lock0000");
    assert_eq!(cfg.base_denom, "uusd");
    assert_eq!(cfg.token_code_id, 10);
    assert_eq!(cfg.protocol_fee_rate, Decimal::percent(1));
}

#[test]
fn test_asset_config_migration() {
    let legacy = LegacyAssetConfig {
        token: "mAPPL0000".to_string(),
        auction_discount: Decimal::percent(20),
        min_collateral_ratio: Decimal::percent(150),
        end_price: None,
    };
    let c = migrate_asset_config(legacy);
    assert_eq!(c.token, "mAPPL0000");
    assert_eq!(c.auction_discount, Decimal::percent(20));
    assert_eq!(c.min_collateral_ratio, Decimal::percent(150));
    assert!(c.end_price.is_none());
    assert!(c.ipo_params.is_none());
}

#[test]
fn pre_ipo_test_pre_ipo_assets() {
    let cfg = config(1);
    let mint_end = T0 + 10;
    let (mut c, register_collateral) = register_asset(
        &cfg,
        &"owner0000".to_string(),
        false,
        "preIPOAsset0000".to_string(),
        Decimal::percent(20),
        Decimal::percent(1000),
        Some(IPOParams {
            mint_end,
            min_collateral_ratio_after_ipo: Decimal::percent(150),
            pre_ipo_price: Decimal::percent(100),
            trigger_addr: "feeder0000".to_string(),
        }),
    )
    .unwrap();
    assert!(!register_collateral);

    // minting phase: the pre-IPO price is used
    let mut now = T0 + 1;
    let asset_price = load_asset_price(read_fixed_price(&c), &c.token, &cfg.base_denom).unwrap();
    assert_eq!(asset_price, Decimal::one());
    let mut pos = open(1, uusd(2000000000), &c, Decimal::one(), asset_price, 2000, now).unwrap();
    assert_eq!(pos.asset.amount, 100000000);
    let res = m::mint(
        &mut pos,
        &"addr0000".to_string(),
        &token("preIPOAsset0000", 2000000),
        &c,
        now,
        (Decimal::one(), Decimal::one(), false),
        asset_price,
    );
    assert_eq!(res, Ok(()));
    let res = m::burn(
        &mut pos,
        &"addr0000".to_string(),
        &token("preIPOAsset0000", 1000000),
        &c,
        now,
        Decimal::one(),
        asset_price,
        Decimal::zero(),
    );
    assert!(res.is_ok());

    // trading phase: open, mint and burn are disabled
    now = T0 + 11;
    let res = validate_open_position(
        &cfg,
        &c,
        now,
        &uusd(1000000000),
        (Decimal::one(), Decimal::one(), false),
        Decimal::percent(10000),
    );
    assert_eq!(res, Err(MintError::MintPeriodEnded(mint_end)));
    let res = m::mint(
        &mut pos,
        &"addr0000".to_string(),
        &token("preIPOAsset0000", 2000000),
        &c,
        now,
        (Decimal::one(), Decimal::one(), false),
        asset_price,
    );
    assert_eq!(res, Err(MintError::MintPeriodEnded(mint_end)));
    let res = m::burn(
        &mut pos,
        &"addr0000".to_string(),
        &token("preIPOAsset0000", 1000000),
        &c,
        now,
        Decimal::one(),
        asset_price,
        Decimal::zero(),
    );
    assert_eq!(res, Err(MintError::BurnPeriodEnded(mint_end)));

    // IPO: only the trigger address
    assert_eq!(trigger_ipo(&mut c, &"owner".to_string()), Err(MintError::Unauthorized));
    assert_eq!(trigger_ipo(&mut c, &"feeder0000".to_string()), Ok(()));
    assert_eq!(c.min_collateral_ratio, Decimal::percent(150));
    assert!(c.ipo_params.is_none());
    assert_eq!(trigger_ipo(&mut c, &"feeder0000".to_string()), Err(MintError::NoIpoParams));

    // a traditional asset now, priced by the oracle
    assert_eq!(load_asset_price(read_fixed_price(&c), &c.token, &cfg.base_denom), None);
    let pos2 = open(2, uusd(9000), &c, Decimal::one(), price(10), 150, now).unwrap();
    assert_eq!(pos2.asset.amount, 599);
}

#[test]
fn pre_ipo_collateral_must_be_base_denom() {
    let cfg = config(1);
    let (c, _) = register_asset(
        &cfg,
        &"owner0000".to_string(),
        false,
        "preIPOAsset0000".to_string(),
        Decimal::percent(20),
        Decimal::percent(1000),
        Some(IPOParams {
            mint_end: T0 + 10,
            min_collateral_ratio_after_ipo: Decimal::percent(150),
            pre_ipo_price: Decimal::percent(100),
            trigger_addr: "feeder0000".to_string(),
        }),
    )
    .unwrap();
    let res = validate_open_position(
        &cfg,
        &c,
        T0,
        &token("asset0001", 1000),
        (Decimal::one(), Decimal::one(), false),
        Decimal::percent(2000),
    );
    assert_eq!(res, Err(MintError::PreIpoCollateral));
}

#[test]
fn open_position() {
    let c = asset_config("asset0000", 20, 150);
    let res = validate_open_position(
        &config(1),
        &c,
        1000,
        &uusd(1000000),
        (Decimal::one(), Decimal::one(), false),
        Decimal::percent(140),
    );
    assert_eq!(res, Err(MintError::LowCollateralRatio));
    // opening itself refuses a ratio below the minimum, and no collateral
    assert_eq!(
        open(1, uusd(1000000), &c, Decimal::one(), Decimal::percent(100), 140, 1000).err(),
        Some(MintError::LowCollateralRatio)
    );
    assert_eq!(
        open(1, uusd(0), &c, Decimal::one(), Decimal::percent(100), 150, 1000).err(),
        Some(MintError::WrongCollateral)
    );

    let pos1 = open(1, uusd(1000000), &c, Decimal::one(), Decimal::percent(100), 150, 1000).unwrap();
    assert_eq!(pos1.idx, 1);
    assert_eq!(pos1.owner, "addr0000");
    assert_eq!(pos1.asset.amount, 666666);
    assert_eq!(pos1.collateral.amount, 1000000);

    let pos2 = open(2, token("asset0001", 1000000), &c, Decimal::percent(50), Decimal::percent(100), 150, 1000)
        .unwrap();
    assert_eq!(pos2.idx, 2);
    assert_eq!(pos2.asset.amount, 333333);
    assert_eq!(pos2.collateral.amount, 1000000);
}

#[test]
fn collateral_too_small() {
    assert_eq!(
        compute_mint_amount(1, Decimal::one(), price(100), Decimal::percent(150)),
        Err(MintError::CollateralTooSmall)
    );
}

fn two_positions(c: &AssetConfig) -> (Position, Position) {
    let mut pos1 = open(1, uusd(1000000), c, Decimal::one(), price(100), 150, 1000).unwrap();
    let mut pos2 = open(2, token("asset0001", 1000000), c, price(50), price(100), 150, 1000).unwrap();
    assert_eq!(m::deposit(&mut pos1, &"addr0000".to_string(), &uusd(1000000), false, c), Ok(()));
    assert_eq!(m::deposit(&mut pos2, &"addr0000".to_string(), &token("asset0001", 1000000), false, c), Ok(()));
    (pos1, pos2)
}

#[test]
fn deposit() {
    let c = asset_config("asset0000", 20, 150);
    let (mut pos1, mut pos2) = two_positions(&c);
    assert_eq!(pos1.collateral.amount, 2000000);
    assert_eq!(pos1.asset.amount, 6666);
    assert_eq!(pos2.collateral.amount, 2000000);
    assert_eq!(pos2.asset.amount, 333333);

    // the wrong collateral, or another owner
    let res = m::deposit(&mut pos2, &"addr0000".to_string(), &uusd(1000000), false, &c);
    assert_eq!(res, Err(MintError::WrongCollateral));
    let res = m::deposit(&mut pos1, &"addr0001".to_string(), &uusd(1), false, &c);
    assert_eq!(res, Err(MintError::Unauthorized));
    assert_eq!(pos1.collateral.amount, 2000000);
}

#[test]
fn mint() {
    let c = asset_config("asset0000", 20, 150);
    let (mut pos1, mut pos2) = two_positions(&c);
    let info = |p: u128| (price(p), Decimal::one(), false);

    let res = m::mint(
        &mut pos1, &"addr0000".to_string(), &token("asset0000", 6668), &c, 1000, info(1), price(100),
    );
    assert_eq!(res, Err(MintError::MintBelowMinRatio));
    let res = m::mint(
        &mut pos1, &"addr0000".to_string(), &token("asset0000", 6667), &c, 1000, info(1), price(100),
    );
    assert_eq!(res, Ok(()));
    assert_eq!(pos1.asset.amount, 13333);

    let res = m::mint(
        &mut pos2, &"addr0000".to_string(), &token("asset0000", 333334), &c, 1000, info(50), price(100),
    );
    assert_eq!(res, Err(MintError::MintBelowMinRatio));
    let res = m::mint(
        &mut pos2, &"addr0000".to_string(), &token("asset0000", 333333), &c, 1000, info(50), price(100),
    );
    assert_eq!(res, Ok(()));
    assert_eq!(pos2.asset.amount, 666666);
}

#[test]
fn burn() {
    let c = asset_config("asset0000", 20, 150);
    let (mut pos1, mut pos2) = two_positions(&c);
    let sender = "addr0000".to_string();
    m::mint(
        &mut pos1, &sender, &token("asset0000", 6667), &c, 1000, (Decimal::one(), Decimal::one(), false), price(100),
    )
    .unwrap();

    let res = m::burn(
        &mut pos1, &sender, &token("asset0000", 13334), &c, 1000, Decimal::one(), price(100), Decimal::zero(),
    );
    assert_eq!(res, Err(MintError::CannotBurnMoreThanMinted));
    let res = m::burn(
        &mut pos1, &sender, &token("asset0000", 13333), &c, 1000, Decimal::one(), price(100), Decimal::zero(),
    );
    assert_eq!(res, Ok(BurnOutcome { protocol_fee: 0, refund_collateral: 0, closed: false }));
    assert_eq!(pos1.asset.amount, 0);
    assert_eq!(pos1.collateral.amount, 2000000);

    m::mint(
        &mut pos2, &sender, &token("asset0000", 333333), &c, 1000, (price(50), Decimal::one(), false), price(100),
    )
    .unwrap();
    let res = m::burn(
        &mut pos2, &sender, &token("asset0000", 666667), &c, 1000, price(50), price(100), Decimal::zero(),
    );
    assert_eq!(res, Err(MintError::CannotBurnMoreThanMinted));
    let res = m::burn(
        &mut pos2, &sender, &token("asset0000", 666666), &c, 1000, price(50), price(100), Decimal::zero(),
    );
    assert!(res.is_ok());
    assert_eq!(pos2.asset.amount, 0);
}

#[test]
fn burn_with_protocol_fee() {
    // burning 1000 asset at price 100 with a 1% fee takes 1000 collateral
    let c = asset_config("asset0000", 20, 150);
    let (mut pos1, _) = two_positions(&c);
    let res = m::burn(
        &mut pos1,
        &"addr0000".to_string(),
        &token("asset0000", 1000),
        &c,
        1000,
        Decimal::one(),
        price(100),
        Decimal::percent(1),
    );
    assert_eq!(res, Ok(BurnOutcome { protocol_fee: 1000, refund_collateral: 0, closed: false }));
    assert_eq!(pos1.collateral.amount, 1999000);
    assert_eq!(pos1.asset.amount, 5666);
}

#[test]
fn withdraw() {
    let c = asset_config("asset0000", 20, 150);
    let mut pos1 = open(1, uusd(1000000), &c, Decimal::one(), price(100), 150, 1000).unwrap();
    let mut pos2 = open(2, token("asset0001", 1000000), &c, price(50), price(100), 150, 1000).unwrap();
    let sender = "addr0000".to_string();
    let min = c.min_collateral_ratio;

    let res = m::withdraw(
        &mut pos1, &sender, Some(&uusd(101)), price(100), Decimal::one(), Decimal::one(), min,
    );
    assert_eq!(res, Err(MintError::WithdrawBelowMinRatio));
    let res = m::withdraw(
        &mut pos1, &sender, Some(&uusd(100)), price(100), Decimal::one(), Decimal::one(), min,
    );
    assert_eq!(res, Ok((100, false)));
    assert_eq!(pos1.collateral.amount, 999900);

    let res = m::withdraw(
        &mut pos2, &sender, Some(&token("asset0001", 2)), price(100), price(50), Decimal::one(), min,
    );
    assert_eq!(res, Err(MintError::WithdrawBelowMinRatio));
    let res = m::withdraw(
        &mut pos2, &sender, Some(&token("asset0001", 1)), price(100), price(50), Decimal::one(), min,
    );
    assert_eq!(res, Ok((1, false)));

    let res = m::withdraw(
        &mut pos2, &sender, Some(&token("asset0001", 2000000)), price(100), price(50), Decimal::one(), min,
    );
    assert_eq!(res, Err(MintError::CannotWithdrawMoreThanProvided));
}

#[test]
fn withdraw_everything_closes_position() {
    let c = asset_config("asset0000", 20, 150);
    let mut pos = open(1, uusd(1000000), &c, Decimal::one(), price(100), 150, 1000).unwrap();
    let sender = "addr0000".to_string();
    let res = m::burn(
        &mut pos, &sender, &token("asset0000", 6666), &c, 1000, Decimal::one(), price(100), Decimal::zero(),
    );
    assert!(res.is_ok());
    let res = m::withdraw(
        &mut pos, &sender, None, price(100), Decimal::one(), Decimal::one(), c.min_collateral_ratio,
    );
    assert_eq!(res, Ok((1000000, true)));
}

#[test]
fn auction() {
    let c = asset_config("asset0000", 20, 130);
    let mut pos1 = open(1, uusd(1000000), &c, Decimal::one(), price(100), 150, 1000).unwrap();
    let mut pos2 = open(2, token("asset0001", 1000000), &c, price(50), price(100), 150, 1000).unwrap();
    assert_eq!(pos1.asset.amount, 6666);
    assert_eq!(pos2.asset.amount, 333333);

    // price 115: still safe
    let res = m::auction(
        &mut pos1, &token("asset0000", 1), &c, price(115), Decimal::one(), Decimal::one(), Decimal::zero(),
    );
    assert_eq!(res, Err(MintError::SafelyCollateralized));

    // price 116: more than the position is refused
    let res = m::auction(
        &mut pos1, &token("asset0000", 6667), &c, price(116), Decimal::one(), Decimal::one(), Decimal::zero(),
    );
    assert_eq!(res, Err(MintError::CannotLiquidateMoreThanPosition));
    let res = m::auction(
        &mut pos2, &token("asset0000", 333334), &c, price(116), price(50), Decimal::one(), Decimal::zero(),
    );
    assert_eq!(res, Err(MintError::CannotLiquidateMoreThanPosition));

    // 6666 at 116 / 0.8 = 145 buys 966570; the owner gets the rest back
    let res = m::auction(
        &mut pos1, &token("asset0000", 6666), &c, price(116), Decimal::one(), Decimal::one(), Decimal::zero(),
    );
    assert_eq!(
        res,
        Ok(AuctionOutcome {
            return_collateral_amount: 966570,
            refund_asset_amount: 0,
            liquidated_asset_amount: 6666,
            protocol_fee: 0,
            owner_refund: 33430,
            closed: true,
        })
    );
}

#[test]
fn auction_capped_at_position_collateral() {
    // price ratio 200 / 50 = 4, discounted to 5: 210000 would buy 1050000,
    // more than the 1000000 held; the extra 50000 buys back 10000 asset
    let c = asset_config("asset0000", 20, 130);
    let mut pos2 = open(2, token("asset0001", 1000000), &c, price(50), price(100), 150, 1000).unwrap();
    let res = m::auction(
        &mut pos2, &token("asset0000", 210000), &c, price(200), price(50), Decimal::one(), Decimal::zero(),
    );
    assert_eq!(
        res,
        Ok(AuctionOutcome {
            return_collateral_amount: 1000000,
            refund_asset_amount: 10000,
            liquidated_asset_amount: 200000,
            protocol_fee: 0,
            owner_refund: 0,
            closed: true,
        })
    );
    assert_eq!(pos2.collateral.amount, 0);
    assert_eq!(pos2.asset.amount, 133333);
}

#[test]
fn auction_with_protocol_fee() {
    // a 1% fee on 6666 liquidated at price 116 is 7732
    let c = asset_config("asset0000", 20, 130);
    let mut pos1 = open(1, uusd(1000000), &c, Decimal::one(), price(100), 150, 1000).unwrap();
    let res = m::auction(
        &mut pos1, &token("asset0000", 6666), &c, price(116), Decimal::one(), Decimal::one(), Decimal::percent(1),
    );
    let out = res.unwrap();
    assert_eq!(out.protocol_fee, 7732);
    assert_eq!(out.return_collateral_amount, 966570 - 7732);
    assert_eq!(out.owner_refund, 33430);
}

#[test]
fn deposit_then_withdraw_round_trip() {
    let c = asset_config("asset0000", 20, 150);
    let mut pos = open(1, uusd(1000000), &c, Decimal::one(), price(100), 150, 1000).unwrap();
    let sender = "addr0000".to_string();
    assert_eq!(m::deposit(&mut pos, &sender, &uusd(500), false, &c), Ok(()));
    assert_eq!(pos.collateral.amount, 1000500);
    let res = m::withdraw(
        &mut pos, &sender, Some(&uusd(500)), price(100), Decimal::one(), Decimal::one(), c.min_collateral_ratio,
    );
    assert_eq!(res, Ok((500, false)));
    assert_eq!(pos.collateral.amount, 1000000);
}

#[test]
fn auction_refuses_safe_position_with_full_discount() {
    // a 100% discount makes the discounted price undefined, but a safely
    // collateralized position is refused before it is computed
    let c = asset_config("asset0000", 100, 130);
    let mut pos1 = open(1, uusd(1000000), &c, Decimal::one(), Decimal::one(), 150, 1000).unwrap();
    let res = m::auction(
        &mut pos1, &token("asset0000", 1000), &c, Decimal::one(), Decimal::one(), Decimal::one(), Decimal::percent(1),
    );
    assert_eq!(res, Err(MintError::SafelyCollateralized));
    assert_eq!(pos1.collateral.amount, 1000000);
    assert_eq!(pos1.asset.amount, 666666);
}

#[test]
fn burn_by_stranger_is_unauthorized_before_any_arithmetic() {
    let c = asset_config("asset0000", 20, 150);
    let mut pos1 = open(1, uusd(1000000), &c, Decimal::one(), Decimal::one(), 150, 1000).unwrap();
    let huge = Decimal { atomics: u128::MAX };
    let res = m::burn(
        &mut pos1, &"addr0001".to_string(), &token("asset0000", 1000), &c, 1000, Decimal::one(), huge, Decimal::percent(1),
    );
    assert_eq!(res, Err(MintError::Unauthorized));
    assert_eq!(pos1.asset.amount, 666666);
}

#[test]
fn refusals_before_prices() {
    let c = asset_config("asset0000", 20, 150);
    let pos1 = open(1, uusd(1000000), &c, Decimal::one(), Decimal::one(), 150, 1000).unwrap();
    let owner = "addr0000".to_string();
    let stranger = "addr0001".to_string();
    let deprecated = AssetConfig {
        token: c.token.clone(),
        auction_discount: c.auction_discount,
        min_collateral_ratio: c.min_collateral_ratio,
        end_price: Some(Decimal::one()),
        ipo_params: None,
    };
    let pre_ipo = AssetConfig {
        token: c.token.clone(),
        auction_discount: c.auction_discount,
        min_collateral_ratio: c.min_collateral_ratio,
        end_price: None,
        ipo_params: Some(IPOParams {
            mint_end: 500,
            pre_ipo_price: Decimal::one(),
            min_collateral_ratio_after_ipo: Decimal::percent(150),
            trigger_addr: "trigger".to_string(),
        }),
    };
    let info = (Decimal::one(), Decimal::one(), false);

    // deposit
    assert_eq!(m::check_deposit(&pos1, &stranger, &uusd(1), false, &c), Err(MintError::Unauthorized));
    assert_eq!(m::check_deposit(&pos1, &owner, &uusd(0), false, &c), Err(MintError::WrongCollateral));
    assert_eq!(m::check_deposit(&pos1, &owner, &uusd(1), true, &c), Err(MintError::RevokedCollateral));
    assert_eq!(m::check_deposit(&pos1, &owner, &uusd(1), false, &deprecated), Err(MintError::DeprecatedAsset));
    assert_eq!(m::check_deposit(&pos1, &owner, &uusd(1), false, &c), Ok(()));

    // withdraw
    assert_eq!(m::check_withdraw(&pos1, &stranger, None), Err(MintError::Unauthorized));
    assert_eq!(m::check_withdraw(&pos1, &owner, Some(&token("x", 1))), Err(MintError::WrongCollateral));
    assert_eq!(
        m::check_withdraw(&pos1, &owner, Some(&uusd(1000001))),
        Err(MintError::CannotWithdrawMoreThanProvided)
    );
    assert_eq!(m::check_withdraw(&pos1, &owner, Some(&uusd(10))), Ok(10));
    assert_eq!(m::check_withdraw(&pos1, &owner, None), Ok(1000000));

    // mint
    let a = token("asset0000", 1);
    assert_eq!(m::check_mint(&pos1, &stranger, &a, &c, 1000, info), Err(MintError::Unauthorized));
    assert_eq!(m::check_mint(&pos1, &owner, &token("x", 1), &c, 1000, info), Err(MintError::WrongAsset));
    assert_eq!(m::check_mint(&pos1, &owner, &a, &deprecated, 1000, info), Err(MintError::DeprecatedAsset));
    assert_eq!(
        m::check_mint(&pos1, &owner, &a, &c, 1000, (Decimal::one(), Decimal::one(), true)),
        Err(MintError::RevokedCollateral)
    );
    assert_eq!(m::check_mint(&pos1, &owner, &a, &pre_ipo, 1000, info), Err(MintError::MintPeriodEnded(500)));
    assert_eq!(m::check_mint(&pos1, &owner, &a, &c, 1000, info), Ok(()));

    // burn
    assert_eq!(m::check_burn(&pos1, &token("x", 1), &c, 1000), Err(MintError::WrongAsset));
    assert_eq!(
        m::check_burn(&pos1, &token("asset0000", 666667), &c, 1000),
        Err(MintError::CannotBurnMoreThanMinted)
    );
    assert_eq!(m::check_burn(&pos1, &a, &pre_ipo, 1000), Err(MintError::BurnPeriodEnded(500)));
    assert_eq!(m::check_burn(&pos1, &a, &c, 1000), Ok(()));

    // auction
    assert_eq!(m::check_auction(&pos1, &token("asset0000", 0), &c), Err(MintError::WrongAsset));
    assert_eq!(m::check_auction(&pos1, &a, &deprecated), Err(MintError::DeprecatedAsset));
    assert_eq!(
        m::check_auction(&pos1, &token("asset0000", 666667), &c),
        Err(MintError::CannotLiquidateMoreThanPosition)
    );
    assert_eq!(m::check_auction(&pos1, &a, &c), Ok(()));

    // opening
    let cfg = config(1);
    assert_eq!(
        m::check_open_prechecks(&cfg, &c, 1000, &uusd(1), (Decimal::one(), Decimal::one(), true)),
        Err(MintError::RevokedCollateral)
    );
    assert_eq!(m::check_open_prechecks(&cfg, &deprecated, 1000, &uusd(1), info), Err(MintError::DeprecatedAsset));
    assert_eq!(m::check_open_prechecks(&cfg, &pre_ipo, 1000, &uusd(1), info), Err(MintError::MintPeriodEnded(500)));
    assert_eq!(m::check_open_prechecks(&cfg, &pre_ipo, 100, &token("x", 1), info), Err(MintError::PreIpoCollateral));
    assert_eq!(m::check_open_prechecks(&cfg, &c, 1000, &uusd(1), info), Ok(()));
}
