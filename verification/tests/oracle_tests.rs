use mirror_contracts::decimal::Decimal;
use mirror_contracts::oracle::{
    query_price, try_feed_price, try_register_asset, try_update_config, Config, OracleError,
    PriceInfo, PriceResponse,
};

const NOW: u64 = 1_571_797_419;

fn config() -> Config {
    Config { owner: "owner0000".to_string(), base_asset: "base0000".to_string() }
}

#[test]
fn oracle_proper_initialization() {
    let cfg = config();
    assert_eq!(cfg.owner, "owner0000");
    assert_eq!(cfg.base_asset, "base0000");
}

#[test]
fn oracle_update_config() {
    let mut cfg = config();
    assert_eq!(try_update_config(&mut cfg, &"owner0000".to_string(), Some("owner0001".to_string())), Ok(()));
    assert_eq!(cfg.owner, "owner0001");
    assert_eq!(
        try_update_config(&mut cfg, &"owner0000".to_string(), None),
        Err(OracleError::Unauthorized)
    );
    assert_eq!(cfg.owner, "owner0001");
}

#[test]
fn update_price() {
    let cfg = config();
    assert_eq!(try_register_asset(&cfg, &"addr0000".to_string(), false), Err(OracleError::Unauthorized));
    let stored = try_register_asset(&cfg, &"owner0000".to_string(), false).unwrap();
    assert_eq!(stored, Some(PriceInfo { price: Decimal::zero(), last_updated_time: 0 }));
    // registering again only changes the feeder
    assert_eq!(try_register_asset(&cfg, &"owner0000".to_string(), true), Ok(None));

    let feeder = "addr0000".to_string();
    let price = Decimal::from_ratio(12, 10);
    let fed = try_feed_price(&feeder, Some(&feeder), stored, price, NOW).unwrap();
    assert_eq!(fed, PriceInfo { price, last_updated_time: NOW });

    let res = query_price(&cfg, &"mAAPL".to_string(), &"base0000".to_string(), Some(fed), None);
    assert_eq!(
        res,
        Ok(PriceResponse { rate: price, last_updated_base: NOW, last_updated_quote: u64::MAX })
    );

    let res = try_feed_price(&"addr0001".to_string(), Some(&feeder), Some(fed), price, NOW);
    assert_eq!(res, Err(OracleError::Unauthorized));
}

#[test]
fn feed_price() {
    let cfg = config();
    let feeder = "addr0000".to_string();
    // no feeder registered yet
    let res = try_feed_price(&feeder, None, None, Decimal::from_ratio(12, 10), NOW);
    assert_eq!(res, Err(OracleError::NotFound));

    let aapl = try_register_asset(&cfg, &"owner0000".to_string(), false).unwrap();
    let gogl = try_register_asset(&cfg, &"owner0000".to_string(), false).unwrap();

    let res = query_price(&cfg, &"mAAPL".to_string(), &"base0000".to_string(), aapl, None);
    assert_eq!(
        res,
        Ok(PriceResponse { rate: Decimal::zero(), last_updated_base: 0, last_updated_quote: u64::MAX })
    );

    let aapl = try_feed_price(&feeder, Some(&feeder), aapl, Decimal::from_ratio(12, 10), NOW).unwrap();
    let gogl = try_feed_price(&feeder, Some(&feeder), gogl, Decimal::from_ratio(22, 10), NOW).unwrap();
    assert_eq!(gogl.price, Decimal::from_ratio(22, 10));
    assert_eq!(gogl.last_updated_time, NOW);

    let res = query_price(&cfg, &"mAAPL".to_string(), &"base0000".to_string(), Some(aapl), None);
    assert_eq!(
        res,
        Ok(PriceResponse {
            rate: Decimal::from_ratio(12, 10),
            last_updated_base: NOW,
            last_updated_quote: u64::MAX,
        })
    );

    let res = try_feed_price(&"addr0001".to_string(), Some(&feeder), Some(aapl), Decimal::from_ratio(12, 10), NOW);
    assert_eq!(res, Err(OracleError::Unauthorized));
}

#[test]
fn cross_price_and_missing_record() {
    let cfg = config();
    let aapl = PriceInfo { price: Decimal::from_ratio(12, 10), last_updated_time: 5 };
    let gogl = PriceInfo { price: Decimal::from_ratio(24, 10), last_updated_time: 7 };
    let res = query_price(&cfg, &"mAAPL".to_string(), &"mGOGL".to_string(), Some(aapl), Some(gogl));
    assert_eq!(
        res,
        Ok(PriceResponse { rate: Decimal::percent(50), last_updated_base: 5, last_updated_quote: 7 })
    );
    let res = query_price(&cfg, &"mAAPL".to_string(), &"mGOGL".to_string(), Some(aapl), None);
    assert_eq!(res, Err(OracleError::NotFound));
}
