use mirror_contracts::asset::{
    assert_sent_native_token_balance, compute_tax, deduct_tax, find_coin, Asset, AssetInfo, Coin,
};
use mirror_contracts::decimal::{uint_mul, Decimal, DECIMAL_FRACTIONAL};
use mirror_contracts::math::{
    decimal_division, decimal_min, decimal_multiplication, decimal_subtraction, reverse_decimal,
};
use mirror_contracts::mock_querier::{address_pair_to_map, paris_to_map, AddressMap, OracleQuerier, TerraswapPairQuerier};
use mirror_contracts::pagination::{
    indexer_page, page_limit, read_positions, read_positions_with_asset_indexer,
    read_positions_with_user_indexer, OrderBy,
};
use mirror_contracts::short_reward::{erf_plus_one, query_short_reward_weight, ShortRewardError, Sign};
use mirror_contracts::short_reward::decimal_subtraction as checked_subtraction;

fn atomics(a: u128) -> Decimal {
    Decimal { atomics: a }
}

#[test]
fn decimal_constructors() {
    assert_eq!(Decimal::zero().atomics, 0);
    assert_eq!(Decimal::one().atomics, DECIMAL_FRACTIONAL);
    assert_eq!(Decimal::percent(150).atomics, 1_500_000_000_000_000_000);
    assert_eq!(Decimal::permille(5).atomics, 5_000_000_000_000_000);
    assert_eq!(Decimal::from_ratio(1, 3).atomics, 333_333_333_333_333_333);
    assert_eq!(Decimal::from_ratio(80, 100), Decimal::percent(80));
    // the 256-bit intermediate product of the ratio does not overflow
    assert_eq!(Decimal::from_ratio(u128::MAX, DECIMAL_FRACTIONAL).atomics, u128::MAX);
    assert!(Decimal::zero().is_zero());
    assert!(Decimal::percent(1).lt(&Decimal::percent(2)));
    assert!(Decimal::percent(2).gt(&Decimal::percent(1)));
    assert_eq!(Decimal::percent(1).add(Decimal::percent(2)), Decimal::percent(3));
    assert_eq!(Decimal::percent(3).sub(Decimal::percent(2)), Decimal::percent(1));
}

#[test]
fn uint_times_decimal() {
    assert_eq!(uint_mul(100, Decimal::percent(20)), 20);
    assert_eq!(uint_mul(3, Decimal::from_ratio(1, 3)), 0);
    assert_eq!(uint_mul(1_000_000, Decimal::from_ratio(1, 3)), 333_333);
    assert_eq!(uint_mul(0, Decimal::one()), 0);
}

#[test]
fn nine_digit_helpers() {
    // 1 / 1.5 keeps nine digits
    assert_eq!(reverse_decimal(Decimal::percent(150)).atomics, 666_666_666_666_666_666);
    assert_eq!(decimal_division(Decimal::percent(50), Decimal::percent(100)), Decimal::percent(50));
    assert_eq!(decimal_division(Decimal::from_ratio(116, 1), Decimal::percent(80)), Decimal::from_ratio(145, 1));
    assert_eq!(decimal_subtraction(Decimal::percent(105), Decimal::one()), Decimal::percent(5));
    // digits beyond the ninth are dropped first
    assert_eq!(decimal_subtraction(atomics(1_999_999_999_999), atomics(0)).atomics, 1_999_000_000_000);
    assert_eq!(
        decimal_multiplication(Decimal::from_ratio(990, 1), Decimal::percent(150)),
        Decimal::from_ratio(1485, 1)
    );
    assert_eq!(decimal_min(Decimal::percent(1), Decimal::percent(2)), Decimal::percent(1));
    assert_eq!(decimal_min(Decimal::percent(3), Decimal::percent(2)), Decimal::percent(2));
}

#[test]
fn checked_subtraction_refuses_negative() {
    assert_eq!(checked_subtraction(Decimal::percent(1), Decimal::percent(2)), Err(ShortRewardError::Overflow));
    assert_eq!(checked_subtraction(Decimal::percent(3), Decimal::percent(2)), Ok(Decimal::percent(1)));
}

#[test]
fn erf_plus_one_values() {
    assert_eq!(erf_plus_one(Sign::Positive, Decimal::zero()), Ok(Decimal::one()));
    assert_eq!(erf_plus_one(Sign::Positive, Decimal::one()), Ok(atomics(1_842_701_000_000_000_000)));
    assert_eq!(erf_plus_one(Sign::Negative, Decimal::one()), Ok(atomics(153_878_000_000_000_000)));
}

#[test]
fn short_reward_weight_values() {
    let w = |p: u64| query_short_reward_weight(Decimal::percent(p)).unwrap();
    assert_eq!(w(0), atomics(2_618_000_000_000_000));
    assert_eq!(w(1), atomics(63_416_800_000_000_000));
    assert_eq!(w(2), Decimal::percent(20));
    assert_eq!(w(3), atomics(336_537_800_000_000_000));
    assert_eq!(w(5), atomics(399_460_000_000_000_000));
    assert_eq!(w(7), atomics(399_999_800_000_000_000));
    assert_eq!(w(10), Decimal::percent(40));
    assert_eq!(w(15), Decimal::percent(40));
    // defined and capped whatever the premium
    assert_eq!(w(1000), Decimal::percent(40));
    for p in 0..=7u64 {
        assert!(w(p).atomics <= Decimal::percent(40).atomics);
    }
    let tiny = query_short_reward_weight(Decimal { atomics: 1 }).unwrap();
    assert!(tiny.atomics <= Decimal::percent(40).atomics);
}

#[test]
fn coins_and_assets() {
    let funds = vec![
        Coin { denom: "ukrw".to_string(), amount: 5 },
        Coin { denom: "uusd".to_string(), amount: 100 },
        Coin { denom: "uusd".to_string(), amount: 7 },
    ];
    assert_eq!(find_coin(&funds, &"uusd".to_string()), Some(1));
    assert_eq!(find_coin(&funds, &"uluna".to_string()), None);
    let uusd = |amount: u128| Asset { info: AssetInfo::NativeToken { denom: "uusd".to_string() }, amount };
    assert!(assert_sent_native_token_balance(&uusd(100), &funds));
    assert!(!assert_sent_native_token_balance(&uusd(107), &funds));
    assert!(assert_sent_native_token_balance(
        &Asset { info: AssetInfo::NativeToken { denom: "uluna".to_string() }, amount: 0 },
        &funds
    ));
    let t = Asset { info: AssetInfo::Token { contract_addr: "asset".to_string() }, amount: 9 };
    assert!(assert_sent_native_token_balance(&t, &vec![]));
    assert!(t.info.equal(&t.info.duplicate()));
    assert!(!t.info.equal(&uusd(1).info));
    assert!(uusd(1).info.is_native_token());
    assert!(!t.info.is_native_token());
}

#[test]
fn pages() {
    let keys: Vec<u128> = (1..=40).collect();
    assert_eq!(page_limit(None), 10);
    assert_eq!(page_limit(Some(5)), 5);
    assert_eq!(page_limit(Some(100)), 30);

    // main store: after the cursor in either order
    assert_eq!(read_positions(&keys, None, Some(3), Some(OrderBy::Asc)), vec![1, 2, 3]);
    assert_eq!(read_positions(&keys, Some(1), None, Some(OrderBy::Asc)), (2..=11).collect::<Vec<u128>>());
    assert_eq!(read_positions(&keys, None, Some(3), None), vec![40, 39, 38]);
    assert_eq!(read_positions(&keys, Some(38), None, Some(OrderBy::Desc)), vec![40, 39]);
    assert_eq!(read_positions(&keys, None, None, None).len(), 10);
    assert_eq!(read_positions(&keys, None, Some(50), Some(OrderBy::Asc)).len(), 30);

    // indexes: descending reads before the cursor, ascending (the default) after it
    assert_eq!(indexer_page(&keys, Some(5), None, Some(OrderBy::Desc)), vec![4, 3, 2, 1]);
    assert_eq!(indexer_page(&keys, Some(5), Some(2), Some(OrderBy::Asc)), vec![6, 7]);
    assert_eq!(indexer_page(&keys, Some(5), Some(3), None), vec![6, 7, 8]);
    let owner_keys: Vec<u128> = vec![1, 2];
    // an owner's positions after index 1, with no order given
    assert_eq!(read_positions_with_user_indexer(&owner_keys, Some(1), None, None), vec![2]);
    assert_eq!(read_positions_with_user_indexer(&owner_keys, Some(1), None, Some(OrderBy::Asc)), vec![2]);
    assert_eq!(read_positions_with_user_indexer(&owner_keys, Some(2), None, Some(OrderBy::Desc)), vec![1]);
    assert_eq!(read_positions_with_asset_indexer(&owner_keys, None, None, None), vec![1, 2]);
    assert_eq!(read_positions_with_asset_indexer(&vec![], None, None, None), Vec::<u128>::new());
}

#[test]
fn querier_maps() {
    let mut m = AddressMap::new();
    assert_eq!(m.get(&"a".to_string()), None);
    m.insert("a".to_string(), "x".to_string());
    m.insert("a".to_string(), "y".to_string());
    assert_eq!(m.get(&"a".to_string()), Some(&"y".to_string()));

    let (u, a, p) = ("uusd".to_string(), "asset".to_string(), "pair".to_string());
    let pairs = paris_to_map(&[(&u, &a, &p)]);
    assert_eq!(pairs.get(&"uusdasset".to_string()), Some(&"pair".to_string()));
    assert_eq!(pairs.get(&"assetuusd".to_string()), None);

    let (asset, feeder) = ("mAAPL".to_string(), "feeder0000".to_string());
    let feeders = address_pair_to_map(&[(&asset, &feeder)]);
    assert_eq!(feeders.get(&"mAAPL".to_string()), Some(&"feeder0000".to_string()));

    let q = TerraswapPairQuerier::new(&[(&u, &a, &p)]);
    assert_eq!(q.pairs.get(&"uusdasset".to_string()), Some(&"pair".to_string()));
    let o = OracleQuerier::new(&[(&asset, &feeder)]);
    assert_eq!(o.feeders.get(&"mAAPL".to_string()), Some(&"feeder0000".to_string()));
}

#[test]
fn native_transfer_tax() {
    let uusd = AssetInfo::NativeToken { denom: "uusd".to_string() };
    let rate = Decimal::percent(5);
    // 500000 - 500000 / 1.05 = 23810
    assert_eq!(compute_tax(&uusd, 500_000, rate, 1_000_000), 23_810);
    // 966570 / 1.05 = 920542 arrives
    assert_eq!(deduct_tax(&uusd, 966_570, rate, 1_000_000), 920_542);
    // capped
    assert_eq!(compute_tax(&uusd, 1_000_000_000, rate, 1_000_000), 1_000_000);
    // no tax on luna or on tokens
    let luna = AssetInfo::NativeToken { denom: "uluna".to_string() };
    assert_eq!(compute_tax(&luna, 500_000, rate, 1_000_000), 0);
    let token = AssetInfo::Token { contract_addr: "asset".to_string() };
    assert_eq!(deduct_tax(&token, 500_000, rate, 1_000_000), 500_000);
}

#[test]
fn erf_plus_one_shape() {
    // at zero: exactly one, whatever the sign
    assert_eq!(erf_plus_one(Sign::Negative, Decimal::zero()), Ok(Decimal::one()));
    // positive arguments up to 3.53: between one and two, in millionths
    let mut x: u128 = 0;
    while x <= 3_535_533_906_865_475_244 {
        let r = erf_plus_one(Sign::Positive, atomics(x)).unwrap();
        assert!(r.atomics >= DECIMAL_FRACTIONAL && r.atomics <= 2 * DECIMAL_FRACTIONAL);
        assert_eq!(r.atomics % 1_000_000_000_000, 0);
        x += 97_000_000_000_000_003;
    }
    // negative arguments up to 1.414: between zero and one, in millionths
    let mut x: u128 = 0;
    while x <= 1_414_213_562_746_190_097 {
        let r = erf_plus_one(Sign::Negative, atomics(x)).unwrap();
        assert!(r.atomics <= DECIMAL_FRACTIONAL);
        assert_eq!(r.atomics % 1_000_000_000_000, 0);
        x += 41_000_000_000_000_007;
    }
}

#[test]
fn querier_tables_last_pair_wins() {
    let (a, b, c) = ("mAAPL".to_string(), "feeder0000".to_string(), "feeder0001".to_string());
    let (d, e) = ("mGOOG".to_string(), "feeder0002".to_string());
    let o = OracleQuerier::new(&[(&a, &b), (&d, &e), (&a, &c)]);
    assert_eq!(o.feeders.get(&a), Some(&c));
    assert_eq!(o.feeders.get(&d), Some(&e));
    assert_eq!(o.feeders.get(&b), None);

    let (u, x, p1, p2) = ("uusd".to_string(), "asset".to_string(), "pair1".to_string(), "pair2".to_string());
    let q = TerraswapPairQuerier::new(&[(&u, &x, &p1), (&u, &x, &p2)]);
    assert_eq!(q.pairs.get(&"uusdasset".to_string()), Some(&p2));
}
