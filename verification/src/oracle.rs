//! The oracle contract: one feeder per asset publishes its price in the
//! base asset; a price query divides the base asset's price by the quote
//! asset's (the configured base asset always costs one).
use vstd::prelude::*;
use crate::decimal::{frac, ratio_atomics, Decimal};
use crate::math::{decimal_division, division_fits, nano_units, spec_division};

verus! {

/// Why an oracle operation was refused.
#[derive(Debug, PartialEq, Eq, Structural)]
pub enum OracleError {
    Unauthorized,
    /// No feeder or price is stored for the asset.
    NotFound,
}

/// The oracle's settings.
pub struct Config {
    pub owner: String,
    pub base_asset: String,
}

/// The last price fed for an asset.
#[derive(Clone, Copy, Debug, PartialEq, Eq, Structural)]
pub struct PriceInfo {
    pub price: Decimal,
    pub last_updated_time: u64,
}

/// A price of one asset in another.
#[derive(Clone, Copy, Debug, PartialEq, Eq, Structural)]
pub struct PriceResponse {
    pub rate: Decimal,
    pub last_updated_base: u64,
    pub last_updated_quote: u64,
}

/// Changes the owner; only the owner may.
pub fn try_update_config(config: &mut Config, sender: &String, owner: Option<String>) -> (r:
    Result<(), OracleError>)
    ensures
        sender@ != old(config).owner@ ==> r == Err::<(), OracleError>(OracleError::Unauthorized)
            && *final(config) == *old(config),
        sender@ == old(config).owner@ ==> r is Ok && *final(config) == (Config {
            owner: match owner {
                Some(o) => o,
                None => old(config).owner,
            },
            base_asset: old(config).base_asset,
        }),
{
    if !sender.eq(&config.owner) {
        return Err(OracleError::Unauthorized);
    }
    if let Some(o) = owner {
        config.owner = o;
    }
    Ok(())
}

/// Registers an asset (or changes its feeder); only the owner may. Returns
/// the price record to store first for a new asset (price zero, never
/// updated), `None` for an asset that already has a feeder.
pub fn try_register_asset(config: &Config, sender: &String, has_feeder: bool) -> (r: Result<
    Option<PriceInfo>,
    OracleError,
>)
    ensures
        sender@ != config.owner@ ==> r == Err::<Option<PriceInfo>, OracleError>(
            OracleError::Unauthorized,
        ),
        sender@ == config.owner@ && has_feeder ==> r == Ok::<Option<PriceInfo>, OracleError>(
            None,
        ),
        sender@ == config.owner@ && !has_feeder ==> r == Ok::<Option<PriceInfo>, OracleError>(
            Some(PriceInfo { price: Decimal { atomics: 0 }, last_updated_time: 0 }),
        ),
{
    if !config.owner.eq(sender) {
        return Err(OracleError::Unauthorized);
    }
    if has_feeder {
        Ok(None)
    } else {
        Ok(Some(PriceInfo { price: Decimal::zero(), last_updated_time: 0 }))
    }
}

/// Feeds one asset's price: only the asset's feeder may, and the asset must
/// have a price record. Returns the new record, stamped with the time.
pub fn try_feed_price(
    sender: &String,
    feeder: Option<&String>,
    stored: Option<PriceInfo>,
    price: Decimal,
    now_seconds: u64,
) -> (r: Result<PriceInfo, OracleError>)
    ensures
        match feeder {
            None => r == Err::<PriceInfo, OracleError>(OracleError::NotFound),
            Some(f) => if f@ != sender@ {
                r == Err::<PriceInfo, OracleError>(OracleError::Unauthorized)
            } else if stored is None {
                r == Err::<PriceInfo, OracleError>(OracleError::NotFound)
            } else {
                r == Ok::<PriceInfo, OracleError>(
                    PriceInfo { price, last_updated_time: now_seconds },
                )
            },
        },
{
    let f = match feeder {
        None => {
            return Err(OracleError::NotFound);
        },
        Some(f) => f,
    };
    if !sender.eq(f) {
        return Err(OracleError::Unauthorized);
    }
    match stored {
        None => Err(OracleError::NotFound),
        Some(mut state) => {
            state.last_updated_time = now_seconds;
            state.price = price;
            Ok(state)
        },
    }
}

/// The price record used for an asset: one (never stale) for the base
/// asset, else the stored record.
pub open spec fn spec_price_record(is_base: bool, stored: Option<PriceInfo>) -> Option<PriceInfo> {
    if is_base {
        Some(PriceInfo { price: Decimal { atomics: frac() as u128 }, last_updated_time: u64::MAX })
    } else {
        stored
    }
}

fn price_record(config: &Config, asset: &String, stored: Option<PriceInfo>) -> (r: Option<
    PriceInfo,
>)
    ensures
        r == spec_price_record(config.base_asset@ == asset@, stored),
{
    if config.base_asset.eq(asset) {
        Some(PriceInfo { price: Decimal::one(), last_updated_time: u64::MAX })
    } else {
        stored
    }
}

/// The price of `base` in `quote` with both update times; the stored
/// records are needed only for assets other than the base asset (the quote
/// asset's is looked at first).
pub fn query_price(
    config: &Config,
    base: &String,
    quote: &String,
    base_stored: Option<PriceInfo>,
    quote_stored: Option<PriceInfo>,
) -> (r: Result<PriceResponse, OracleError>)
    requires
        ({
            let q = spec_price_record(config.base_asset@ == quote@, quote_stored);
            let b = spec_price_record(config.base_asset@ == base@, base_stored);
            q is Some && b is Some ==> division_fits(b->Some_0.price, q->Some_0.price)
        }),
    ensures
        ({
            let q = spec_price_record(config.base_asset@ == quote@, quote_stored);
            let b = spec_price_record(config.base_asset@ == base@, base_stored);
            if q is None || b is None {
                r == Err::<PriceResponse, OracleError>(OracleError::NotFound)
            } else {
                r == Ok::<PriceResponse, OracleError>(
                    PriceResponse {
                        rate: spec_division(b->Some_0.price, q->Some_0.price),
                        last_updated_base: b->Some_0.last_updated_time,
                        last_updated_quote: q->Some_0.last_updated_time,
                    },
                )
            }
        }),
{
    let quote_price = match price_record(config, quote, quote_stored) {
        Some(p) => p,
        None => {
            return Err(OracleError::NotFound);
        },
    };
    let base_price = match price_record(config, base, base_stored) {
        Some(p) => p,
        None => {
            return Err(OracleError::NotFound);
        },
    };
    Ok(
        PriceResponse {
            rate: decimal_division(base_price.price, quote_price.price),
            last_updated_base: base_price.last_updated_time,
            last_updated_quote: quote_price.last_updated_time,
        },
    )
}


/// A price fed for an asset is what a query of it in the base asset gives
/// back, stamped with the feed time, for prices of at most nine decimals
/// (the division keeps nine).
pub proof fn lemma_query_gives_back_fed_price(config: Config, asset: String, price: Decimal, now_seconds: u64)
    requires
        asset@ != config.base_asset@,
        price.atomics % 1_000_000_000 == 0,
    ensures
        ({
            let fed = PriceInfo { price, last_updated_time: now_seconds };
            let q = spec_price_record(config.base_asset@ == config.base_asset@, None);
            let b = spec_price_record(config.base_asset@ == asset@, Some(fed));
            &&& q is Some && b is Some
            &&& division_fits(b->Some_0.price, q->Some_0.price)
            &&& spec_division(b->Some_0.price, q->Some_0.price) == price
            &&& b->Some_0.last_updated_time == now_seconds
            &&& q->Some_0.last_updated_time == u64::MAX
        }),
{
    let n: int = price.atomics as int / 1_000_000_000int;
    let a: int = price.atomics as int;
    assert(a == n * 1_000_000_000int);
    assert(1_000_000_000int * a / 1_000_000_000_000_000_000int == n) by (nonlinear_arith)
        requires
            a == n * 1_000_000_000int,
    ;
    assert(nano_units(price) == n);
    assert(nano_units(Decimal { atomics: frac() as u128 }) == 1_000_000_000);
    assert(n * 1_000_000_000_000_000_000int / 1_000_000_000int == n * 1_000_000_000int)
        by (nonlinear_arith);
}

} // verus!
