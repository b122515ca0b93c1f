//! The router: planning the swaps that buy an asset along a route, and the
//! amounts used when buying or minting an asset and staking it as liquidity.
use vstd::prelude::*;
use crate::asset::{AssetInfo, same_asset};
use crate::decimal::{ratio_atomics, spec_uint_mul, uint_mul, uint_mul_fits, Decimal};
use crate::math::{
    decimal_multiplication, decimal_multiplication_fits, nano_units, reverse_decimal,
    spec_product, spec_reverse,
};

verus! {

/// Why a router operation was refused.
#[derive(Debug, PartialEq, Eq, Structural)]
pub enum RouterError {
    Unauthorized,
    /// No base denomination came with the message.
    ZeroBalance,
    /// A route must name at least one asset.
    EmptyRoutes,
    /// A tax exceeded the amount it is taken from.
    Overflow,
}

/// Calls `integer_sqrt::IntegerSquareRoot::integer_sqrt` on a `u128`: the
/// integer square root, the largest `r` with `r * r <= n`. It only panics on
/// negative numbers, which a `u128` is not.
#[verifier::external_body]
fn integer_sqrt(n: u128) -> (r: u128)
    ensures
        r * r <= n < (r + 1) * (r + 1),
{
    integer_sqrt::IntegerSquareRoot::integer_sqrt(&n)
}

/// Operations the router schedules on itself may only come from itself.
pub fn assert_self_call(sender: &String, contract: &String) -> (r: Result<(), RouterError>)
    ensures
        r is Ok <==> sender@ == contract@,
        r is Err ==> r == Err::<(), RouterError>(RouterError::Unauthorized),
{
    if sender.eq(contract) {
        Ok(())
    } else {
        Err(RouterError::Unauthorized)
    }
}

/// The base coins of a buy-and-stake request, net of the tax of sending half
/// of them twice, and the part to swap for the asset:
/// `isqrt(pool * (pool + deposit)) - pool`, which leaves the pool's price
/// where the remaining coins and the bought asset can be provided together.
pub fn buy_and_stake_amounts(sent: u128, tax_on_half: u128, native_pool_balance: u128) -> (r:
    Result<(u128, u128), RouterError>)
    requires
        sent != 0 ==> tax_on_half * 2 <= sent,
        sent != 0 ==> native_pool_balance + (sent - tax_on_half * 2) <= u128::MAX,
        sent != 0 ==> native_pool_balance * (native_pool_balance + (sent - tax_on_half * 2))
            <= u128::MAX,
    ensures
        sent == 0 ==> r == Err::<(u128, u128), RouterError>(RouterError::ZeroBalance),
        sent != 0 ==> r is Ok && ({
            let deposit = sent - tax_on_half * 2;
            let swap = r->Ok_0.1;
            let pool = native_pool_balance;
            &&& r->Ok_0.0 == deposit
            &&& (pool + swap) * (pool + swap) <= pool * (pool + deposit)
            &&& pool * (pool + deposit) < (pool + swap + 1) * (pool + swap + 1)
            &&& swap <= deposit
        }),
{
    if sent == 0 {
        return Err(RouterError::ZeroBalance);
    }
    let deposit = sent - tax_on_half * 2;
    let pool = native_pool_balance;
    let product = pool * (pool + deposit);
    let root = integer_sqrt(product);
    proof {
        assert(pool * pool <= pool * (pool + deposit)) by (nonlinear_arith)
            requires
                deposit >= 0,
                pool >= 0,
        ;
        assert(pool * (pool + deposit) <= (pool + deposit) * (pool + deposit)) by (nonlinear_arith)
            requires
                deposit >= 0,
                pool >= 0,
        ;
        if root < pool {
            assert((root + 1) * (root + 1) <= pool * pool) by (nonlinear_arith)
                requires
                    root + 1 <= pool,
                    root >= 0,
            ;
        }
        if root > pool + deposit {
            assert((pool + deposit + 1) * (pool + deposit + 1) <= root * root) by (nonlinear_arith)
                requires
                    root >= pool + deposit + 1,
                    pool + deposit >= 0,
            ;
            assert((pool + deposit) * (pool + deposit) < (pool + deposit + 1) * (pool + deposit + 1))
                by (nonlinear_arith)
                requires
                    pool + deposit >= 0,
            ;
        }
    }
    let swap = root - pool;
    assert(pool + swap == root);
    assert((pool + swap) * (pool + swap) == root * root);
    assert((pool + swap + 1) * (pool + swap + 1) == (root + 1) * (root + 1));
    Ok((deposit, swap))
}

/// The base coins of a mint-and-stake request, net of the tax of sending
/// half of them twice; refused when no base coins came with it.
pub fn mint_and_stake_amount(sent: u128, tax_on_half: u128) -> (r: Result<u128, RouterError>)
    requires
        sent != 0 ==> tax_on_half * 2 <= sent,
    ensures
        sent == 0 ==> r == Err::<u128, RouterError>(RouterError::ZeroBalance),
        sent != 0 ==> r == Ok::<u128, RouterError>((sent - tax_on_half * 2) as u128),
{
    if sent == 0 {
        return Err(RouterError::ZeroBalance);
    }
    Ok(sent - tax_on_half * 2)
}

/// The collateral to open a position with when minting and staking `amount`
/// of base coins: the share `p / (p + q)` of it, for `p` the oracle price
/// times the collateral ratio and `q` the pair's price, so that the rest
/// matches the minted asset in the pair.
pub open spec fn spec_mint_collateral(
    amount: u128,
    oracle_price: Decimal,
    collateral_ratio: Decimal,
    native_balance_pair: u128,
    asset_balance_pair: u128,
) -> int {
    let p = spec_product(oracle_price, collateral_ratio);
    let q = Decimal {
        atomics: ratio_atomics(native_balance_pair as int, asset_balance_pair as int) as u128,
    };
    let sum = Decimal { atomics: (p.atomics + q.atomics) as u128 };
    spec_uint_mul(amount as int, spec_product(p, spec_reverse(sum)))
}

/// `mint_and_stake_collateral` does not panic.
pub open spec fn mint_collateral_fits(
    amount: u128,
    oracle_price: Decimal,
    collateral_ratio: Decimal,
    native_balance_pair: u128,
    asset_balance_pair: u128,
) -> bool {
    let p = spec_product(oracle_price, collateral_ratio);
    let q = Decimal {
        atomics: ratio_atomics(native_balance_pair as int, asset_balance_pair as int) as u128,
    };
    let sum = Decimal { atomics: (p.atomics + q.atomics) as u128 };
    &&& asset_balance_pair > 0
    &&& ratio_atomics(native_balance_pair as int, asset_balance_pair as int) <= u128::MAX
    &&& decimal_multiplication_fits(oracle_price, collateral_ratio)
    &&& p.atomics + q.atomics <= u128::MAX
    &&& nano_units(sum) > 0
    &&& decimal_multiplication_fits(p, spec_reverse(sum))
    &&& uint_mul_fits(amount as int, spec_product(p, spec_reverse(sum)))
}

/// Collateral for a mint-and-stake of `amount` base coins (see
/// `spec_mint_collateral`).
pub fn mint_and_stake_collateral(
    amount: u128,
    oracle_price: Decimal,
    collateral_ratio: Decimal,
    native_balance_pair: u128,
    asset_balance_pair: u128,
) -> (r: u128)
    requires
        mint_collateral_fits(
            amount,
            oracle_price,
            collateral_ratio,
            native_balance_pair,
            asset_balance_pair,
        ),
    ensures
        r == spec_mint_collateral(
            amount,
            oracle_price,
            collateral_ratio,
            native_balance_pair,
            asset_balance_pair,
        ),
{
    let pair_price = Decimal::from_ratio(native_balance_pair, asset_balance_pair);
    let price = decimal_multiplication(oracle_price, collateral_ratio);
    let share = decimal_multiplication(price, reverse_decimal(price.add(pair_price)));
    uint_mul(amount, share)
}

/// Base coins that `asset_balance` is worth at the pair's price.
pub open spec fn provide_required(asset_balance: u128, native_balance_pair: u128, asset_balance_pair: u128) -> int {
    spec_uint_mul(
        asset_balance as int,
        Decimal {
            atomics: ratio_atomics(native_balance_pair as int, asset_balance_pair as int) as u128,
        },
    )
}

/// Asset that `native_balance` is worth at the pair's price.
pub open spec fn provide_matching_asset(native_balance: u128, native_balance_pair: u128, asset_balance_pair: u128) -> int {
    spec_uint_mul(
        native_balance as int,
        Decimal {
            atomics: ratio_atomics(asset_balance_pair as int, native_balance_pair as int) as u128,
        },
    )
}

/// The base coins and asset to provide as liquidity from the router's
/// balances, after the tax on sending the coins, in the pair's proportion:
/// all the asset if the coins suffice, else all the coins. Refused when the
/// tax exceeds the coins. Undefined (ruled out by `requires`) when the pair
/// holds none of the asset (or, when the coins fall short, none of the coins).
pub fn provide_amounts(
    native_balance: u128,
    tax_amount: u128,
    asset_balance: u128,
    native_balance_pair: u128,
    asset_balance_pair: u128,
) -> (r: Result<(u128, u128), RouterError>)
    requires
        tax_amount <= native_balance ==> asset_balance_pair > 0,
        tax_amount <= native_balance ==> ratio_atomics(
            native_balance_pair as int,
            asset_balance_pair as int,
        ) <= u128::MAX,
        tax_amount <= native_balance ==> provide_required(
            asset_balance,
            native_balance_pair,
            asset_balance_pair,
        ) <= u128::MAX,
        tax_amount <= native_balance && native_balance - tax_amount < provide_required(
            asset_balance,
            native_balance_pair,
            asset_balance_pair,
        ) ==> native_balance_pair > 0 && ratio_atomics(
            asset_balance_pair as int,
            native_balance_pair as int,
        ) <= u128::MAX && provide_matching_asset(
            (native_balance - tax_amount) as u128,
            native_balance_pair,
            asset_balance_pair,
        ) <= u128::MAX,
    ensures
        ({
            let native = native_balance - tax_amount;
            let required = provide_required(asset_balance, native_balance_pair, asset_balance_pair);
            if tax_amount > native_balance {
                r == Err::<(u128, u128), RouterError>(RouterError::Overflow)
            } else if native < required {
                r == Ok::<(u128, u128), RouterError>(
                    (
                        native as u128,
                        provide_matching_asset(
                            native as u128,
                            native_balance_pair,
                            asset_balance_pair,
                        ) as u128,
                    ),
                )
            } else {
                r == Ok::<(u128, u128), RouterError>((required as u128, asset_balance))
            }
        }),
{
    if tax_amount > native_balance {
        return Err(RouterError::Overflow);
    }
    let native = native_balance - tax_amount;
    let required = uint_mul(
        asset_balance,
        Decimal::from_ratio(native_balance_pair, asset_balance_pair),
    );
    if native < required {
        Ok(
            (
                native,
                uint_mul(native, Decimal::from_ratio(asset_balance_pair, native_balance_pair)),
            ),
        )
    } else {
        Ok((required, asset_balance))
    }
}

/// What staking the bought liquidity hands back to the staker: the base
/// coins left (less the tax on sending them) and the asset left, each only
/// when there is any. Refused when the tax exceeds the coins.
pub fn stake_refunds(native_balance: u128, tax_amount: u128, asset_balance: u128) -> (r: Result<
    (Option<u128>, Option<u128>),
    RouterError,
>)
    ensures
        native_balance != 0 && tax_amount > native_balance ==> r == Err::<
            (Option<u128>, Option<u128>),
            RouterError,
        >(RouterError::Overflow),
        !(native_balance != 0 && tax_amount > native_balance) ==> r == Ok::<
            (Option<u128>, Option<u128>),
            RouterError,
        >(
            (
                if native_balance == 0 {
                    None
                } else {
                    Some((native_balance - tax_amount) as u128)
                },
                if asset_balance == 0 {
                    None
                } else {
                    Some(asset_balance)
                },
            ),
        ),
{
    let native = if native_balance == 0 {
        None
    } else {
        if tax_amount > native_balance {
            return Err(RouterError::Overflow);
        }
        Some(native_balance - tax_amount)
    };
    let asset = if asset_balance == 0 {
        None
    } else {
        Some(asset_balance)
    };
    Ok((native, asset))
}

/// One swap of a route: offer one asset for the next, sending the result to
/// the buyer on the last step.
#[derive(Debug)]
pub struct BuyStep {
    pub offer_asset_info: AssetInfo,
    pub ask_asset_info: AssetInfo,
    pub to_sender: bool,
}

/// Plans the swaps that buy along `routes`: step `i` offers what step `i - 1`
/// asked for (the offered asset first), asks for `routes[i]`, and only the
/// last step pays the buyer.
pub fn buy_with_routes(offer_asset_info: AssetInfo, routes: Vec<AssetInfo>) -> (r: Result<
    Vec<BuyStep>,
    RouterError,
>)
    ensures
        routes.len() == 0 ==> r == Err::<Vec<BuyStep>, RouterError>(RouterError::EmptyRoutes),
        routes.len() > 0 ==> r is Ok && ({
            let steps = r->Ok_0@;
            &&& steps.len() == routes.len()
            &&& same_asset(steps[0].offer_asset_info, offer_asset_info)
            &&& forall|i: int|
                0 < i < steps.len() ==> same_asset(
                    #[trigger] steps[i].offer_asset_info,
                    routes@[i - 1],
                )
            &&& forall|i: int|
                0 <= i < steps.len() ==> same_asset(#[trigger] steps[i].ask_asset_info, routes@[i])
            &&& forall|i: int|
                0 <= i < steps.len() ==> #[trigger] steps[i].to_sender == (i == steps.len() - 1)
        }),
{
    let n = routes.len();
    if n == 0 {
        return Err(RouterError::EmptyRoutes);
    }
    let mut steps: Vec<BuyStep> = Vec::new();
    let mut offer = offer_asset_info;
    let mut i: usize = 0;
    while i < n
        invariant
            n == routes.len(),
            n > 0,
            i <= n,
            steps.len() == i,
            i == 0 ==> same_asset(offer, offer_asset_info),
            i > 0 ==> same_asset(offer, routes@[i - 1]),
            i > 0 ==> same_asset(steps@[0].offer_asset_info, offer_asset_info),
            forall|k: int|
                0 < k < i ==> same_asset(#[trigger] steps@[k].offer_asset_info, routes@[k - 1]),
            forall|k: int|
                0 <= k < i ==> same_asset(#[trigger] steps@[k].ask_asset_info, routes@[k]),
            forall|k: int| 0 <= k < i ==> #[trigger] steps@[k].to_sender == (k == n - 1),
        decreases n - i,
    {
        let ask = routes[i].duplicate();
        let next_offer = routes[i].duplicate();
        steps.push(BuyStep { offer_asset_info: offer, ask_asset_info: ask, to_sender: i == n - 1 });
        offer = next_offer;
        i = i + 1;
    }
    Ok(steps)
}

} // verus!
