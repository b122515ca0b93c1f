//! Assets as the contracts handle them: a CW20 token (by contract address) or
//! a native coin (by denomination), with an amount.
use vstd::prelude::*;
use vstd::string::StringExecFns;
use crate::decimal::{frac, mul_div, multiply_ratio, Decimal};

verus! {

/// Which asset: a CW20 token contract or a native denomination.
#[derive(Debug)]
pub enum AssetInfo {
    Token { contract_addr: String },
    NativeToken { denom: String },
}

/// An amount of an asset.
#[derive(Debug)]
pub struct Asset {
    pub info: AssetInfo,
    pub amount: u128,
}

/// Two asset infos name the same asset: same kind, same address or denom.
pub open spec fn same_asset(a: AssetInfo, b: AssetInfo) -> bool {
    match (a, b) {
        (AssetInfo::Token { contract_addr: x }, AssetInfo::Token { contract_addr: y }) => x@ == y@,
        (AssetInfo::NativeToken { denom: x }, AssetInfo::NativeToken { denom: y }) => x@ == y@,
        _ => false,
    }
}

impl AssetInfo {
    pub open spec fn is_native(self) -> bool {
        self is NativeToken
    }

    /// True for a native coin.
    pub fn is_native_token(&self) -> (b: bool)
        ensures
            b == self.is_native(),
    {
        match self {
            AssetInfo::NativeToken { .. } => true,
            AssetInfo::Token { .. } => false,
        }
    }

    /// True when both name the same asset.
    pub fn equal(&self, other: &AssetInfo) -> (b: bool)
        ensures
            b == same_asset(*self, *other),
    {
        match (self, other) {
            (AssetInfo::Token { contract_addr: x }, AssetInfo::Token { contract_addr: y }) => {
                x.eq(y)
            },
            (AssetInfo::NativeToken { denom: x }, AssetInfo::NativeToken { denom: y }) => x.eq(y),
            _ => false,
        }
    }

    /// A copy that names the same asset.
    pub fn duplicate(&self) -> (r: AssetInfo)
        ensures
            same_asset(*self, r),
            r.is_native() == self.is_native(),
    {
        match self {
            AssetInfo::Token { contract_addr } => AssetInfo::Token {
                contract_addr: contract_addr.clone(),
            },
            AssetInfo::NativeToken { denom } => AssetInfo::NativeToken { denom: denom.clone() },
        }
    }
}


/// A native coin sent along with a message.
#[derive(Debug)]
pub struct Coin {
    pub denom: String,
    pub amount: u128,
}

/// Index of the first coin of denomination `denom`, if any.
pub open spec fn first_coin(funds: Seq<Coin>, denom: Seq<char>) -> Option<int> {
    if exists|i: int| 0 <= i < funds.len() && #[trigger] funds[i].denom@ == denom {
        Some(
            choose|i: int|
                0 <= i < funds.len() && #[trigger] funds[i].denom@ == denom && forall|j: int|
                    0 <= j < i ==> funds[j].denom@ != denom,
        )
    } else {
        None
    }
}

/// The amount of `denom` that the funds hold, looking at the first coin of
/// that denomination (zero when there is none).
pub open spec fn sent_amount(funds: Seq<Coin>, denom: Seq<char>) -> int {
    match first_coin(funds, denom) {
        Some(i) => funds[i].amount as int,
        None => 0,
    }
}

/// Finds the first coin of the given denomination.
pub fn find_coin(funds: &Vec<Coin>, denom: &String) -> (r: Option<usize>)
    ensures
        match r {
            Some(i) => first_coin(funds@, denom@) == Some(i as int) && i < funds.len(),
            None => first_coin(funds@, denom@) is None,
        },
{
    let mut i: usize = 0;
    while i < funds.len()
        invariant
            i <= funds.len(),
            forall|j: int| 0 <= j < i ==> funds@[j].denom@ != denom@,
        decreases funds.len() - i,
    {
        if funds[i].denom.eq(denom) {
            proof {
                let w = choose|k: int|
                    0 <= k < funds@.len() && #[trigger] funds@[k].denom@ == denom@ && forall|
                        j: int,
                    | 0 <= j < k ==> funds@[j].denom@ != denom@;
                assert(0 <= i < funds@.len() && funds@[i as int].denom@ == denom@ && forall|j: int|
                    0 <= j < i ==> funds@[j].denom@ != denom@);
                if w < i {
                    assert(funds@[w].denom@ != denom@);
                } else if w > i {
                    assert(funds@[i as int].denom@ != denom@);
                }
            }
            return Some(i);
        }
        i = i + 1;
    }
    None
}

/// The native amount that an asset claims must be the amount of its
/// denomination that came with the message (none counts as zero). Token
/// assets pass.
pub fn assert_sent_native_token_balance(asset: &Asset, funds: &Vec<Coin>) -> (ok: bool)
    ensures
        ok == match asset.info {
            AssetInfo::NativeToken { denom } => asset.amount == sent_amount(funds@, denom@),
            AssetInfo::Token { .. } => true,
        },
{
    match &asset.info {
        AssetInfo::NativeToken { denom } => {
            match find_coin(funds, denom) {
                Some(i) => asset.amount == funds[i].amount,
                None => asset.amount == 0,
            }
        },
        AssetInfo::Token { .. } => true,
    }
}


/// The chain's tax on sending `amount` of an asset: none for tokens and for
/// `uluna`; otherwise the part of `amount` above `amount / (1 + tax_rate)`,
/// capped at `tax_cap`.
pub open spec fn spec_tax(info: AssetInfo, amount: u128, tax_rate: Decimal, tax_cap: u128) -> int {
    match info {
        AssetInfo::NativeToken { denom } => if denom@ == "uluna"@ {
            0
        } else {
            let t = amount - mul_div(amount as int, frac(), tax_rate.atomics + frac());
            if t < tax_cap {
                t
            } else {
                tax_cap as int
            }
        },
        AssetInfo::Token { .. } => 0,
    }
}

/// Tax owed on sending `amount` of the asset, given the chain's tax rate
/// and the cap for its denomination.
pub fn compute_tax(info: &AssetInfo, amount: u128, tax_rate: Decimal, tax_cap: u128) -> (r: u128)
    requires
        tax_rate.atomics + frac() <= u128::MAX,
    ensures
        r == spec_tax(*info, amount, tax_rate, tax_cap),
        r <= amount,
{
    match info {
        AssetInfo::NativeToken { denom } => {
            let luna = <String as StringExecFns>::from_str("uluna");
            if denom.eq(&luna) {
                return 0;
            }
            let d = tax_rate.atomics + 1_000_000_000_000_000_000u128;
            assert(mul_div(amount as int, frac(), d as int) <= amount) by (nonlinear_arith)
                requires
                    d >= frac(),
                    amount >= 0,
            {
                assert(amount * frac() <= amount * d);
            }
            assert(mul_div(amount as int, frac(), d as int) >= 0) by (nonlinear_arith)
                requires
                    d >= frac(),
                    amount >= 0,
            ;
            let kept = multiply_ratio(amount, 1_000_000_000_000_000_000u128, d);
            let t = amount - kept;
            if t < tax_cap {
                t
            } else {
                tax_cap
            }
        },
        AssetInfo::Token { .. } => 0,
    }
}

/// What arrives when `amount` of the asset is sent: the amount less its tax.
pub fn deduct_tax(info: &AssetInfo, amount: u128, tax_rate: Decimal, tax_cap: u128) -> (r: u128)
    requires
        tax_rate.atomics + frac() <= u128::MAX,
    ensures
        r == amount - spec_tax(*info, amount, tax_rate, tax_cap),
{
    amount - compute_tax(info, amount, tax_rate, tax_cap)
}

} // verus!
