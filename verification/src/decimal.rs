//! Fixed-point decimals with 18 fractional digits, stored as an integer count
//! of 10^-18 units ("atomics"), together with the 128-bit unsigned amount
//! arithmetic that the contracts use.
use vstd::prelude::*;

verus! {

/// 10^18: the number of atomics in one whole unit.
pub const DECIMAL_FRACTIONAL: u128 = 1_000_000_000_000_000_000u128;

/// The integer that `DECIMAL_FRACTIONAL` denotes, for specifications.
pub open spec fn frac() -> int {
    1_000_000_000_000_000_000int
}

/// `floor(a * b / c)` on mathematical integers.
pub open spec fn mul_div(a: int, b: int, c: int) -> int {
    a * b / c
}

/// Calls `cosmwasm_std::Uint128::multiply_ratio`: the full 256-bit product
/// `a * numerator` divided by `denominator`, rounded down, converted back to
/// 128 bits. The outside function panics on a zero denominator and on a
/// quotient above `u128::MAX`; `requires` rules both out.
#[verifier::external_body]
pub(crate) fn multiply_ratio(a: u128, numerator: u128, denominator: u128) -> (r: u128)
    requires
        denominator > 0,
        mul_div(a as int, numerator as int, denominator as int) <= u128::MAX,
    ensures
        r as int == mul_div(a as int, numerator as int, denominator as int),
{
    cosmwasm_std::Uint128::new(a).multiply_ratio(numerator, denominator).u128()
}

/// A non-negative fixed-point number `atomics / 10^18`.
#[derive(Clone, Copy, Debug, PartialEq, Eq, Structural)]
pub struct Decimal {
    pub atomics: u128,
}

/// Atomics of `Decimal::from_ratio(numerator, denominator)`.
pub open spec fn ratio_atomics(numerator: int, denominator: int) -> int {
    mul_div(numerator, frac(), denominator)
}

/// `amount * d` for an amount and a decimal: zero when either is zero, else
/// `floor(amount * atomics / 10^18)`.
pub open spec fn spec_uint_mul(amount: int, d: Decimal) -> int {
    if amount == 0 || d.atomics == 0 {
        0
    } else {
        mul_div(amount, d.atomics as int, frac())
    }
}

/// True when `amount * d` fits in 128 bits.
pub open spec fn uint_mul_fits(amount: int, d: Decimal) -> bool {
    spec_uint_mul(amount, d) <= u128::MAX
}

impl Decimal {
    pub fn zero() -> (r: Decimal)
        ensures
            r.atomics == 0,
    {
        Decimal { atomics: 0 }
    }

    pub fn one() -> (r: Decimal)
        ensures
            r.atomics == frac(),
    {
        Decimal { atomics: DECIMAL_FRACTIONAL }
    }

    /// `x` percent.
    pub fn percent(x: u64) -> (r: Decimal)
        ensures
            r.atomics == x * 10_000_000_000_000_000int,
    {
        assert(x * 10_000_000_000_000_000int <= u128::MAX) by (nonlinear_arith)
            requires
                x <= u64::MAX,
        ;
        Decimal { atomics: (x as u128) * 10_000_000_000_000_000u128 }
    }

    /// `x` per mille.
    pub fn permille(x: u64) -> (r: Decimal)
        ensures
            r.atomics == x * 1_000_000_000_000_000int,
    {
        assert(x * 1_000_000_000_000_000int <= u128::MAX) by (nonlinear_arith)
            requires
                x <= u64::MAX,
        ;
        Decimal { atomics: (x as u128) * 1_000_000_000_000_000u128 }
    }

    /// The decimal `numerator / denominator`, rounded down to 18 digits.
    /// Undefined, and ruled out by `requires`, for a zero denominator or a
    /// result above the largest decimal.
    pub fn from_ratio(numerator: u128, denominator: u128) -> (r: Decimal)
        requires
            denominator > 0,
            ratio_atomics(numerator as int, denominator as int) <= u128::MAX,
        ensures
            r.atomics == ratio_atomics(numerator as int, denominator as int),
    {
        Decimal { atomics: multiply_ratio(numerator, DECIMAL_FRACTIONAL, denominator) }
    }

    pub fn is_zero(&self) -> (b: bool)
        ensures
            b == (self.atomics == 0),
    {
        self.atomics == 0
    }

    /// Sum of two decimals; `requires` rules out overflow.
    pub fn add(self, other: Decimal) -> (r: Decimal)
        requires
            self.atomics + other.atomics <= u128::MAX,
        ensures
            r.atomics == self.atomics + other.atomics,
    {
        Decimal { atomics: self.atomics + other.atomics }
    }

    /// Difference of two decimals; `requires` rules out a negative one.
    pub fn sub(self, other: Decimal) -> (r: Decimal)
        requires
            other.atomics <= self.atomics,
        ensures
            r.atomics == self.atomics - other.atomics,
    {
        Decimal { atomics: self.atomics - other.atomics }
    }

    pub fn lt(&self, other: &Decimal) -> (b: bool)
        ensures
            b == (self.atomics < other.atomics),
    {
        self.atomics < other.atomics
    }

    pub fn gt(&self, other: &Decimal) -> (b: bool)
        ensures
            b == (self.atomics > other.atomics),
    {
        self.atomics > other.atomics
    }
}

/// `amount * d`: the amount scaled by the decimal, rounded down.
pub fn uint_mul(amount: u128, d: Decimal) -> (r: u128)
    requires
        uint_mul_fits(amount as int, d),
    ensures
        r as int == spec_uint_mul(amount as int, d),
{
    if amount == 0 || d.atomics == 0 {
        0
    } else {
        multiply_ratio(amount, d.atomics, DECIMAL_FRACTIONAL)
    }
}

} // verus!
