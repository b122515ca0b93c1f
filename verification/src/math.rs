//! The contracts' decimal helpers. They first scale a decimal to an integer
//! with nine fractional digits (`10^9 * d`, rounded down), work on those
//! integers, and convert back with `Decimal::from_ratio`, so that each result
//! keeps only nine significant fractional digits.
use vstd::prelude::*;
use crate::decimal::{
    frac, mul_div, ratio_atomics, spec_uint_mul, uint_mul, Decimal,
};

verus! {

/// 10^9, the precision that the helpers keep.
pub const MATH_FRACTIONAL: u128 = 1_000_000_000u128;

/// `10^9 * d` rounded down: the decimal as an integer count of 10^-9 units.
pub open spec fn nano_units(d: Decimal) -> int {
    spec_uint_mul(1_000_000_000int, d)
}

/// `nano_units(d) * 10^9 <= d.atomics`: scaling down never gains value.
pub proof fn lemma_nano_units_bound(d: Decimal)
    ensures
        0 <= nano_units(d),
        nano_units(d) * 1_000_000_000int <= d.atomics,
        nano_units(d) <= d.atomics,
{
    let a = d.atomics as int;
    if a != 0 {
        let t = 1_000_000_000int * a / frac();
        assert(t == nano_units(d));
        assert(0 <= t) by (nonlinear_arith)
            requires
                t == 1_000_000_000int * a / 1_000_000_000_000_000_000int,
                a >= 0,
        ;
        assert(t * 1_000_000_000_000_000_000int <= 1_000_000_000int * a) by (nonlinear_arith)
            requires
                t == 1_000_000_000int * a / 1_000_000_000_000_000_000int,
                a >= 0,
        ;
        assert(t * 1_000_000_000int <= a) by (nonlinear_arith)
            requires
                t * 1_000_000_000_000_000_000int <= 1_000_000_000int * a,
        ;
        assert(t <= a) by (nonlinear_arith)
            requires
                t * 1_000_000_000int <= a,
                t >= 0,
        ;
    }
}

/// `x * 10^18 / 10^9 == x * 10^9`.
pub proof fn lemma_ratio_by_nano(x: int)
    ensures
        ratio_atomics(x, 1_000_000_000int) == x * 1_000_000_000int,
{
    assert(x * 1_000_000_000_000_000_000int == (x * 1_000_000_000int) * 1_000_000_000int)
        by (nonlinear_arith);
    assert((x * 1_000_000_000int) * 1_000_000_000int / 1_000_000_000int == x * 1_000_000_000int)
        by (nonlinear_arith);
}

fn nano(d: Decimal) -> (r: u128)
    ensures
        r as int == nano_units(d),
{
    proof {
        lemma_nano_units_bound(d);
    }
    uint_mul(MATH_FRACTIONAL, d)
}

/// `1 / d`, computed at nine-digit precision; undefined when `10^9 * d`
/// rounds down to zero.
pub fn reverse_decimal(decimal: Decimal) -> (r: Decimal)
    requires
        nano_units(decimal) > 0,
    ensures
        r.atomics == ratio_atomics(1_000_000_000int, nano_units(decimal)),
{
    let t = nano(decimal);
    assert(ratio_atomics(1_000_000_000int, t as int) <= 1_000_000_000_000_000_000_000_000_000int)
        by (nonlinear_arith)
        requires
            t >= 1,
    ;
    Decimal::from_ratio(MATH_FRACTIONAL, t)
}

/// `a - b` at nine-digit precision; undefined when `b` exceeds `a` at that
/// precision.
pub fn decimal_subtraction(a: Decimal, b: Decimal) -> (r: Decimal)
    requires
        nano_units(b) <= nano_units(a),
    ensures
        r.atomics == (nano_units(a) - nano_units(b)) * 1_000_000_000int,
{
    let ta = nano(a);
    let tb = nano(b);
    proof {
        lemma_nano_units_bound(a);
        lemma_ratio_by_nano((ta - tb) as int);
        assert((ta - tb) * 1_000_000_000int <= ta * 1_000_000_000int) by (nonlinear_arith)
            requires
                tb >= 0,
                ta >= tb,
        ;
    }
    Decimal::from_ratio(ta - tb, MATH_FRACTIONAL)
}

/// `a / b` at nine-digit precision; undefined when `b` rounds down to zero
/// at that precision, or when the quotient is above the largest decimal.
pub fn decimal_division(a: Decimal, b: Decimal) -> (r: Decimal)
    requires
        nano_units(b) > 0,
        ratio_atomics(nano_units(a), nano_units(b)) <= u128::MAX,
    ensures
        r.atomics == ratio_atomics(nano_units(a), nano_units(b)),
{
    let ta = nano(a);
    let tb = nano(b);
    Decimal::from_ratio(ta, tb)
}

/// Atomics of `decimal_multiplication(a, b)`.
pub open spec fn spec_decimal_multiplication(a: Decimal, b: Decimal) -> int {
    spec_uint_mul(nano_units(a), b) * 1_000_000_000int
}

/// True when `decimal_multiplication(a, b)` does not overflow.
pub open spec fn decimal_multiplication_fits(a: Decimal, b: Decimal) -> bool {
    spec_decimal_multiplication(a, b) <= u128::MAX
}

/// `a * b` at nine-digit precision: `a` is first truncated to nine digits,
/// then multiplied by `b`; undefined on overflow.
pub fn decimal_multiplication(a: Decimal, b: Decimal) -> (r: Decimal)
    requires
        decimal_multiplication_fits(a, b),
    ensures
        r.atomics == spec_decimal_multiplication(a, b),
{
    let ta = nano(a);
    let ghost m0 = spec_uint_mul(ta as int, b);
    assert(m0 <= u128::MAX) by (nonlinear_arith)
        requires
            m0 >= 0,
            m0 * 1_000_000_000int <= u128::MAX,
    ;
    proof {
        if ta != 0 && b.atomics != 0 {
            assert(mul_div(ta as int, b.atomics as int, frac()) >= 0) by (nonlinear_arith)
                requires
                    ta >= 0,
                    b.atomics >= 0,
            ;
        }
    }
    let m = uint_mul(ta, b);
    proof {
        lemma_ratio_by_nano(m as int);
    }
    Decimal::from_ratio(m, MATH_FRACTIONAL)
}

/// The smaller of two decimals.
pub fn decimal_min(a: Decimal, b: Decimal) -> (r: Decimal)
    ensures
        r.atomics == if a.atomics < b.atomics { a.atomics } else { b.atomics },
{
    if a.atomics < b.atomics {
        a
    } else {
        b
    }
}


/// The result of `decimal_division(a, b)`.
pub open spec fn spec_division(a: Decimal, b: Decimal) -> Decimal {
    Decimal { atomics: ratio_atomics(nano_units(a), nano_units(b)) as u128 }
}

/// `decimal_division(a, b)` does not panic.
pub open spec fn division_fits(a: Decimal, b: Decimal) -> bool {
    nano_units(b) > 0 && ratio_atomics(nano_units(a), nano_units(b)) <= u128::MAX
}

/// The result of `reverse_decimal(d)`.
pub open spec fn spec_reverse(d: Decimal) -> Decimal {
    Decimal { atomics: ratio_atomics(1_000_000_000int, nano_units(d)) as u128 }
}

/// The result of `decimal_multiplication(a, b)`.
pub open spec fn spec_product(a: Decimal, b: Decimal) -> Decimal {
    Decimal { atomics: spec_decimal_multiplication(a, b) as u128 }
}

} // verus!
