//! The short reward contract: the share of staking rewards that goes to
//! short positions, `(1 + erf((100 * premium - 2) / sqrt 2)) / 5` (40% above
//! a 7% premium). The error function is approximated by
//! `erf(x) ~ 1 - 1 / (1 + a1 x + ... + a6 x^6)^16` on nine-digit decimals,
//! with signs tracked separately, and the result is kept to six digits.
use vstd::prelude::*;
use crate::decimal::{frac, ratio_atomics, spec_uint_mul, uint_mul, Decimal};
use crate::math::{
    decimal_division, decimal_multiplication, decimal_multiplication_fits, division_fits,
    lemma_nano_units_bound, nano_units, reverse_decimal, spec_decimal_multiplication,
    spec_division, spec_product, spec_reverse,
};
use crate::staking::{lemma_nano_units_monotone, lemma_uint_mul_monotone};

verus! {

/// Sign of a value whose magnitude is kept as a decimal.
#[derive(Clone, Copy, Debug, PartialEq, Eq, Structural)]
pub enum Sign {
    Positive,
    Negative,
}

/// A subtraction went below zero.
#[derive(Debug, PartialEq, Eq, Structural)]
pub enum ShortRewardError {
    Overflow,
}

/// `a - b` at nine-digit precision, as a decimal.
pub open spec fn spec_sub(a: Decimal, b: Decimal) -> Decimal {
    Decimal { atomics: ((nano_units(a) - nano_units(b)) * 1_000_000_000int) as u128 }
}

/// `a - b` at nine-digit precision; refused when `b` is the larger.
pub fn decimal_subtraction(a: Decimal, b: Decimal) -> (r: Result<Decimal, ShortRewardError>)
    ensures
        nano_units(b) <= nano_units(a) ==> r == Ok::<Decimal, ShortRewardError>(spec_sub(a, b)),
        nano_units(b) > nano_units(a) ==> r == Err::<Decimal, ShortRewardError>(
            ShortRewardError::Overflow,
        ),
{
    let ta = uint_mul(1_000_000_000u128, a);
    let tb = uint_mul(1_000_000_000u128, b);
    proof {
        lemma_nano_units_bound(a);
        lemma_nano_units_bound(b);
    }
    if ta < tb {
        return Err(ShortRewardError::Overflow);
    }
    Ok(crate::math::decimal_subtraction(a, b))
}

/// `a * b` when it does not overflow.
pub open spec fn opt_mul(a: Decimal, b: Decimal) -> Option<Decimal> {
    if decimal_multiplication_fits(a, b) {
        Some(spec_product(a, b))
    } else {
        None
    }
}

/// `a + b` when it does not overflow.
pub open spec fn opt_add(a: Decimal, b: Decimal) -> Option<Decimal> {
    if a.atomics + b.atomics <= u128::MAX {
        Some(Decimal { atomics: (a.atomics + b.atomics) as u128 })
    } else {
        None
    }
}

/// The sign of a product whose factors have signs `s` and `sign_x`.
pub open spec fn product_sign(s: Sign, sign_x: Sign) -> Sign {
    if s == sign_x {
        Sign::Positive
    } else {
        Sign::Negative
    }
}

/// `(s1 num1 + s2 num2) * (sign_x x)` as a sign and a magnitude; `None` when
/// a step overflows.
pub open spec fn spec_sum_and_multiply_x(
    sign_1: Sign,
    sign_2: Sign,
    sign_x: Sign,
    num1: Decimal,
    num2: Decimal,
    x: Decimal,
) -> Option<(Sign, Decimal)> {
    if sign_1 == sign_2 {
        match opt_add(num1, num2) {
            Some(s) => match opt_mul(s, x) {
                Some(v) => Some((product_sign(sign_1, sign_x), v)),
                None => None,
            },
            None => None,
        }
    } else if num1.atomics > num2.atomics {
        match opt_mul(spec_sub(num1, num2), x) {
            Some(v) => Some((product_sign(sign_1, sign_x), v)),
            None => None,
        }
    } else {
        match opt_mul(spec_sub(num2, num1), x) {
            Some(v) => Some((product_sign(sign_2, sign_x), v)),
            None => None,
        }
    }
}

fn sign_eq(a: Sign, b: Sign) -> (r: bool)
    ensures
        r == (a == b),
{
    match (a, b) {
        (Sign::Positive, Sign::Positive) => true,
        (Sign::Negative, Sign::Negative) => true,
        _ => false,
    }
}

/// Adds two signed magnitudes and multiplies the sum by a signed `x`.
pub fn sum_and_multiply_x(
    sign_1: Sign,
    sign_2: Sign,
    sign_x: Sign,
    num1: Decimal,
    num2: Decimal,
    x: Decimal,
) -> (r: Result<(Sign, Decimal), ShortRewardError>)
    requires
        spec_sum_and_multiply_x(sign_1, sign_2, sign_x, num1, num2, x) is Some,
    ensures
        r == Ok::<(Sign, Decimal), ShortRewardError>(
            spec_sum_and_multiply_x(sign_1, sign_2, sign_x, num1, num2, x)->Some_0,
        ),
{
    let sign = if sign_eq(sign_1, sign_2) {
        sign_1
    } else if num1.gt(&num2) {
        sign_1
    } else {
        sign_2
    };
    let out_sign = if sign_eq(sign, sign_x) {
        Sign::Positive
    } else {
        Sign::Negative
    };
    if sign_eq(sign_1, sign_2) {
        let val = decimal_multiplication(num1.add(num2), x);
        Ok((out_sign, val))
    } else if num1.gt(&num2) {
        proof {
            lemma_nano_units_monotone(num2, num1);
        }
        let diff = match decimal_subtraction(num1, num2) {
            Ok(d) => d,
            Err(e) => {
                return Err(e);
            },
        };
        Ok((out_sign, decimal_multiplication(diff, x)))
    } else {
        proof {
            lemma_nano_units_monotone(num1, num2);
        }
        let diff = match decimal_subtraction(num2, num1) {
            Ok(d) => d,
            Err(e) => {
                return Err(e);
            },
        };
        Ok((out_sign, decimal_multiplication(diff, x)))
    }
}


/// The polynomial coefficients `a1 .. a6` of the approximation, each
/// `k / 10^10`.
pub open spec fn coefficient(k: int) -> Decimal {
    Decimal { atomics: ratio_atomics(k, 10_000_000_000int) as u128 }
}

/// `(sign_x x) * (a6 (sign_x x) + a5) * ...`: one Horner step of the
/// polynomial with coefficient `a`, continuing from `(s, n)`.
#[verifier::opaque]
pub open spec fn horner_step(p: Option<(Sign, Decimal)>, sign_x: Sign, a: Decimal, x: Decimal) -> Option<
    (Sign, Decimal),
> {
    match p {
        Some((s, n)) => spec_sum_and_multiply_x(s, Sign::Positive, sign_x, n, a, x),
        None => None,
    }
}

/// `a1 y + a2 y^2 + ... + a6 y^6` for `y = sign_x * x`, as a sign and a
/// magnitude, evaluated by Horner's rule; `None` when a step overflows.
pub open spec fn spec_erf_polynomial(sign_x: Sign, x: Decimal) -> Option<(Sign, Decimal)> {
    let start = match opt_mul(coefficient(430638), x) {
        Some(n) => Some((sign_x, n)),
        None => None,
    };
    let p5 = horner_step(start, sign_x, coefficient(2765672), x);
    let p4 = horner_step(p5, sign_x, coefficient(1520143), x);
    let p3 = horner_step(p4, sign_x, coefficient(92705272), x);
    let p2 = horner_step(p3, sign_x, coefficient(422820123), x);
    horner_step(p2, sign_x, coefficient(705230784), x)
}

/// `|1 + (sign) num|`.
pub open spec fn spec_one_plus(sign: Sign, num: Decimal) -> Option<Decimal> {
    let one = Decimal { atomics: frac() as u128 };
    if sign == Sign::Positive {
        opt_add(num, one)
    } else if num.atomics > one.atomics {
        Some(spec_sub(num, one))
    } else {
        Some(spec_sub(one, num))
    }
}

/// `n^16` by repeated squaring.
pub open spec fn spec_pow16(n: Decimal) -> Option<Decimal> {
    match opt_mul(n, n) {
        Some(n2) => match opt_mul(n2, n2) {
            Some(n4) => match opt_mul(n4, n4) {
                Some(n8) => opt_mul(n8, n8),
                None => None,
            },
            None => None,
        },
        None => None,
    }
}

/// `2 - 1 / base^16`, zero when that is negative, kept to six digits.
pub open spec fn spec_erf_tail(base: Decimal) -> Option<Decimal> {
    let two = Decimal { atomics: (2 * frac()) as u128 };
    match spec_pow16(base) {
        Some(n16) => if nano_units(n16) == 0 {
            None
        } else if spec_reverse(n16).atomics > two.atomics {
            Some(Decimal { atomics: 0 })
        } else {
            let e = spec_sub(two, spec_reverse(n16));
            Some(
                Decimal {
                    atomics: ratio_atomics(spec_uint_mul(1_000_000int, e), 1_000_000int) as u128,
                },
            )
        },
        None => None,
    }
}

/// `1 + erf(sign_x x)` as computed by `erf_plus_one`; `None` when the
/// computation overflows or divides by zero.
pub open spec fn spec_erf_plus_one(sign_x: Sign, x: Decimal) -> Option<Decimal> {
    match spec_erf_polynomial(sign_x, x) {
        Some((s, n)) => match spec_one_plus(s, n) {
            Some(b) => spec_erf_tail(b),
            None => None,
        },
        None => None,
    }
}

fn coefficient_value(k: u128) -> (r: Decimal)
    requires
        k <= 1_000_000_000,
    ensures
        r == coefficient(k as int),
{
    assert(ratio_atomics(k as int, 10_000_000_000int) <= u128::MAX) by (nonlinear_arith)
        requires
            0 <= k <= 1_000_000_000,
    ;
    Decimal::from_ratio(k, 10_000_000_000u128)
}

fn horner(p: (Sign, Decimal), sign_x: Sign, a: Decimal, x: Decimal) -> (r: Result<
    (Sign, Decimal),
    ShortRewardError,
>)
    requires
        horner_step(Some(p), sign_x, a, x) is Some,
    ensures
        r == Ok::<(Sign, Decimal), ShortRewardError>(horner_step(Some(p), sign_x, a, x)->Some_0),
{
    proof {
        reveal(horner_step);
    }
    sum_and_multiply_x(p.0, Sign::Positive, sign_x, p.1, a, x)
}

fn mul_checked(a: Decimal, b: Decimal) -> (r: Decimal)
    requires
        opt_mul(a, b) is Some,
    ensures
        r == opt_mul(a, b)->Some_0,
{
    decimal_multiplication(a, b)
}

/// `1 + erf(sign_x x)`, approximated as described in the module
/// documentation (maximum error about `3 * 10^-7`, hence six digits).
pub fn erf_plus_one(sign_x: Sign, x: Decimal) -> (r: Result<Decimal, ShortRewardError>)
    requires
        spec_erf_plus_one(sign_x, x) is Some,
    ensures
        r == Ok::<Decimal, ShortRewardError>(spec_erf_plus_one(sign_x, x)->Some_0),
{
    proof {
        reveal(horner_step);
    }
    let a1 = coefficient_value(705230784);
    let a2 = coefficient_value(422820123);
    let a3 = coefficient_value(92705272);
    let a4 = coefficient_value(1520143);
    let a5 = coefficient_value(2765672);
    let a6 = coefficient_value(430638);
    let one = Decimal::one();
    let two = one.add(one);
    let n0 = mul_checked(a6, x);
    let p = match horner((sign_x, n0), sign_x, a5, x) {
        Ok(v) => v,
        Err(e) => {
            return Err(e);
        },
    };
    let p = match horner(p, sign_x, a4, x) {
        Ok(v) => v,
        Err(e) => {
            return Err(e);
        },
    };
    let p = match horner(p, sign_x, a3, x) {
        Ok(v) => v,
        Err(e) => {
            return Err(e);
        },
    };
    let p = match horner(p, sign_x, a2, x) {
        Ok(v) => v,
        Err(e) => {
            return Err(e);
        },
    };
    let (sign, num) = match horner(p, sign_x, a1, x) {
        Ok(v) => v,
        Err(e) => {
            return Err(e);
        },
    };
    let num = if sign_eq(sign, Sign::Positive) {
        num.add(one)
    } else if num.gt(&one) {
        proof {
            lemma_nano_units_monotone(one, num);
        }
        match decimal_subtraction(num, one) {
            Ok(d) => d,
            Err(e) => {
                return Err(e);
            },
        }
    } else {
        proof {
            lemma_nano_units_monotone(num, one);
        }
        match decimal_subtraction(one, num) {
            Ok(d) => d,
            Err(e) => {
                return Err(e);
            },
        }
    };
    let num2 = mul_checked(num, num);
    let num4 = mul_checked(num2, num2);
    let num8 = mul_checked(num4, num4);
    let num16 = mul_checked(num8, num8);
    let reverse_num16 = reverse_decimal(num16);
    if reverse_num16.gt(&two) {
        return Ok(Decimal::zero());
    }
    proof {
        lemma_nano_units_monotone(reverse_num16, two);
    }
    let erf = match decimal_subtraction(two, reverse_num16) {
        Ok(d) => d,
        Err(e) => {
            return Err(e);
        },
    };
    proof {
        lemma_micro_units_bound(erf);
    }
    let micro = uint_mul(1_000_000u128, erf);
    Ok(Decimal::from_ratio(micro, 1_000_000u128))
}

/// Keeping six digits never gains value: `floor(10^6 d / 10^18) * 10^18 / 10^6 <= d`.
pub proof fn lemma_micro_units_bound(d: Decimal)
    ensures
        0 <= spec_uint_mul(1_000_000int, d),
        ratio_atomics(spec_uint_mul(1_000_000int, d), 1_000_000int) <= d.atomics,
{
    let a = d.atomics as int;
    let t = spec_uint_mul(1_000_000int, d);
    if a != 0 {
        assert(t == 1_000_000int * a / frac());
        assert(0 <= t && t * 1_000_000_000_000_000_000int <= 1_000_000int * a) by (nonlinear_arith)
            requires
                t == 1_000_000int * a / 1_000_000_000_000_000_000int,
                a >= 0,
        ;
    }
    assert(t * 1_000_000_000_000_000_000int / 1_000_000int == t * 1_000_000_000_000int)
        by (nonlinear_arith);
    assert(t * 1_000_000_000_000int <= a) by (nonlinear_arith)
        requires
            t * 1_000_000_000_000_000_000int <= 1_000_000int * a,
    ;
}


/// The argument of the error function for a premium:
/// `(100 * premium - 2) / sqrt 2` as a sign and a magnitude.
pub open spec fn spec_erf_argument(premium_rate: Decimal) -> Option<(Sign, Decimal)> {
    let hundred = Decimal { atomics: (100 * frac()) as u128 };
    let two = Decimal { atomics: (2 * frac()) as u128 };
    let sqrt_two = Decimal { atomics: ratio_atomics(14142135624int, 10_000_000_000int) as u128 };
    match opt_mul(premium_rate, hundred) {
        Some(p) => if p.atomics > two.atomics {
            if division_fits(spec_sub(p, two), sqrt_two) {
                Some((Sign::Positive, spec_division(spec_sub(p, two), sqrt_two)))
            } else {
                None
            }
        } else {
            if division_fits(spec_sub(two, p), sqrt_two) {
                Some((Sign::Negative, spec_division(spec_sub(two, p), sqrt_two)))
            } else {
                None
            }
        },
        None => None,
    }
}

/// The short reward weight for a premium: 40% above a 7% premium, else
/// `(1 + erf((100 * premium - 2) / sqrt 2)) / 5`; `None` when the
/// computation overflows or divides by zero.
pub open spec fn spec_short_reward_weight(premium_rate: Decimal) -> Option<Decimal> {
    let five = Decimal { atomics: (5 * frac()) as u128 };
    if premium_rate.atomics > 70_000_000_000_000_000 {
        Some(Decimal { atomics: 400_000_000_000_000_000 })
    } else {
        match spec_erf_argument(premium_rate) {
            Some((sign, x)) => match spec_erf_plus_one(sign, x) {
                Some(e) => if division_fits(e, five) {
                    Some(spec_division(e, five))
                } else {
                    None
                },
                None => None,
            },
            None => None,
        }
    }
}

/// The share of rewards paid to short positions of an asset trading at the
/// given premium over its oracle price.
pub fn query_short_reward_weight(premium_rate: Decimal) -> (r: Result<Decimal, ShortRewardError>)
    ensures
        spec_short_reward_weight(premium_rate) is Some,
        r == Ok::<Decimal, ShortRewardError>(spec_short_reward_weight(premium_rate)->Some_0),
        r->Ok_0.atomics <= 400_000_000_000_000_000,
{
    proof {
        lemma_short_reward_weight_defined(premium_rate);
        lemma_short_reward_weight_at_most_forty_percent(premium_rate);
    }
    if premium_rate.gt(&Decimal::percent(7)) {
        return Ok(Decimal::percent(40));
    }
    let one = Decimal::one();
    let two = one.add(one);
    let sqrt_two = Decimal::from_ratio(14142135624u128, 10_000_000_000u128);
    let p = mul_checked(premium_rate, Decimal::from_ratio(100u128, 1u128));
    let (sign_x, x) = if p.gt(&two) {
        proof {
            lemma_nano_units_monotone(two, p);
        }
        let diff = match decimal_subtraction(p, two) {
            Ok(d) => d,
            Err(e) => {
                return Err(e);
            },
        };
        (Sign::Positive, decimal_division(diff, sqrt_two))
    } else {
        proof {
            lemma_nano_units_monotone(p, two);
        }
        let diff = match decimal_subtraction(two, p) {
            Ok(d) => d,
            Err(e) => {
                return Err(e);
            },
        };
        (Sign::Negative, decimal_division(diff, sqrt_two))
    };
    let e = match erf_plus_one(sign_x, x) {
        Ok(v) => v,
        Err(err) => {
            return Err(err);
        },
    };
    Ok(decimal_division(e, Decimal::from_ratio(5u128, 1u128)))
}


/// `1 + erf(x)` as computed never exceeds two.
pub proof fn lemma_erf_plus_one_at_most_two(sign_x: Sign, x: Decimal)
    ensures
        spec_erf_plus_one(sign_x, x) matches Some(e) ==> e.atomics <= 2 * frac(),
{
    match spec_erf_polynomial(sign_x, x) {
        Some((s, n)) => match spec_one_plus(s, n) {
            Some(b) => match spec_pow16(b) {
                Some(n16) => {
                    if nano_units(n16) != 0 && spec_reverse(n16).atomics <= 2 * frac() {
                        let two = Decimal { atomics: (2 * frac()) as u128 };
                        let e = spec_sub(two, spec_reverse(n16));
                        lemma_nano_units_bound(two);
                        lemma_nano_units_bound(spec_reverse(n16));
                        assert(nano_units(two) == 2_000_000_000);
                        assert(e.atomics <= 2 * frac()) by (nonlinear_arith)
                            requires
                                e.atomics == (nano_units(two) - nano_units(spec_reverse(n16)))
                                    * 1_000_000_000int,
                                nano_units(two) == 2_000_000_000,
                                nano_units(spec_reverse(n16)) >= 0,
                        ;
                        lemma_micro_units_bound(e);
                    }
                },
                None => {},
            },
            None => {},
        },
        None => {},
    }
}

/// The short reward weight is at most 40%, whatever the premium.
pub proof fn lemma_short_reward_weight_at_most_forty_percent(premium_rate: Decimal)
    ensures
        spec_short_reward_weight(premium_rate) matches Some(w) ==> w.atomics
            <= 400_000_000_000_000_000,
{
    let five = Decimal { atomics: (5 * frac()) as u128 };
    if premium_rate.atomics <= 70_000_000_000_000_000 {
        match spec_erf_argument(premium_rate) {
            Some((sign, x)) => match spec_erf_plus_one(sign, x) {
                Some(e) => {
                    lemma_erf_plus_one_at_most_two(sign, x);
                    lemma_nano_units_bound(e);
                    assert(nano_units(five) == 5_000_000_000);
                    let ne = nano_units(e);
                    assert(ne <= 2_000_000_000) by (nonlinear_arith)
                        requires
                            ne * 1_000_000_000int <= e.atomics,
                            e.atomics <= 2_000_000_000_000_000_000int,
                    ;
                    assert(ne * 1_000_000_000_000_000_000int / 5_000_000_000int
                        <= 400_000_000_000_000_000int) by (nonlinear_arith)
                        requires
                            0 <= ne <= 2_000_000_000,
                    ;
                },
                None => {},
            },
            None => {},
        }
    }
}


/// `amount * d` grows with `amount`.
proof fn lemma_uint_mul_monotone_amount(a1: int, a2: int, d: Decimal)
    requires
        0 <= a1 <= a2,
    ensures
        0 <= spec_uint_mul(a1, d) <= spec_uint_mul(a2, d),
{
    if a1 != 0 && d.atomics != 0 {
        assert(0 <= a1 * d.atomics <= a2 * d.atomics) by (nonlinear_arith)
            requires
                0 <= a1 <= a2,
                d.atomics >= 0,
        ;
        assert(0 <= a1 * d.atomics / frac() <= a2 * d.atomics / frac()) by (nonlinear_arith)
            requires
                0 <= a1 * d.atomics <= a2 * d.atomics,
        ;
    } else if d.atomics != 0 && a2 != 0 {
        assert(a2 * d.atomics / frac() >= 0) by (nonlinear_arith)
            requires
                a2 >= 0,
                d.atomics >= 0,
        ;
    }
}

/// The nine-digit product grows with both factors.
proof fn lemma_mult_monotone(a: Decimal, b: Decimal, c: Decimal, d: Decimal)
    requires
        a.atomics <= c.atomics,
        b.atomics <= d.atomics,
    ensures
        0 <= spec_decimal_multiplication(a, b) <= spec_decimal_multiplication(c, d),
{
    lemma_nano_units_monotone(a, c);
    lemma_nano_units_bound(a);
    lemma_uint_mul_monotone_amount(nano_units(a), nano_units(c), b);
    lemma_uint_mul_monotone(nano_units(c), b, d);
}

/// One Horner step from a magnitude at most `nb`, with `x` at most `xb`,
/// stays within `out`, the product of the bounds; a positive running sign
/// stays positive for a positive `x`.
proof fn lemma_horner_bound(
    s: Sign,
    n: Decimal,
    sign_x: Sign,
    a: Decimal,
    x: Decimal,
    nb: u128,
    xb: u128,
    out: int,
)
    requires
        n.atomics <= nb,
        x.atomics <= xb,
        nb + a.atomics <= u128::MAX,
        out == spec_decimal_multiplication(
            Decimal { atomics: (nb + a.atomics) as u128 },
            Decimal { atomics: xb },
        ),
        out <= u128::MAX,
    ensures
        horner_step(Some((s, n)), sign_x, a, x) is Some,
        horner_step(Some((s, n)), sign_x, a, x)->Some_0.1.atomics <= out,
        s == Sign::Positive && sign_x == Sign::Positive ==> horner_step(
            Some((s, n)),
            sign_x,
            a,
            x,
        )->Some_0.0 == Sign::Positive,
{
    reveal(horner_step);
    let bound = Decimal { atomics: (nb + a.atomics) as u128 };
    let xbd = Decimal { atomics: xb };
    lemma_nano_units_bound(n);
    lemma_nano_units_bound(a);
    if s == Sign::Positive {
        let sum = Decimal { atomics: (n.atomics + a.atomics) as u128 };
        lemma_mult_monotone(sum, x, bound, xbd);
    } else if n.atomics > a.atomics {
        lemma_nano_units_monotone(a, n);
        lemma_mult_monotone(spec_sub(n, a), x, bound, xbd);
    } else {
        lemma_nano_units_monotone(n, a);
        lemma_mult_monotone(spec_sub(a, n), x, bound, xbd);
    }
}


/// `10^9 * (k / 10^9)` read back to nine digits is `k`.
proof fn lemma_nano_of_nano_multiple(k: int)
    requires
        0 <= k,
        k * 1_000_000_000 <= u128::MAX,
    ensures
        nano_units(Decimal { atomics: (k * 1_000_000_000) as u128 }) == k,
{
    if k != 0 {
        assert(1_000_000_000int * (k * 1_000_000_000int) / 1_000_000_000_000_000_000int == k)
            by (nonlinear_arith)
            requires
                k > 0,
        {
            assert(1_000_000_000int * (k * 1_000_000_000int) == k * 1_000_000_000_000_000_000int);
        }
    }
}

/// `n * 10^18 / d` grows with `n`.
proof fn lemma_ratio_monotone(n1: int, n2: int, d: int)
    requires
        0 <= n1 <= n2,
        d > 0,
    ensures
        0 <= ratio_atomics(n1, d) <= ratio_atomics(n2, d),
{
    assert(0 <= n1 * 1_000_000_000_000_000_000int <= n2 * 1_000_000_000_000_000_000int)
        by (nonlinear_arith)
        requires
            0 <= n1 <= n2,
    ;
    assert(0 <= n1 * 1_000_000_000_000_000_000int / d <= n2 * 1_000_000_000_000_000_000int / d)
        by (nonlinear_arith)
        requires
            0 <= n1 * 1_000_000_000_000_000_000int <= n2 * 1_000_000_000_000_000_000int,
            d > 0,
    ;
}

/// The coefficient that Horner step `k` (1 to 5) adds: `a5 .. a1`.
spec fn poly_coef(k: nat) -> Decimal {
    if k == 1 {
        coefficient(2765672)
    } else if k == 2 {
        coefficient(1520143)
    } else if k == 3 {
        coefficient(92705272)
    } else if k == 4 {
        coefficient(422820123)
    } else {
        coefficient(705230784)
    }
}

/// The polynomial after `k` Horner steps.
spec fn poly_prefix(sign_x: Sign, x: Decimal, k: nat) -> Option<(Sign, Decimal)>
    decreases k,
{
    if k == 0 {
        match opt_mul(coefficient(430638), x) {
            Some(n) => Some((sign_x, n)),
            None => None,
        }
    } else {
        horner_step(poly_prefix(sign_x, x, (k - 1) as nat), sign_x, poly_coef(k), x)
    }
}

proof fn lemma_poly_prefix_full(sign_x: Sign, x: Decimal)
    ensures
        spec_erf_polynomial(sign_x, x) == poly_prefix(sign_x, x, 5),
{
    reveal_with_fuel(poly_prefix, 6);
}

/// Step `k` of the polynomial stays within `out` when step `k - 1` stayed
/// within `nb` and `x` within `xb`.
proof fn lemma_prefix_step(sign_x: Sign, x: Decimal, k: nat, nb: u128, ab: u128, xb: u128, out: u128)
    requires
        1 <= k <= 5,
        poly_prefix(sign_x, x, (k - 1) as nat) is Some,
        poly_prefix(sign_x, x, (k - 1) as nat)->Some_0.1.atomics <= nb,
        x.atomics <= xb,
        poly_coef(k).atomics == ab,
        nb + ab <= u128::MAX,
        spec_decimal_multiplication(Decimal { atomics: (nb + ab) as u128 }, Decimal { atomics: xb })
            == out,
    ensures
        poly_prefix(sign_x, x, k) is Some,
        poly_prefix(sign_x, x, k)->Some_0.1.atomics <= out,
        poly_prefix(sign_x, x, (k - 1) as nat)->Some_0.0 == Sign::Positive && sign_x
            == Sign::Positive ==> poly_prefix(sign_x, x, k)->Some_0.0 == Sign::Positive,
{
    let p = poly_prefix(sign_x, x, (k - 1) as nat)->Some_0;
    assert(poly_prefix(sign_x, x, k) == horner_step(Some(p), sign_x, poly_coef(k), x));
    lemma_horner_bound(p.0, p.1, sign_x, poly_coef(k), x, nb, xb, out as int);
}

/// For `x` up to about 3.54 (a premium up to 7%), the polynomial of the
/// approximation stays positive and below 1.449.
/// The bounds of the polynomial's steps for `x` up to about 3.54.
proof fn lemma_positive_step_constants()
    ensures
        coefficient(430638).atomics == 43063800000000,
        spec_decimal_multiplication(coefficient(430638), Decimal { atomics: 3535533906865475244 }) == 152250000000000,
        poly_coef(1).atomics == 276567200000000,
        spec_decimal_multiplication(Decimal { atomics: 428817200000000 }, Decimal { atomics: 3535533906865475244 }) == 1516097000000000,
        poly_coef(2).atomics == 152014300000000,
        spec_decimal_multiplication(Decimal { atomics: 1668111300000000 }, Decimal { atomics: 3535533906865475244 }) == 5897663000000000,
        poly_coef(3).atomics == 9270527200000000,
        spec_decimal_multiplication(Decimal { atomics: 15168190200000000 }, Decimal { atomics: 3535533906865475244 }) == 53627650000000000,
        poly_coef(4).atomics == 42282012300000000,
        spec_decimal_multiplication(Decimal { atomics: 95909662300000000 }, Decimal { atomics: 3535533906865475244 }) == 339091861000000000,
        poly_coef(5).atomics == 70523078400000000,
        spec_decimal_multiplication(Decimal { atomics: 409614939400000000 }, Decimal { atomics: 3535533906865475244 }) == 1448207505000000000,
{
    assert(nano_units(coefficient(430638)) == 43063);
    assert(spec_uint_mul(43063, Decimal { atomics: 3535533906865475244 }) == 152250);
    assert(nano_units(Decimal { atomics: 428817200000000 }) == 428817);
    assert(spec_uint_mul(428817, Decimal { atomics: 3535533906865475244 }) == 1516097);
    assert(nano_units(Decimal { atomics: 1668111300000000 }) == 1668111);
    assert(spec_uint_mul(1668111, Decimal { atomics: 3535533906865475244 }) == 5897663);
    assert(nano_units(Decimal { atomics: 15168190200000000 }) == 15168190);
    assert(spec_uint_mul(15168190, Decimal { atomics: 3535533906865475244 }) == 53627650);
    assert(nano_units(Decimal { atomics: 95909662300000000 }) == 95909662);
    assert(spec_uint_mul(95909662, Decimal { atomics: 3535533906865475244 }) == 339091861);
    assert(nano_units(Decimal { atomics: 409614939400000000 }) == 409614939);
    assert(spec_uint_mul(409614939, Decimal { atomics: 3535533906865475244 }) == 1448207505);
}

proof fn lemma_polynomial_positive(x: Decimal)
    requires
        x.atomics <= 3535533906865475244,
    ensures
        spec_erf_polynomial(Sign::Positive, x) is Some,
        spec_erf_polynomial(Sign::Positive, x)->Some_0.0 == Sign::Positive,
        spec_erf_polynomial(Sign::Positive, x)->Some_0.1.atomics <= 1448207505000000000,
{
    let sx = Sign::Positive;
    let xb: u128 = 3535533906865475244;
    let a6 = coefficient(430638);
    lemma_positive_step_constants();
    lemma_mult_monotone(a6, x, a6, Decimal { atomics: xb });
    assert(poly_prefix(sx, x, 0) is Some && poly_prefix(sx, x, 0)->Some_0.1.atomics <= 152250000000000);
    lemma_prefix_step(sx, x, 1, 152250000000000, 276567200000000, xb, 1516097000000000);
    lemma_prefix_step(sx, x, 2, 1516097000000000, 152014300000000, xb, 5897663000000000);
    lemma_prefix_step(sx, x, 3, 5897663000000000, 9270527200000000, xb, 53627650000000000);
    lemma_prefix_step(sx, x, 4, 53627650000000000, 42282012300000000, xb, 339091861000000000);
    lemma_prefix_step(sx, x, 5, 339091861000000000, 70523078400000000, xb, 1448207505000000000);
    lemma_poly_prefix_full(sx, x);
}

/// The bounds of the polynomial's steps for `x` up to about 1.414.
proof fn lemma_negative_step_constants()
    ensures
        coefficient(430638).atomics == 43063800000000,
        spec_decimal_multiplication(coefficient(430638), Decimal { atomics: 1414213562746190097 }) == 60900000000000,
        poly_coef(1).atomics == 276567200000000,
        spec_decimal_multiplication(Decimal { atomics: 337467200000000 }, Decimal { atomics: 1414213562746190097 }) == 477250000000000,
        poly_coef(2).atomics == 152014300000000,
        spec_decimal_multiplication(Decimal { atomics: 629264300000000 }, Decimal { atomics: 1414213562746190097 }) == 889913000000000,
        poly_coef(3).atomics == 9270527200000000,
        spec_decimal_multiplication(Decimal { atomics: 10160440200000000 }, Decimal { atomics: 1414213562746190097 }) == 14369032000000000,
        poly_coef(4).atomics == 42282012300000000,
        spec_decimal_multiplication(Decimal { atomics: 56651044300000000 }, Decimal { atomics: 1414213562746190097 }) == 80116674000000000,
        poly_coef(5).atomics == 70523078400000000,
        spec_decimal_multiplication(Decimal { atomics: 150639752400000000 }, Decimal { atomics: 1414213562746190097 }) == 213036780000000000,
{
    assert(nano_units(coefficient(430638)) == 43063);
    assert(spec_uint_mul(43063, Decimal { atomics: 1414213562746190097 }) == 60900);
    assert(nano_units(Decimal { atomics: 337467200000000 }) == 337467);
    assert(spec_uint_mul(337467, Decimal { atomics: 1414213562746190097 }) == 477250);
    assert(nano_units(Decimal { atomics: 629264300000000 }) == 629264);
    assert(spec_uint_mul(629264, Decimal { atomics: 1414213562746190097 }) == 889913);
    assert(nano_units(Decimal { atomics: 10160440200000000 }) == 10160440);
    assert(spec_uint_mul(10160440, Decimal { atomics: 1414213562746190097 }) == 14369032);
    assert(nano_units(Decimal { atomics: 56651044300000000 }) == 56651044);
    assert(spec_uint_mul(56651044, Decimal { atomics: 1414213562746190097 }) == 80116674);
    assert(nano_units(Decimal { atomics: 150639752400000000 }) == 150639752);
    assert(spec_uint_mul(150639752, Decimal { atomics: 1414213562746190097 }) == 213036780);
}

/// For `x` up to about 1.414 (a premium at most 2%), the polynomial of a
/// negative argument is negative, with a magnitude below 0.214.
proof fn lemma_polynomial_negative(x: Decimal)
    requires
        x.atomics <= 1414213562746190097,
    ensures
        spec_erf_polynomial(Sign::Negative, x) is Some,
        spec_erf_polynomial(Sign::Negative, x)->Some_0.0 == Sign::Negative,
        spec_erf_polynomial(Sign::Negative, x)->Some_0.1.atomics <= 213036780000000000,
{
    let sx = Sign::Negative;
    let xb: u128 = 1414213562746190097;
    let a6 = coefficient(430638);
    lemma_negative_step_constants();
    lemma_mult_monotone(a6, x, a6, Decimal { atomics: xb });
    assert(poly_prefix(sx, x, 0) is Some && poly_prefix(sx, x, 0)->Some_0.1.atomics <= 60900000000000);
    lemma_prefix_step(sx, x, 1, 60900000000000, 276567200000000, xb, 477250000000000);
    lemma_prefix_step(sx, x, 2, 477250000000000, 152014300000000, xb, 889913000000000);
    lemma_prefix_step(sx, x, 3, 889913000000000, 9270527200000000, xb, 14369032000000000);
    lemma_prefix_step(sx, x, 4, 14369032000000000, 42282012300000000, xb, 80116674000000000);
    lemma_prefix_step(sx, x, 5, 80116674000000000, 70523078400000000, xb, 213036780000000000);
    lemma_poly_prefix_full(sx, x);
    // the sign: steps 3 to 5 each add a coefficient larger than what came before
    let p2 = poly_prefix(sx, x, 2)->Some_0;
    let p3 = poly_prefix(sx, x, 3)->Some_0;
    let p4 = poly_prefix(sx, x, 4)->Some_0;
    let a2 = poly_coef(4);
    reveal(horner_step);
    assert(poly_prefix(sx, x, 3) == horner_step(Some(p2), sx, poly_coef(3), x));
    assert(p3.0 == Sign::Negative);
    assert(poly_prefix(sx, x, 4) == horner_step(Some(p3), sx, a2, x));
    lemma_nano_units_bound(a2);
    lemma_nano_units_bound(p3.1);
    lemma_nano_units_monotone(p3.1, a2);
    assert(spec_sub(a2, p3.1).atomics <= a2.atomics);
    lemma_mult_monotone(spec_sub(a2, p3.1), x, a2, Decimal { atomics: xb });
    assert(nano_units(a2) == 42282012);
    assert(spec_uint_mul(42282012, Decimal { atomics: xb }) == 59795794);
    assert(p4.0 == Sign::Negative);
    assert(p4.1.atomics <= 59795794000000000);
    assert(poly_prefix(sx, x, 5) == horner_step(Some(p4), sx, poly_coef(5), x));
}

/// The powers of the base of the approximation stay between these bounds.
proof fn lemma_pow_constants()
    ensures
        spec_decimal_multiplication(Decimal { atomics: 2448207505000000000 }, Decimal { atomics: 2448207505000000000 }) == 5993719987000000000,
        spec_decimal_multiplication(Decimal { atomics: 5993719987000000000 }, Decimal { atomics: 5993719987000000000 }) == 35924679282000000000,
        spec_decimal_multiplication(Decimal { atomics: 35924679282000000000 }, Decimal { atomics: 35924679282000000000 }) == 1290582581514000000000,
        spec_decimal_multiplication(Decimal { atomics: 1290582581514000000000 }, Decimal { atomics: 1290582581514000000000 }) == 1665603399707340000000000,
        spec_decimal_multiplication(Decimal { atomics: 786963220000000000 }, Decimal { atomics: 786963220000000000 }) == 619311109000000000,
        spec_decimal_multiplication(Decimal { atomics: 619311109000000000 }, Decimal { atomics: 619311109000000000 }) == 383546249000000000,
        spec_decimal_multiplication(Decimal { atomics: 383546249000000000 }, Decimal { atomics: 383546249000000000 }) == 147107725000000000,
        spec_decimal_multiplication(Decimal { atomics: 147107725000000000 }, Decimal { atomics: 147107725000000000 }) == 21640682000000000,
        nano_units(Decimal { atomics: 21640682000000000 }) == 21640682,
{
    assert(nano_units(Decimal { atomics: 2448207505000000000 }) == 2448207505);
    assert(spec_uint_mul(2448207505, Decimal { atomics: 2448207505000000000 }) == 5993719987);
    assert(nano_units(Decimal { atomics: 5993719987000000000 }) == 5993719987);
    assert(spec_uint_mul(5993719987, Decimal { atomics: 5993719987000000000 }) == 35924679282);
    assert(nano_units(Decimal { atomics: 35924679282000000000 }) == 35924679282);
    assert(spec_uint_mul(35924679282, Decimal { atomics: 35924679282000000000 }) == 1290582581514);
    assert(nano_units(Decimal { atomics: 1290582581514000000000 }) == 1290582581514);
    assert(spec_uint_mul(1290582581514, Decimal { atomics: 1290582581514000000000 }) == 1665603399707340);
    assert(nano_units(Decimal { atomics: 786963220000000000 }) == 786963220);
    assert(spec_uint_mul(786963220, Decimal { atomics: 786963220000000000 }) == 619311109);
    assert(nano_units(Decimal { atomics: 619311109000000000 }) == 619311109);
    assert(spec_uint_mul(619311109, Decimal { atomics: 619311109000000000 }) == 383546249);
    assert(nano_units(Decimal { atomics: 383546249000000000 }) == 383546249);
    assert(spec_uint_mul(383546249, Decimal { atomics: 383546249000000000 }) == 147107725);
    assert(nano_units(Decimal { atomics: 147107725000000000 }) == 147107725);
    assert(spec_uint_mul(147107725, Decimal { atomics: 147107725000000000 }) == 21640682);
}

/// `n^16` is defined, and not below `10^-9`, for `n` between 0.78 and 2.45.
proof fn lemma_pow16_defined(b: Decimal)
    requires
        786963220000000000 <= b.atomics <= 2448207505000000000,
    ensures
        spec_pow16(b) is Some,
        nano_units(spec_pow16(b)->Some_0) > 0,
{
    lemma_pow_constants();
    let lo = Decimal { atomics: 786963220000000000 };
    let hi = Decimal { atomics: 2448207505000000000 };
    lemma_mult_monotone(b, b, hi, hi);
    lemma_mult_monotone(lo, lo, b, b);
    let n2 = spec_product(b, b);
    let lo2 = Decimal { atomics: 619311109000000000 };
    let hi2 = Decimal { atomics: 5993719987000000000 };
    lemma_mult_monotone(n2, n2, hi2, hi2);
    lemma_mult_monotone(lo2, lo2, n2, n2);
    let n4 = spec_product(n2, n2);
    let lo4 = Decimal { atomics: 383546249000000000 };
    let hi4 = Decimal { atomics: 35924679282000000000 };
    lemma_mult_monotone(n4, n4, hi4, hi4);
    lemma_mult_monotone(lo4, lo4, n4, n4);
    let n8 = spec_product(n4, n4);
    let lo8 = Decimal { atomics: 147107725000000000 };
    let hi8 = Decimal { atomics: 1290582581514000000000 };
    lemma_mult_monotone(n8, n8, hi8, hi8);
    lemma_mult_monotone(lo8, lo8, n8, n8);
    let n16 = spec_product(n8, n8);
    lemma_nano_units_monotone(Decimal { atomics: 21640682000000000 }, n16);
}

/// For a premium of at most 7%, the argument of the error function is
/// defined, below about 3.54 when positive and about 1.414 when negative.
proof fn lemma_erf_argument_bounds(premium_rate: Decimal)
    requires
        premium_rate.atomics <= 70_000_000_000_000_000,
    ensures
        spec_erf_argument(premium_rate) is Some,
        spec_erf_argument(premium_rate)->Some_0.0 == Sign::Positive ==> spec_erf_argument(
            premium_rate,
        )->Some_0.1.atomics <= 3535533906865475244,
        spec_erf_argument(premium_rate)->Some_0.0 == Sign::Negative ==> spec_erf_argument(
            premium_rate,
        )->Some_0.1.atomics <= 1414213562746190097,
{
    let hundred = Decimal { atomics: (100 * frac()) as u128 };
    let two = Decimal { atomics: (2 * frac()) as u128 };
    let sqrt_two = Decimal { atomics: ratio_atomics(14142135624int, 10_000_000_000int) as u128 };
    let seven = Decimal { atomics: 7_000_000_000_000_000_000 };
    assert(nano_units(Decimal { atomics: 70_000_000_000_000_000 }) == 70_000_000);
    assert(spec_uint_mul(70_000_000, hundred) == 7_000_000_000);
    lemma_mult_monotone(premium_rate, hundred, Decimal { atomics: 70_000_000_000_000_000 }, hundred);
    let p = spec_product(premium_rate, hundred);
    assert(p.atomics <= seven.atomics);
    assert(nano_units(seven) == 7_000_000_000);
    assert(nano_units(two) == 2_000_000_000);
    assert(sqrt_two.atomics == 1414213562400000000);
    assert(nano_units(sqrt_two) == 1414213562);
    lemma_nano_units_monotone(p, seven);
    lemma_nano_units_bound(p);
    if p.atomics > two.atomics {
        lemma_nano_units_monotone(two, p);
        let k = nano_units(p) - 2_000_000_000;
        lemma_nano_of_nano_multiple(k);
        lemma_ratio_monotone(k, 5_000_000_000, 1414213562);
        assert(ratio_atomics(5_000_000_000, 1414213562) == 3535533906865475244);
    } else {
        lemma_nano_units_monotone(p, two);
        let k = 2_000_000_000 - nano_units(p);
        lemma_nano_of_nano_multiple(k);
        lemma_ratio_monotone(k, 2_000_000_000, 1414213562);
        assert(ratio_atomics(2_000_000_000, 1414213562) == 1414213562746190097);
    }
}

/// The base `1 + polynomial` of the approximation lies between 0.78 and
/// 2.45 for the arguments of premiums up to 7%.
proof fn lemma_base_bounds(sign_x: Sign, x: Decimal)
    requires
        sign_x == Sign::Positive ==> x.atomics <= 3535533906865475244,
        sign_x == Sign::Negative ==> x.atomics <= 1414213562746190097,
    ensures
        spec_erf_polynomial(sign_x, x) is Some,
        spec_one_plus(spec_erf_polynomial(sign_x, x)->Some_0.0, spec_erf_polynomial(sign_x, x)->Some_0.1)
            is Some,
        786963220000000000 <= spec_one_plus(
            spec_erf_polynomial(sign_x, x)->Some_0.0,
            spec_erf_polynomial(sign_x, x)->Some_0.1,
        )->Some_0.atomics <= 2448207505000000000,
{
    if sign_x == Sign::Positive {
        lemma_polynomial_positive(x);
    } else {
        lemma_polynomial_negative(x);
        let n = spec_erf_polynomial(sign_x, x)->Some_0.1;
        let one = Decimal { atomics: frac() as u128 };
        lemma_nano_units_monotone(n, Decimal { atomics: 213036780000000000 });
        assert(nano_units(Decimal { atomics: 213036780000000000 }) == 213036780);
        assert(nano_units(one) == 1_000_000_000);
        lemma_nano_units_bound(n);
    }
}

/// Squaring at nine digits keeps a decimal on its side of one.
proof fn lemma_square_side_of_one(a: Decimal)
    ensures
        a.atomics >= frac() ==> spec_decimal_multiplication(a, a) >= frac(),
        a.atomics <= frac() ==> spec_decimal_multiplication(a, a) <= frac(),
{
    let one = Decimal { atomics: 1_000_000_000_000_000_000 };
    assert(nano_units(one) == 1_000_000_000);
    assert(spec_uint_mul(1_000_000_000, one) == 1_000_000_000);
    assert(spec_decimal_multiplication(one, one) == frac());
    if a.atomics >= frac() {
        lemma_mult_monotone(one, one, a, a);
    }
    if a.atomics <= frac() {
        lemma_mult_monotone(a, a, one, one);
    }
}

/// `b^16` stays on the side of one that `b` is on.
proof fn lemma_pow16_side_of_one(b: Decimal)
    requires
        spec_pow16(b) is Some,
    ensures
        b.atomics >= frac() ==> spec_pow16(b)->Some_0.atomics >= frac(),
        b.atomics <= frac() ==> spec_pow16(b)->Some_0.atomics <= frac(),
{
    let n2 = spec_product(b, b);
    let n4 = spec_product(n2, n2);
    let n8 = spec_product(n4, n4);
    lemma_square_side_of_one(b);
    lemma_square_side_of_one(n2);
    lemma_square_side_of_one(n4);
    lemma_square_side_of_one(n8);
}

/// The last part of the approximation, `2 - 1 / base^16` kept to six
/// digits, for a base between 0.78 and 2.45: defined, between 0 and 2, a
/// whole number of millionths, at least one for a base of at least one and
/// at most one for a base of at most one.
proof fn lemma_tail_shape(base: Decimal)
    requires
        786963220000000000 <= base.atomics <= 2448207505000000000,
    ensures
        spec_erf_tail(base) is Some,
        spec_erf_tail(base)->Some_0.atomics <= 2 * frac(),
        spec_erf_tail(base)->Some_0.atomics % 1_000_000_000_000 == 0,
        base.atomics >= frac() ==> spec_erf_tail(base)->Some_0.atomics >= frac(),
        base.atomics <= frac() ==> spec_erf_tail(base)->Some_0.atomics <= frac(),
{
    lemma_pow16_defined(base);
    lemma_pow16_side_of_one(base);
    let n16 = spec_pow16(base)->Some_0;
    let one = Decimal { atomics: 1_000_000_000_000_000_000 };
    let two = Decimal { atomics: 2_000_000_000_000_000_000 };
    assert(nano_units(one) == 1_000_000_000);
    assert(nano_units(two) == 2_000_000_000);
    let k = nano_units(n16);
    let rev = spec_reverse(n16);
    lemma_nano_units_bound(n16);
    if base.atomics >= frac() {
        lemma_nano_units_monotone(one, n16);
        assert(1_000_000_000int * 1_000_000_000_000_000_000int / k <= 1_000_000_000_000_000_000int)
            by (nonlinear_arith)
            requires
                k >= 1_000_000_000,
        ;
        assert(rev.atomics <= frac());
        lemma_nano_units_monotone(rev, one);
    }
    if base.atomics <= frac() {
        lemma_nano_units_monotone(n16, one);
        assert(1_000_000_000int * 1_000_000_000_000_000_000int / k >= 1_000_000_000_000_000_000int)
            by (nonlinear_arith)
            requires
                1 <= k <= 1_000_000_000,
        ;
        assert(1_000_000_000int * 1_000_000_000_000_000_000int / k <= 1_000_000_000int
            * 1_000_000_000_000_000_000int) by (nonlinear_arith)
            requires
                1 <= k,
        ;
        assert(rev.atomics >= frac());
        lemma_nano_units_monotone(one, rev);
    }
    if rev.atomics <= two.atomics {
        let e = spec_sub(two, rev);
        lemma_nano_units_bound(rev);
        lemma_nano_units_monotone(rev, two);
        assert(e.atomics <= 2 * frac());
        lemma_micro_units_bound(e);
        let u = spec_uint_mul(1_000_000int, e);
        assert(u * 1_000_000_000_000_000_000int / 1_000_000int == u * 1_000_000_000_000int)
            by (nonlinear_arith);
        assert((u * 1_000_000_000_000int) % 1_000_000_000_000 == 0) by (nonlinear_arith)
            requires
                u >= 0,
        ;
        if base.atomics >= frac() {
            assert(e.atomics >= frac());
            assert(1_000_000int * e.atomics / frac() >= 1_000_000) by (nonlinear_arith)
                requires
                    e.atomics >= 1_000_000_000_000_000_000int,
            ;
            assert(u >= 1_000_000);
        }
    }
}

/// On the arguments of premiums up to 7%, `1 + erf` as computed is
/// defined, lies between 0 and 2, and is a whole number of millionths; it
/// is at least one for a positive argument, at most one for a negative one,
/// and exactly one at zero.
pub proof fn lemma_erf_plus_one_shape(sign_x: Sign, x: Decimal)
    requires
        sign_x == Sign::Positive ==> x.atomics <= 3535533906865475244,
        sign_x == Sign::Negative ==> x.atomics <= 1414213562746190097,
    ensures
        spec_erf_plus_one(sign_x, x) is Some,
        spec_erf_plus_one(sign_x, x)->Some_0.atomics <= 2 * frac(),
        spec_erf_plus_one(sign_x, x)->Some_0.atomics % 1_000_000_000_000 == 0,
        sign_x == Sign::Positive ==> spec_erf_plus_one(sign_x, x)->Some_0.atomics >= frac(),
        sign_x == Sign::Negative ==> spec_erf_plus_one(sign_x, x)->Some_0.atomics <= frac(),
        x.atomics == 0 ==> spec_erf_plus_one(sign_x, x)->Some_0.atomics == frac(),
{
    lemma_base_bounds(sign_x, x);
    let poly = spec_erf_polynomial(sign_x, x)->Some_0;
    let base = spec_one_plus(poly.0, poly.1)->Some_0;
    lemma_tail_shape(base);
    let one = Decimal { atomics: 1_000_000_000_000_000_000 };
    assert(nano_units(one) == 1_000_000_000);
    if sign_x == Sign::Positive {
        lemma_polynomial_positive(x);
        assert(base.atomics >= frac());
    } else {
        lemma_polynomial_negative(x);
        lemma_nano_units_bound(poly.1);
        assert(base.atomics <= frac());
    }
    if x.atomics == 0 {
        let sx = sign_x;
        let z = Decimal { atomics: 0 };
        assert(x == z);
        lemma_mult_monotone(coefficient(430638), x, coefficient(430638), z);
        assert(spec_decimal_multiplication(coefficient(430638), z) == 0);
        assert(poly_prefix(sx, x, 0) is Some && poly_prefix(sx, x, 0)->Some_0.1.atomics <= 0);
        lemma_positive_step_constants();
        assert(spec_decimal_multiplication(Decimal { atomics: poly_coef(1).atomics }, z) == 0);
        assert(spec_decimal_multiplication(Decimal { atomics: poly_coef(2).atomics }, z) == 0);
        assert(spec_decimal_multiplication(Decimal { atomics: poly_coef(3).atomics }, z) == 0);
        assert(spec_decimal_multiplication(Decimal { atomics: poly_coef(4).atomics }, z) == 0);
        assert(spec_decimal_multiplication(Decimal { atomics: poly_coef(5).atomics }, z) == 0);
        lemma_prefix_step(sx, x, 1, 0, poly_coef(1).atomics, 0, 0);
        lemma_prefix_step(sx, x, 2, 0, poly_coef(2).atomics, 0, 0);
        lemma_prefix_step(sx, x, 3, 0, poly_coef(3).atomics, 0, 0);
        lemma_prefix_step(sx, x, 4, 0, poly_coef(4).atomics, 0, 0);
        lemma_prefix_step(sx, x, 5, 0, poly_coef(5).atomics, 0, 0);
        lemma_poly_prefix_full(sx, x);
        assert(poly.1.atomics == 0);
        assert(nano_units(poly.1) == 0);
        assert(base.atomics == frac());
    }
}

/// The curve's fixed points: above a 7% premium the weight is 40%, and at
/// a 2% premium, where the argument of the error function is zero, it is
/// 20%.
pub proof fn lemma_short_reward_weight_points(premium_rate: Decimal)
    ensures
        premium_rate.atomics > 70_000_000_000_000_000 ==> spec_short_reward_weight(premium_rate)
            == Some(Decimal { atomics: 400_000_000_000_000_000 }),
        premium_rate.atomics == 20_000_000_000_000_000 ==> spec_short_reward_weight(premium_rate)
            == Some(Decimal { atomics: 200_000_000_000_000_000 }),
{
    if premium_rate.atomics == 20_000_000_000_000_000 {
        let hundred = Decimal { atomics: (100 * frac()) as u128 };
        let two = Decimal { atomics: (2 * frac()) as u128 };
        let sqrt_two = Decimal { atomics: ratio_atomics(14142135624int, 10_000_000_000int) as u128 };
        assert(nano_units(premium_rate) == 20_000_000);
        assert(spec_uint_mul(20_000_000, hundred) == 2_000_000_000);
        let p = spec_product(premium_rate, hundred);
        assert(p.atomics == 2 * frac());
        assert(nano_units(two) == 2_000_000_000);
        assert(nano_units(p) == 2_000_000_000);
        assert(sqrt_two.atomics == 1414213562400000000);
        assert(nano_units(sqrt_two) == 1414213562);
        let z = spec_sub(two, p);
        assert(z.atomics == 0);
        assert(nano_units(z) == 0);
        assert(ratio_atomics(0, 1414213562) == 0);
        assert(spec_erf_argument(premium_rate) == Some((Sign::Negative, Decimal { atomics: 0 })));
        lemma_erf_plus_one_shape(Sign::Negative, Decimal { atomics: 0 });
        let e = spec_erf_plus_one(Sign::Negative, Decimal { atomics: 0 })->Some_0;
        assert(e.atomics == frac());
        let five = Decimal { atomics: (5 * frac()) as u128 };
        assert(nano_units(e) == 1_000_000_000);
        assert(nano_units(five) == 5_000_000_000);
        assert(ratio_atomics(1_000_000_000, 5_000_000_000) == 200_000_000_000_000_000);
    }
}

/// The short reward weight is defined for every premium: its computation
/// never overflows nor divides by zero.
pub proof fn lemma_short_reward_weight_defined(premium_rate: Decimal)
    ensures
        spec_short_reward_weight(premium_rate) is Some,
{
    if premium_rate.atomics <= 70_000_000_000_000_000 {
        lemma_erf_argument_bounds(premium_rate);
        let (sign, x) = spec_erf_argument(premium_rate)->Some_0;
        lemma_base_bounds(sign, x);
        let poly = spec_erf_polynomial(sign, x)->Some_0;
        let base = spec_one_plus(poly.0, poly.1)->Some_0;
        lemma_pow16_defined(base);
        assert(spec_erf_tail(base) is Some);
        assert(spec_erf_plus_one(sign, x) is Some);
        lemma_erf_plus_one_at_most_two(sign, x);
        let e = spec_erf_plus_one(sign, x)->Some_0;
        let five = Decimal { atomics: (5 * frac()) as u128 };
        assert(nano_units(five) == 5_000_000_000);
        lemma_nano_units_monotone(e, Decimal { atomics: 2_000_000_000_000_000_000 });
        assert(nano_units(Decimal { atomics: 2_000_000_000_000_000_000 }) == 2_000_000_000);
        lemma_nano_units_bound(e);
        lemma_ratio_monotone(nano_units(e), 2_000_000_000, 5_000_000_000);
        assert(ratio_atomics(2_000_000_000, 5_000_000_000) == 400_000_000_000_000_000);
    }
}

} // verus!
