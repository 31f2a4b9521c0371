//! Saturating fixed-point arithmetic for the continuous interaction values
//! (magnification, window/level, variate, fractional frame counters).
//!
//! A value `v: i64` stands for the real number `v / FP_ONE`. Every update is
//! a total function: products are computed exactly and then clamped to the
//! `i64` range, and divisions truncate toward zero.

use vstd::prelude::*;

verus! {

/// The fixed-point representation of 1.0.
pub const FP_ONE: i64 = 65536;

/// Half of `FP_ONE`, used for round-half-away-from-zero.
pub const FP_HALF: i64 = 32768;

/// Clamp a mathematical integer into the `i64` range.
pub open spec fn clamp_i64(x: int) -> int {
    if x > i64::MAX as int {
        i64::MAX as int
    } else if x < i64::MIN as int {
        i64::MIN as int
    } else {
        x
    }
}

/// Clamp `x` into `[lo, hi]` (`min` after `max`, as the interaction code
/// applies it).
pub open spec fn clamp_range(x: int, lo: int, hi: int) -> int {
    if x < lo {
        lo
    } else if x > hi {
        hi
    } else {
        x
    }
}

pub open spec fn abs_int(x: int) -> int {
    if x >= 0 {
        x
    } else {
        -x
    }
}

/// Sign of `x`: -1, 0 or 1.
pub open spec fn sgn(x: int) -> int {
    if x > 0 {
        1
    } else if x < 0 {
        -1
    } else {
        0
    }
}

/// Division truncating toward zero (the machine's signed division), defined
/// for a positive divisor.
pub open spec fn tdiv(a: int, d: int) -> int
    recommends
        d >= 1,
{
    if a >= 0 {
        a / d
    } else {
        -((-a) / d)
    }
}

/// The scaled product `v * num / den`, truncated toward zero and clamped to
/// the `i64` range.
pub open spec fn fp_scale_spec(v: int, num: int, den: int) -> int
    recommends
        den >= 1,
{
    clamp_i64(tdiv(v * num, den))
}

/// Magnitude of an `i64`, exact also for `i64::MIN`.
pub fn abs_mag(v: i64) -> (r: u64)
    ensures
        r == abs_int(v as int),
{
    if v >= 0 {
        v as u64
    } else if v == i64::MIN {
        9223372036854775808u64
    } else {
        (-v) as u64
    }
}

/// Saturating addition with an exact contract.
pub fn sat_add(a: i64, b: i64) -> (r: i64)
    ensures
        r == clamp_i64(a + b),
{
    if b >= 0 {
        if a > i64::MAX - b {
            i64::MAX
        } else {
            a + b
        }
    } else {
        if a < i64::MIN - b {
            i64::MIN
        } else {
            a + b
        }
    }
}

/// Saturating multiplication with an exact contract.
pub fn sat_mul(a: i64, b: i64) -> (r: i64)
    ensures
        r == clamp_i64(a * b),
{
    fp_scale(a, b, 1)
}

/// `v * num / den`, truncated toward zero, saturated at the `i64` range.
pub fn fp_scale(v: i64, num: i64, den: u64) -> (r: i64)
    requires
        den >= 1,
    ensures
        r == fp_scale_spec(v as int, num as int, den as int),
{
    let neg: bool = (v < 0) != (num < 0);
    let av: u128 = abs_mag(v) as u128;
    let an: u128 = abs_mag(num) as u128;
    proof {
        lemma_abs_mul(v as int, num as int);
        assert(av * an <= 0x8000000000000000u128 * 0x8000000000000000u128) by {
            vstd::arithmetic::mul::lemma_mul_upper_bound(
                av as int,
                0x8000000000000000,
                an as int,
                0x8000000000000000,
            );
        }
    }
    let m: u128 = av * an;
    let q: u128 = m / (den as u128);
    proof {
        lemma_tdiv_signs(v as int * num as int, den as int);
        vstd::arithmetic::div_mod::lemma_div_pos_is_pos(m as int, den as int);
        vstd::arithmetic::div_mod::lemma_div_is_ordered(m as int, u128::MAX as int, den as int);
    }
    if neg {
        if q >= 9223372036854775808u128 {
            i64::MIN
        } else if q == 0 {
            // A zero product has no sign: `-0 == 0`.
            0
        } else {
            -((q as i64))
        }
    } else {
        if q > i64::MAX as u128 {
            i64::MAX
        } else {
            q as i64
        }
    }
}

/// `|a * b| == |a| * |b|`, and the sign of the product follows the signs of
/// the factors.
proof fn lemma_abs_mul(a: int, b: int)
    ensures
        abs_int(a * b) == abs_int(a) * abs_int(b),
        (a < 0) != (b < 0) ==> a * b <= 0,
        (a < 0) == (b < 0) ==> a * b >= 0,
        a * b == if (a < 0) != (b < 0) {
            -(abs_int(a) * abs_int(b))
        } else {
            abs_int(a) * abs_int(b)
        },
{
    if a >= 0 && b >= 0 {
        vstd::arithmetic::mul::lemma_mul_nonnegative(a, b);
    } else if a < 0 && b < 0 {
        vstd::arithmetic::mul::lemma_mul_unary_negation(a, -b);
        vstd::arithmetic::mul::lemma_mul_unary_negation(-a, -b);
        vstd::arithmetic::mul::lemma_mul_nonnegative(-a, -b);
    } else if a < 0 {
        vstd::arithmetic::mul::lemma_mul_unary_negation(-a, b);
        vstd::arithmetic::mul::lemma_mul_nonnegative(-a, b);
    } else {
        vstd::arithmetic::mul::lemma_mul_unary_negation(a, -b);
        vstd::arithmetic::mul::lemma_mul_nonnegative(a, -b);
    }
}

/// Truncating division of a signed value by a positive divisor, over the
/// magnitude of the dividend.
proof fn lemma_tdiv_signs(a: int, d: int)
    requires
        d >= 1,
    ensures
        a >= 0 ==> tdiv(a, d) == abs_int(a) / d,
        a < 0 ==> tdiv(a, d) == -(abs_int(a) / d),
        abs_int(a) / d >= 0,
{
    vstd::arithmetic::div_mod::lemma_div_pos_is_pos(abs_int(a), d);
}

/// Round-half-away-from-zero of the magnitude of a fixed-point value, in
/// whole units: `round(|acc| / FP_ONE)`.
pub open spec fn fp_round_mag(acc: int) -> int {
    (abs_int(acc) + FP_HALF as int) / FP_ONE as int
}

/// The rounded magnitude of `acc`, in whole fixed-point units.
pub fn fp_round_abs(acc: i64) -> (r: u64)
    ensures
        r == fp_round_mag(acc as int),
{
    let m: u64 = abs_mag(acc);
    (m + (FP_HALF as u64)) / (FP_ONE as u64)
}

} // verus!
