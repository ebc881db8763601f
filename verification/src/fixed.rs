//! Fixed-point arithmetic on `i64` values scaled by `SCALE`.
//!
//! A value `v: i64` stands for the real number `v / SCALE`. Products and
//! quotients are computed exactly in wide integers, rounded toward zero,
//! and clamped to the `i64` range, so every operation is total and
//! deterministic.

use vstd::prelude::*;

verus! {

/// Number of fixed-point units per whole unit (radian, second, meter).
pub const SCALE: i64 = 1_000_000_000;

/// Absolute value of a mathematical integer.
pub open spec fn abs_int(a: int) -> int {
    if a >= 0 {
        a
    } else {
        -a
    }
}

/// Division of `a` by a positive `b`, rounded toward zero.
pub open spec fn div_trunc(a: int, b: int) -> int
    recommends
        b > 0,
{
    if a >= 0 {
        a / b
    } else {
        -((-a) / b)
    }
}

/// The nearest value to `v` within the `i64` range.
pub open spec fn clamp_i64(v: int) -> int {
    if v > i64::MAX {
        i64::MAX as int
    } else if v < i64::MIN {
        i64::MIN as int
    } else {
        v
    }
}

/// Fixed-point product: `a * b / SCALE`, rounded toward zero, clamped.
pub open spec fn fp_mul_spec(a: int, b: int) -> int {
    clamp_i64(div_trunc(a * b, SCALE as int))
}

/// Fixed-point quotient for a positive divisor: `a * SCALE / b`,
/// rounded toward zero, clamped.
pub open spec fn fp_div_spec(a: int, b: int) -> int
    recommends
        b > 0,
{
    clamp_i64(div_trunc(a * (SCALE as int), b))
}

/// Saturating sum of two `i64` values.
pub open spec fn sat_add_spec(a: int, b: int) -> int {
    clamp_i64(a + b)
}

/// Magnitude of an `i64`, as a `u64` (total, also at `i64::MIN`).
pub(crate) fn abs_mag(a: i64) -> (r: u64)
    ensures
        r == abs_int(a as int),
{
    if a >= 0 {
        a as u64
    } else {
        let w: i128 = -(a as i128);
        w as u64
    }
}

/// Reassembles a sign and a magnitude into a clamped `i64`.
fn clamp_signed(neg: bool, m: u128) -> (r: i64)
    ensures
        r == clamp_i64(if neg { -(m as int) } else { m as int }),
{
    if neg {
        if m >= 9_223_372_036_854_775_808u128 {
            i64::MIN
        } else {
            let w: i128 = -(m as i128);
            w as i64
        }
    } else {
        if m > 9_223_372_036_854_775_807u128 {
            i64::MAX
        } else {
            m as i64
        }
    }
}

/// Magnitudes multiply to the magnitude of the product, and the product of
/// two values with the same sign is nonnegative, with opposite signs
/// nonpositive.
proof fn lemma_abs_mul(a: int, b: int)
    ensures
        abs_int(a) * abs_int(b) == abs_int(a * b),
        ((a < 0) != (b < 0)) ==> a * b <= 0,
        !((a < 0) != (b < 0)) ==> a * b >= 0,
{
    assert(abs_int(a) * abs_int(b) == abs_int(a * b) && (((a < 0) != (b < 0)) ==> a * b <= 0)
        && (!((a < 0) != (b < 0)) ==> a * b >= 0)) by (nonlinear_arith);
}

/// A truncating division of `p` with sign `neg` and magnitude `m`
/// by a positive `d` is the signed division of the magnitudes.
proof fn lemma_div_trunc_signed(p: int, neg: bool, m: int, d: int)
    requires
        d > 0,
        m == abs_int(p),
        neg ==> p <= 0,
        !neg ==> p >= 0,
    ensures
        div_trunc(p, d) == if neg { -(m / d) } else { m / d },
{
    if neg && p == 0 {
        assert(m == 0);
        assert(m / d == 0) by {
            vstd::arithmetic::div_mod::lemma_basic_div(m, d);
        }
    }
}

/// Fixed-point multiplication: rounds `a * b / SCALE` toward zero and
/// clamps the result to the `i64` range.
pub fn fp_mul(a: i64, b: i64) -> (r: i64)
    ensures
        r == fp_mul_spec(a as int, b as int),
{
    let neg = (a < 0) != (b < 0);
    let ma = abs_mag(a);
    let mb = abs_mag(b);
    proof {
        assert(ma * mb <= u128::MAX) by (nonlinear_arith)
            requires
                0 <= ma <= 9_223_372_036_854_775_808,
                0 <= mb <= 9_223_372_036_854_775_808,
        ;
        lemma_abs_mul(a as int, b as int);
    }
    let p: u128 = (ma as u128) * (mb as u128);
    let q: u128 = p / 1_000_000_000u128;
    proof {
        lemma_div_trunc_signed(
            (a as int) * (b as int),
            neg,
            p as int,
            SCALE as int,
        );
    }
    clamp_signed(neg, q)
}

/// Fixed-point division by a positive divisor: rounds `a * SCALE / b`
/// toward zero and clamps the result to the `i64` range.
pub fn fp_div(a: i64, b: i64) -> (r: i64)
    requires
        b > 0,
    ensures
        r == fp_div_spec(a as int, b as int),
{
    let neg = a < 0;
    let ma = abs_mag(a);
    let mb = abs_mag(b);
    proof {
        assert(ma * 1_000_000_000 <= u128::MAX) by (nonlinear_arith)
            requires
                0 <= ma <= 9_223_372_036_854_775_808,
        ;
        lemma_abs_mul(a as int, SCALE as int);
    }
    let p: u128 = (ma as u128) * 1_000_000_000u128;
    let q: u128 = p / (mb as u128);
    proof {
        lemma_div_trunc_signed(
            (a as int) * (SCALE as int),
            neg,
            p as int,
            b as int,
        );
    }
    clamp_signed(neg, q)
}

/// Saturating addition on `i64`.
pub fn sat_add(a: i64, b: i64) -> (r: i64)
    ensures
        r == sat_add_spec(a as int, b as int),
{
    let s: i128 = (a as i128) + (b as i128);
    if s > 9_223_372_036_854_775_807i128 {
        i64::MAX
    } else if s < -9_223_372_036_854_775_808i128 {
        i64::MIN
    } else {
        s as i64
    }
}

} // verus!
