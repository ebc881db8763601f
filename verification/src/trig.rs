//! Fixed-point sine and cosine.
//!
//! The angle is reduced modulo a full turn and folded into the first
//! quarter turn by the usual symmetries; the quarter-turn value is then a
//! truncated Taylor polynomial of degree eleven, evaluated in fixed-point
//! arithmetic by Horner's scheme. Every operation is exact integer
//! arithmetic, so the functions are total and deterministic; the spec
//! functions below state the computed value exactly.

use vstd::prelude::*;
use vstd::arithmetic::div_mod::{
    lemma_div_by_multiple, lemma_div_is_ordered, lemma_fundamental_div_mod_converse_div,
    lemma_mod_multiples_vanish, lemma_multiply_divide_lt, lemma_basic_div,
};
use crate::fixed::SCALE;

verus! {

/// A quarter turn, in nanoradians.
pub const HALF_PI_FP: i64 = 1_570_796_327;

/// A half turn, in nanoradians.
pub const PI_FP: i64 = 3_141_592_654;

/// A full turn, in nanoradians.
pub const TAU_FP: i64 = 6_283_185_308;

/// One Horner stage of the sine polynomial: `SCALE - (y2 * f / SCALE) / k`,
/// the fixed-point value of `1 - y^2 * f / k`.
pub open spec fn poly_fold_spec(y2: int, f: int, k: int) -> int {
    (SCALE as int) - ((y2 * f) / (SCALE as int)) / k
}

/// Sine of `m` nanoradians for `0 <= m <= HALF_PI_FP`: the Taylor
/// polynomial `m (1 - m^2/6 (1 - m^2/20 (1 - m^2/42 (1 - m^2/72 (1 - m^2/110)))))`
/// in fixed point.
pub open spec fn sin_quarter_spec(m: int) -> int
    recommends
        0 <= m <= HALF_PI_FP,
{
    let y2 = (m * m) / (SCALE as int);
    let f110 = poly_fold_spec(y2, SCALE as int, 110);
    let f72 = poly_fold_spec(y2, f110, 72);
    let f42 = poly_fold_spec(y2, f72, 42);
    let f20 = poly_fold_spec(y2, f42, 20);
    let f6 = poly_fold_spec(y2, f20, 6);
    (m * f6) / (SCALE as int)
}

/// Sine of `x` nanoradians, for any `x`: reduce modulo a full turn, fold
/// into the first quarter turn, evaluate the polynomial.
pub open spec fn sin_approx(x: int) -> int {
    let r0 = x % (TAU_FP as int);
    if r0 <= HALF_PI_FP {
        sin_quarter_spec(r0)
    } else if r0 <= PI_FP {
        sin_quarter_spec(PI_FP - r0)
    } else if r0 <= PI_FP + HALF_PI_FP {
        -sin_quarter_spec(r0 - PI_FP)
    } else {
        -sin_quarter_spec(TAU_FP - r0)
    }
}

/// Cosine of `x` nanoradians: sine a quarter turn later.
pub open spec fn cos_approx(x: int) -> int {
    sin_approx(x + HALF_PI_FP)
}

/// One Horner stage, executable.
fn poly_fold(y2: u64, f: u64, k: u64) -> (r: u64)
    requires
        y2 <= 2_468_000_000,
        f <= 1_000_000_000,
        6 <= k <= 110,
    ensures
        r == poly_fold_spec(y2 as int, f as int, k as int),
        r <= 1_000_000_000,
{
    proof {
        assert(y2 * f <= 2_468_000_000int * 1_000_000_000int) by (nonlinear_arith)
            requires
                0 <= y2 <= 2_468_000_000,
                0 <= f <= 1_000_000_000,
        ;
        assert(y2 * f <= y2 * 1_000_000_000) by (nonlinear_arith)
            requires
                0 <= y2,
                0 <= f <= 1_000_000_000,
        ;
    }
    let t: u64 = y2 * f / 1_000_000_000;
    proof {
        lemma_div_is_ordered((y2 * f) as int, (y2 as int) * 1_000_000_000int, 1_000_000_000int);
        lemma_div_by_multiple(y2 as int, 1_000_000_000int);
        assert(t <= y2);
        lemma_multiply_divide_lt(t as int, k as int, 1_000_000_000int);
        assert((t as int) < (k as int) * 1_000_000_000int) by (nonlinear_arith)
            requires
                t <= 2_468_000_000,
                6 <= k,
        ;
    }
    let u: u64 = t / k;
    1_000_000_000 - u
}

/// Sine on the first quarter turn, executable.
fn sin_quarter(m: u64) -> (r: u64)
    requires
        m <= 1_570_796_327,
    ensures
        r == sin_quarter_spec(m as int),
        r <= 1_570_796_327,
{
    proof {
        assert(m * m <= 2_468_000_000_000_000_000) by (nonlinear_arith)
            requires
                0 <= m <= 1_570_796_327,
        ;
    }
    let y2: u64 = m * m / 1_000_000_000;
    proof {
        lemma_div_is_ordered((m * m) as int, 2_468_000_000_000_000_000int, 1_000_000_000int);
        assert(2_468_000_000_000_000_000int == 2_468_000_000int * 1_000_000_000int + 0int);
        lemma_fundamental_div_mod_converse_div(
            2_468_000_000_000_000_000int,
            1_000_000_000int,
            2_468_000_000int,
            0int,
        );
        assert(y2 <= 2_468_000_000);
    }
    let f110 = poly_fold(y2, 1_000_000_000, 110);
    let f72 = poly_fold(y2, f110, 72);
    let f42 = poly_fold(y2, f72, 42);
    let f20 = poly_fold(y2, f42, 20);
    let f6 = poly_fold(y2, f20, 6);
    proof {
        assert(m * f6 <= m * 1_000_000_000) by (nonlinear_arith)
            requires
                0 <= m,
                0 <= f6 <= 1_000_000_000,
        ;
        assert(m * 1_000_000_000 <= 1_570_796_327int * 1_000_000_000int) by (nonlinear_arith)
            requires
                0 <= m <= 1_570_796_327,
        ;
    }
    let r: u64 = m * f6 / 1_000_000_000;
    proof {
        lemma_div_is_ordered((m * f6) as int, (m as int) * 1_000_000_000int, 1_000_000_000int);
        lemma_div_by_multiple(m as int, 1_000_000_000int);
        assert(r <= m);
    }
    r
}

/// Sine of `x` nanoradians, where `x` may lie a little outside the `i64`
/// range so that callers can shift the phase first.
pub(crate) fn sin_shifted(x: i128) -> (r: i64)
    requires
        -9_300_000_000_000_000_000 <= x <= 9_300_000_000_000_000_000,
    ensures
        r == sin_approx(x as int),
{
    let off: i128 = 6_283_185_308i128 * 1_500_000_000i128;
    let xs: u128 = (x + off) as u128;
    proof {
        lemma_mod_multiples_vanish(1_500_000_000int, x as int, 6_283_185_308int);
        assert(xs as int % 6_283_185_308int == x as int % 6_283_185_308int);
    }
    let r0w: u128 = xs % 6_283_185_308u128;
    let r0: u64 = r0w as u64;
    let neg: bool;
    let m: u64;
    if r0 <= 1_570_796_327 {
        neg = false;
        m = r0;
    } else if r0 <= 3_141_592_654 {
        neg = false;
        m = 3_141_592_654 - r0;
    } else if r0 <= 4_712_388_981 {
        neg = true;
        m = r0 - 3_141_592_654;
    } else {
        neg = true;
        m = 6_283_185_308 - r0;
    }
    let s = sin_quarter(m);
    if neg {
        let w: i64 = -(s as i64);
        w
    } else {
        s as i64
    }
}

/// Fixed-point sine: `sin_approx` of the angle, exactly.
pub fn sin_fp(x: i64) -> (r: i64)
    ensures
        r == sin_approx(x as int),
{
    sin_shifted(x as i128)
}

/// Fixed-point cosine: `cos_approx` of the angle, exactly.
pub fn cos_fp(x: i64) -> (r: i64)
    ensures
        r == cos_approx(x as int),
{
    sin_shifted((x as i128) + 1_570_796_327i128)
}

/// At the stable equilibrium the sine vanishes: `sin_approx(0) == 0`.
pub proof fn lemma_sin_approx_zero()
    ensures
        sin_approx(0) == 0,
{
    lemma_basic_div(0int, TAU_FP as int);
    assert(0int % (TAU_FP as int) == 0int) by {
        vstd::arithmetic::div_mod::lemma_small_mod(0nat, TAU_FP as nat);
    }
    assert(sin_quarter_spec(0) == 0) by {
        lemma_basic_div(0int, SCALE as int);
        assert((0int * 0int) / (SCALE as int) == 0);
        let f110 = poly_fold_spec(0, SCALE as int, 110);
        let f72 = poly_fold_spec(0, f110, 72);
        let f42 = poly_fold_spec(0, f72, 42);
        let f20 = poly_fold_spec(0, f42, 20);
        let f6 = poly_fold_spec(0, f20, 6);
        assert((0int * f110) / (SCALE as int) == 0) by {
            lemma_basic_div(0int, SCALE as int);
        }
        assert((0int * f6) / (SCALE as int) == 0) by {
            lemma_basic_div(0int, SCALE as int);
        }
    }
}

} // verus!
