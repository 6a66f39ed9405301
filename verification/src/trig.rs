//! Deterministic fixed-point sine and cosine.
//!
//! The surface shaders build all of their "noise" from trigonometric
//! combinations of the normal coordinates, so the renderer needs a sine
//! that is a pure function of its fixed-point argument.  The argument is
//! reduced modulo the full turn and the half-turn values are computed with
//! the rational approximation `16 t (PI - t) / (5 PI^2 - 4 t (PI - t))`,
//! which stays within `[0, 1]` on `[0, PI]` and is exactly `0` at both
//! ends.  Reproducibility requires only that every implementation use this
//! same formula, never a platform math library.

use vstd::prelude::*;
use crate::fixed::{FX_ONE, div_floor_i128, lemma_div_bounds};
use vstd::arithmetic::div_mod::{
    lemma_div_is_ordered, lemma_div_multiples_vanish, lemma_mod_division_less_than_divisor,
};

verus! {

/// Half a turn (pi) in 16.16 fixed point.
pub const PI_FX: i64 = 205887;

/// A full turn: exactly `2 * PI_FX`, so the reduction below is exact.
pub const TAU_FX: i64 = 411774;

/// A quarter turn, used to derive the cosine from the sine.
pub const HALF_PI_FX: i64 = 102943;

/// The rational sine approximation on the half turn `[0, PI_FX]`.
pub open spec fn sin_bhaskara(t: int) -> int {
    let g = t * (PI_FX - t);
    (16 * g * (FX_ONE as int)) / (5 * (PI_FX as int) * (PI_FX as int) - 4 * g)
}

/// Sine of an arbitrary fixed-point angle.
pub open spec fn spec_sin(x: int) -> int {
    let m = x % (TAU_FX as int);
    if m < PI_FX {
        sin_bhaskara(m)
    } else {
        -sin_bhaskara(m - PI_FX)
    }
}

/// Cosine, as the sine shifted by a quarter turn.
pub open spec fn spec_cos(x: int) -> int {
    spec_sin(x + HALF_PI_FX)
}

/// Sine on `[0, PI_FX]`; always within `[0, FX_ONE]`.
fn sin_half(t: i64) -> (r: i64)
    requires
        0 <= t <= PI_FX,
    ensures
        r == sin_bhaskara(t as int),
        0 <= r <= FX_ONE,
{
    proof {
        let g = (t as int) * (PI_FX - t as int);
        assert(0 <= g && 4 * g <= (PI_FX as int) * (PI_FX as int)) by (nonlinear_arith)
            requires
                0 <= t as int <= PI_FX as int,
                g == (t as int) * (PI_FX - t as int),
        ;
        let num = 16 * g * (FX_ONE as int);
        let den = 5 * (PI_FX as int) * (PI_FX as int) - 4 * g;
        assert(num <= den * (FX_ONE as int)) by (nonlinear_arith)
            requires
                0 <= g,
                4 * g <= (PI_FX as int) * (PI_FX as int),
                num == 16 * g * (FX_ONE as int),
                den == 5 * (PI_FX as int) * (PI_FX as int) - 4 * g,
        ;
        lemma_div_bounds(num, den);
        lemma_div_is_ordered(num, den * (FX_ONE as int), den);
        lemma_div_multiples_vanish(FX_ONE as int, den);
    }
    let g: i64 = t * (PI_FX - t);
    let num: i128 = 16 * (g as i128) * (FX_ONE as i128);
    let den: i128 = 5 * (PI_FX as i128) * (PI_FX as i128) - 4 * (g as i128);
    let q: i128 = div_floor_i128(num, den);
    q as i64
}

/// Fixed-point sine; defined for every argument and bounded by one.
pub fn sin_fx(x: i64) -> (r: i64)
    ensures
        r == spec_sin(x as int),
        -FX_ONE <= r <= FX_ONE,
{
    proof {
        lemma_mod_division_less_than_divisor(x as int, TAU_FX as int);
    }
    let m: i64 = x.checked_rem_euclid(TAU_FX).unwrap();
    if m < PI_FX {
        sin_half(m)
    } else {
        let r0: i64 = sin_half(m - PI_FX);
        -r0
    }
}

/// Fixed-point cosine.
pub fn cos_fx(x: i64) -> (r: i64)
    requires
        -0x4000_0000_0000_0000 <= x <= 0x4000_0000_0000_0000,
    ensures
        r == spec_cos(x as int),
        -FX_ONE <= r <= FX_ONE,
{
    sin_fx(x + HALF_PI_FX)
}

} // verus!
