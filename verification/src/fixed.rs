//! 16.16 fixed-point scalars.
//!
//! A scalar is an `i64` holding `value * 65536`.  Division is Euclidean
//! (floor) division by a positive divisor throughout, which matches the
//! `/` operator of specification integers, so every executable operation
//! has an exact mathematical definition.

use vstd::prelude::*;
use vstd::arithmetic::div_mod::{
    lemma_fundamental_div_mod, lemma_div_is_ordered, lemma_mod_division_less_than_divisor,
};

verus! {

/// The fixed-point representation of 1.0.
pub const FX_ONE: i64 = 65536;

/// The fixed-point representation of 0.5.
pub const FX_HALF: i64 = 32768;

/// Bound on the operands accepted by `fx_mul`; generous enough for every
/// intermediate value of the shading and transform formulas.
pub const FX_MUL_MAX: i64 = 0x8000_0000;

/// Fixed-point product: the mathematical product scaled back down,
/// rounding toward negative infinity.
pub open spec fn fxmul(a: int, b: int) -> int {
    (a * b) / (FX_ONE as int)
}

/// Fixed-point quotient `a / b` for positive `b`, scaled up before the
/// floor division so the result is again in 16.16 form.
pub open spec fn fxdiv(a: int, b: int) -> int {
    (a * (FX_ONE as int)) / b
}

/// Clamp an integer to `[lo, hi]`.
pub open spec fn clamp_i(x: int, lo: int, hi: int) -> int {
    if x < lo {
        lo
    } else if x > hi {
        hi
    } else {
        x
    }
}

pub open spec fn min_i(a: int, b: int) -> int {
    if a < b {
        a
    } else {
        b
    }
}

pub open spec fn max_i(a: int, b: int) -> int {
    if a < b {
        b
    } else {
        a
    }
}

pub open spec fn abs_i(a: int) -> int {
    if a < 0 {
        -a
    } else {
        a
    }
}

/// Floor division by a positive divisor keeps the quotient between the
/// dividend and zero.
pub proof fn lemma_div_bounds(a: int, b: int)
    requires
        1 <= b,
    ensures
        a >= 0 ==> 0 <= a / b <= a,
        a < 0 ==> a <= a / b <= 0,
{
    lemma_fundamental_div_mod(a, b);
    lemma_mod_division_less_than_divisor(a, b);
    let q = a / b;
    let r = a % b;
    assert((a >= 0 ==> 0 <= q <= a) && (a < 0 ==> a <= q <= 0)) by (nonlinear_arith)
        requires
            a == b * q + r,
            0 <= r < b,
            1 <= b,
    ;
}

/// Floor division of a negation: `(-x) / d` undershoots `-(x / d)` by at
/// most one.
pub proof fn lemma_div_neg(x: int, d: int)
    requires
        1 <= d,
    ensures
        -(x / d) - 1 <= (-x) / d <= -(x / d),
{
    lemma_fundamental_div_mod(x, d);
    lemma_mod_division_less_than_divisor(x, d);
    lemma_fundamental_div_mod(-x, d);
    lemma_mod_division_less_than_divisor(-x, d);
    let q = x / d;
    let r = x % d;
    let qn = (-x) / d;
    let rn = (-x) % d;
    assert(-q - 1 <= qn <= -q) by (nonlinear_arith)
        requires
            x == d * q + r,
            -x == d * qn + rn,
            0 <= r < d,
            0 <= rn < d,
            1 <= d,
    ;
}

/// A product of operands bounded by `m` and `n`, floor-divided by a
/// positive `d`, is bounded by `(m * n) / d` up to the floor slack of one.
pub proof fn lemma_muldiv_bound(a: int, b: int, d: int, m: int, n: int)
    requires
        -m <= a <= m,
        -n <= b <= n,
        0 <= m,
        0 <= n,
        1 <= d,
    ensures
        -(m * n) <= a * b <= m * n,
        -((m * n) / d) - 1 <= (a * b) / d <= (m * n) / d,
        -(m * n) - 1 <= (a * b) / d <= m * n,
{
    let p = a * b;
    let mn = m * n;
    assert(-mn <= p <= mn) by (nonlinear_arith)
        requires
            -m <= a <= m,
            -n <= b <= n,
            0 <= m,
            0 <= n,
            p == a * b,
            mn == m * n,
    ;
    lemma_div_is_ordered(p, mn, d);
    lemma_div_is_ordered(-mn, p, d);
    lemma_div_neg(mn, d);
    lemma_div_bounds(mn, d);
    lemma_div_bounds(-mn, d);
}

/// A product of operands bounded by `m` and `n` has its fixed-point
/// product bounded by `(m * n) / FX_ONE`, up to the floor slack of one.
pub proof fn lemma_fxmul_bound(a: int, b: int, m: int, n: int)
    requires
        -m <= a <= m,
        -n <= b <= n,
        0 <= m,
        0 <= n,
    ensures
        -((m * n) / (FX_ONE as int)) - 1 <= fxmul(a, b) <= (m * n) / (FX_ONE as int),
{
    lemma_muldiv_bound(a, b, FX_ONE as int, m, n);
}

/// Multiply in wide precision, then floor-divide by a positive divisor,
/// carrying ghost magnitude bounds for the operands.
pub fn muldiv_i128(a: i128, b: i128, d: i128, Ghost(ma): Ghost<int>, Ghost(mb): Ghost<int>) -> (r:
    i128)
    requires
        1 <= d,
        0 <= ma,
        0 <= mb,
        -ma <= a <= ma,
        -mb <= b <= mb,
        ma * mb < 0x4000_0000_0000_0000_0000_0000_0000_0000,
    ensures
        r == (a * b) / (d as int),
        -((ma * mb) / (d as int)) - 1 <= r <= (ma * mb) / (d as int),
        -(ma * mb) - 1 <= r <= ma * mb,
{
    proof {
        lemma_muldiv_bound(a as int, b as int, d as int, ma, mb);
    }
    let p: i128 = a * b;
    div_floor_i128(p, d)
}

/// Floor division by a positive divisor, computed with an overflow-checked
/// Euclidean division.
pub fn div_floor(a: i64, b: i64) -> (q: i64)
    requires
        1 <= b,
    ensures
        q == a as int / b as int,
{
    proof {
        lemma_div_bounds(a as int, b as int);
    }
    a.checked_div_euclid(b).unwrap()
}

/// Floor division for the wide intermediate products of the rasterizer.
pub fn div_floor_i128(a: i128, b: i128) -> (q: i128)
    requires
        1 <= b,
    ensures
        q == a as int / b as int,
{
    proof {
        lemma_div_bounds(a as int, b as int);
    }
    a.checked_div_euclid(b).unwrap()
}

/// Fixed-point multiplication.
pub fn fx_mul(a: i64, b: i64) -> (r: i64)
    requires
        -FX_MUL_MAX <= a <= FX_MUL_MAX,
        -FX_MUL_MAX <= b <= FX_MUL_MAX,
    ensures
        r == fxmul(a as int, b as int),
        -0x4000_0000_0001 <= r <= 0x4000_0000_0000,
{
    proof {
        lemma_fxmul_bound(a as int, b as int, FX_MUL_MAX as int, FX_MUL_MAX as int);
        assert(-0x4000_0000_0000_0000 <= (a as int) * (b as int) <= 0x4000_0000_0000_0000)
            by (nonlinear_arith)
            requires
                -0x8000_0000 <= a as int <= 0x8000_0000,
                -0x8000_0000 <= b as int <= 0x8000_0000,
        ;
    }
    let p: i128 = (a as i128) * (b as i128);
    let q: i128 = div_floor_i128(p, FX_ONE as i128);
    q as i64
}

/// Fixed-point multiplication carrying ghost magnitude bounds, so a
/// caller that knows `|a| <= ma` and `|b| <= mb` learns a bound on the
/// product without further proof.
pub fn fx_mul_g(a: i64, b: i64, Ghost(ma): Ghost<int>, Ghost(mb): Ghost<int>) -> (r: i64)
    requires
        0 <= ma <= FX_MUL_MAX,
        0 <= mb <= FX_MUL_MAX,
        -ma <= a <= ma,
        -mb <= b <= mb,
    ensures
        r == fxmul(a as int, b as int),
        -((ma * mb) / (FX_ONE as int)) - 1 <= r <= (ma * mb) / (FX_ONE as int),
{
    proof {
        lemma_fxmul_bound(a as int, b as int, ma, mb);
    }
    fx_mul(a, b)
}

/// Fixed-point division by a positive divisor.
pub fn fx_div(a: i64, b: i64) -> (r: i64)
    requires
        1 <= b,
        -0x2000_0000_0000 <= a <= 0x2000_0000_0000,
    ensures
        r == fxdiv(a as int, b as int),
        -0x2000_0000_0000_0000 <= r <= 0x2000_0000_0000_0000,
{
    proof {
        assert(-0x2000_0000_0000_0000 <= (a as int) * (FX_ONE as int)
            <= 0x2000_0000_0000_0000) by (nonlinear_arith)
            requires
                -0x2000_0000_0000 <= a as int <= 0x2000_0000_0000,
        ;
        lemma_div_bounds((a as int) * (FX_ONE as int), b as int);
    }
    let p: i128 = (a as i128) * (FX_ONE as i128);
    let q: i128 = div_floor_i128(p, b as i128);
    q as i64
}

/// Clamp to `[lo, hi]`.
pub fn fx_clamp(x: i64, lo: i64, hi: i64) -> (r: i64)
    requires
        lo <= hi,
    ensures
        r == clamp_i(x as int, lo as int, hi as int),
        lo <= r <= hi,
{
    if x < lo {
        lo
    } else if x > hi {
        hi
    } else {
        x
    }
}

pub fn fx_min(a: i64, b: i64) -> (r: i64)
    ensures
        r == min_i(a as int, b as int),
{
    if a < b {
        a
    } else {
        b
    }
}

pub fn fx_max(a: i64, b: i64) -> (r: i64)
    ensures
        r == max_i(a as int, b as int),
{
    if a < b {
        b
    } else {
        a
    }
}

pub fn fx_abs(a: i64) -> (r: i64)
    requires
        a != i64::MIN,
    ensures
        r == abs_i(a as int),
{
    if a < 0 {
        -a
    } else {
        a
    }
}

/// Integer square root: the largest `r` with `r * r <= n`.
pub fn isqrt64(n: u64) -> (r: u64)
    requires
        n < 0x4000_0000_0000_0000,
    ensures
        (r as int) * (r as int) <= n as int,
        ((r + 1) as int) * ((r + 1) as int) > n as int,
        r < 0x8000_0000,
{
    let mut lo: u64 = 0;
    let mut hi: u64 = 0x7fff_ffff;
    proof {
        assert(0x8000_0000int * 0x8000_0000int > n as int) by (nonlinear_arith)
            requires
                n < 0x4000_0000_0000_0000,
        ;
    }
    while lo < hi
        invariant
            lo <= hi,
            hi < 0x8000_0000,
            (lo as int) * (lo as int) <= n as int,
            ((hi + 1) as int) * ((hi + 1) as int) > n as int,
        decreases hi - lo,
    {
        let mid: u64 = lo + (hi - lo + 1) / 2;
        proof {
            assert((mid as int) * (mid as int) < 0x4000_0000_0000_0000) by (nonlinear_arith)
                requires
                    mid < 0x8000_0000,
            ;
        }
        if mid * mid <= n {
            lo = mid;
        } else {
            hi = mid - 1;
        }
    }
    lo
}

} // verus!
