//! Vector and scalar math used by the renderer: 3-component fixed-point
//! vectors, linear interpolation (`mix`) and the cubic Hermite threshold
//! (`smoothstep`).

use vstd::prelude::*;
use crate::fixed::{
    FX_ONE, clamp_i, min_i, max_i, fxmul, div_floor_i128, fx_clamp, fx_mul, isqrt64,
    lemma_div_bounds,
};
use vstd::arithmetic::div_mod::{lemma_div_is_ordered, lemma_div_multiples_vanish};

verus! {

/// Bound on the vector components accepted by the vector operations;
/// every value of the shading pipeline stays far below it.
pub const VEC_MAX: i64 = 0x4000_0000;

/// A 3-component vector of 16.16 fixed-point scalars.  Depending on
/// context it holds a position, a direction, or an RGB color with
/// channels in `[0, FX_ONE]`.
#[derive(Clone, Copy, PartialEq, Eq, Structural, Debug)]
pub struct Vec3 {
    pub x: i64,
    pub y: i64,
    pub z: i64,
}

/// All three components lie in `[-m, m]`.
pub open spec fn vec_bounded(v: Vec3, m: int) -> bool {
    -m <= v.x <= m && -m <= v.y <= m && -m <= v.z <= m
}

/// Linear interpolation of scalars with the factor clamped to `[0, 1]`.
pub open spec fn spec_mix(a: int, b: int, t: int) -> int {
    a + fxmul(b - a, clamp_i(t, 0, FX_ONE as int))
}

/// Componentwise `spec_mix`.
pub open spec fn spec_mix3(a: Vec3, b: Vec3, t: int) -> (int, int, int) {
    (spec_mix(a.x as int, b.x as int, t), spec_mix(a.y as int, b.y as int, t), spec_mix(
        a.z as int,
        b.z as int,
        t,
    ))
}

/// `spec_mix3` packed back into a vector.
pub open spec fn smix(a: Vec3, b: Vec3, t: int) -> Vec3 {
    Vec3 {
        x: spec_mix(a.x as int, b.x as int, t) as i64,
        y: spec_mix(a.y as int, b.y as int, t) as i64,
        z: spec_mix(a.z as int, b.z as int, t) as i64,
    }
}

/// Componentwise sum, as a vector.
pub open spec fn svadd(a: Vec3, b: Vec3) -> Vec3 {
    Vec3 { x: (a.x + b.x) as i64, y: (a.y + b.y) as i64, z: (a.z + b.z) as i64 }
}

/// Componentwise fixed-point scaling, as a vector.
pub open spec fn svscale(v: Vec3, s: int) -> Vec3 {
    Vec3 {
        x: fxmul(v.x as int, s) as i64,
        y: fxmul(v.y as int, s) as i64,
        z: fxmul(v.z as int, s) as i64,
    }
}

/// Componentwise clamp of a color to `[0, FX_ONE]`.
pub open spec fn sclamp3(v: Vec3) -> Vec3 {
    Vec3 {
        x: clamp_i(v.x as int, 0, FX_ONE as int) as i64,
        y: clamp_i(v.y as int, 0, FX_ONE as int) as i64,
        z: clamp_i(v.z as int, 0, FX_ONE as int) as i64,
    }
}

/// The cubic Hermite threshold: the position of `x` inside `[e0, e1]`,
/// clamped to `[0, 1]` and smoothed with `t * t * (3 - 2 * t)`.
pub open spec fn spec_smoothstep(e0: int, e1: int, x: int) -> int {
    let t = ((clamp_i(x, e0, e1) - e0) * (FX_ONE as int)) / (e1 - e0);
    (t * t * (3 * (FX_ONE as int) - 2 * t)) / ((FX_ONE as int) * (FX_ONE as int))
}

/// Fixed-point dot product.
pub open spec fn spec_dot(a: Vec3, b: Vec3) -> int {
    (a.x * b.x + a.y * b.y + a.z * b.z) / (FX_ONE as int)
}

/// Sum of the squared components (twice the fixed-point scale).
pub open spec fn spec_norm2(v: Vec3) -> int {
    v.x * v.x + v.y * v.y + v.z * v.z
}

/// `r` is the integer square root of `n`.
pub open spec fn is_isqrt(n: int, r: int) -> bool {
    0 <= r && r * r <= n && n < (r + 1) * (r + 1)
}

/// The integer square root, as the witness of `is_isqrt`.
pub open spec fn spec_isqrt(n: int) -> int {
    choose|r: int| is_isqrt(n, r)
}

/// The integer square root is unique, so any witness pins `spec_isqrt`.
pub proof fn lemma_isqrt_unique(n: int, r: int)
    requires
        is_isqrt(n, r),
    ensures
        spec_isqrt(n) == r,
{
    assert(exists|q: int| is_isqrt(n, q));
    let w = spec_isqrt(n);
    assert(is_isqrt(n, w));
    assert(w == r) by (nonlinear_arith)
        requires
            0 <= r,
            r * r <= n,
            n < (r + 1) * (r + 1),
            0 <= w,
            w * w <= n,
            n < (w + 1) * (w + 1),
    ;
}

/// Normalization: each component scaled by `FX_ONE / |v|`; the zero
/// vector stays zero.
pub open spec fn spec_normalize(v: Vec3) -> (int, int, int) {
    let len = spec_isqrt(spec_norm2(v));
    if len == 0 {
        (0, 0, 0)
    } else {
        ((v.x * (FX_ONE as int)) / len, (v.y * (FX_ONE as int)) / len, (v.z * (FX_ONE as int))
            / len)
    }
}

/// `spec_normalize` packed back into a vector.
pub open spec fn spec_unit(v: Vec3) -> Vec3 {
    let (x, y, z) = spec_normalize(v);
    Vec3 { x: x as i64, y: y as i64, z: z as i64 }
}

/// A component whose square is below `n` is bounded by the root of `n`.
proof fn lemma_isqrt_dominates(n: int, len: int, x: int)
    requires
        is_isqrt(n, len),
        x * x <= n,
    ensures
        -len <= x <= len,
{
    assert(-len <= x <= len) by (nonlinear_arith)
        requires
            0 <= len,
            x * x <= n,
            n < (len + 1) * (len + 1),
    ;
}

/// One normalized component: `(x * FX_ONE) / len` stays within
/// `[-FX_ONE, FX_ONE]` whenever `|x| <= len`.
fn normalize_component(x: i64, len: u64) -> (r: i64)
    requires
        1 <= len,
        len < 0x8000_0000,
        -(len as int) <= x <= len as int,
    ensures
        r == (x * (FX_ONE as int)) / (len as int),
        -FX_ONE <= r <= FX_ONE,
{
    proof {
        let l = len as int;
        assert(-(l * (FX_ONE as int)) <= (x as int) * (FX_ONE as int) <= l * (FX_ONE as int))
            by (nonlinear_arith)
            requires
                -l <= x as int <= l,
        ;
        lemma_div_is_ordered((x as int) * (FX_ONE as int), l * (FX_ONE as int), l);
        lemma_div_is_ordered(-(l * (FX_ONE as int)), (x as int) * (FX_ONE as int), l);
        lemma_div_multiples_vanish(FX_ONE as int, l);
        lemma_div_multiples_vanish(-(FX_ONE as int), l);
        assert(l * -(FX_ONE as int) == -(l * (FX_ONE as int))) by (nonlinear_arith);
    }
    let p: i128 = (x as i128) * (FX_ONE as i128);
    let q: i128 = div_floor_i128(p, len as i128);
    q as i64
}

impl Vec3 {
    pub fn new(x: i64, y: i64, z: i64) -> (r: Vec3)
        ensures
            r.x == x && r.y == y && r.z == z,
    {
        Vec3 { x, y, z }
    }

    /// Dot product of two bounded vectors.
    pub fn dot(&self, o: &Vec3) -> (r: i64)
        requires
            vec_bounded(*self, VEC_MAX as int),
            vec_bounded(*o, VEC_MAX as int),
        ensures
            r == spec_dot(*self, *o),
            -0x3000_0000_0000 - 1 <= r <= 0x3000_0000_0000,
    {
        proof {
            let m = VEC_MAX as int;
            assert(-(m * m) <= (self.x as int) * (o.x as int) <= m * m) by (nonlinear_arith)
                requires
                    -m <= self.x as int <= m,
                    -m <= o.x as int <= m,
            ;
            assert(-(m * m) <= (self.y as int) * (o.y as int) <= m * m) by (nonlinear_arith)
                requires
                    -m <= self.y as int <= m,
                    -m <= o.y as int <= m,
            ;
            assert(-(m * m) <= (self.z as int) * (o.z as int) <= m * m) by (nonlinear_arith)
                requires
                    -m <= self.z as int <= m,
                    -m <= o.z as int <= m,
            ;
            lemma_div_bounds(
                (self.x as int) * (o.x as int) + (self.y as int) * (o.y as int) + (self.z as int)
                    * (o.z as int),
                FX_ONE as int,
            );
            lemma_div_is_ordered(
                (self.x as int) * (o.x as int) + (self.y as int) * (o.y as int) + (self.z as int)
                    * (o.z as int),
                3 * (VEC_MAX as int) * (VEC_MAX as int),
                FX_ONE as int,
            );
            lemma_div_is_ordered(
                -(3 * (VEC_MAX as int) * (VEC_MAX as int)),
                (self.x as int) * (o.x as int) + (self.y as int) * (o.y as int) + (self.z as int)
                    * (o.z as int),
                FX_ONE as int,
            );
            crate::fixed::lemma_div_neg(3 * (VEC_MAX as int) * (VEC_MAX as int), FX_ONE as int);
        }
        let s: i128 = (self.x as i128) * (o.x as i128) + (self.y as i128) * (o.y as i128) + (
        self.z as i128) * (o.z as i128);
        let q: i128 = div_floor_i128(s, FX_ONE as i128);
        q as i64
    }

    /// Normalize to (approximately) unit length; every component of the
    /// result lies in `[-FX_ONE, FX_ONE]`.
    pub fn normalize(&self) -> (r: Vec3)
        requires
            vec_bounded(*self, VEC_MAX as int),
        ensures
            r == spec_unit(*self),
            vec_bounded(r, FX_ONE as int),
    {
        proof {
            let m = VEC_MAX as int;
            assert(0 <= (self.x as int) * (self.x as int) <= m * m) by (nonlinear_arith)
                requires
                    -m <= self.x as int <= m,
            ;
            assert(0 <= (self.y as int) * (self.y as int) <= m * m) by (nonlinear_arith)
                requires
                    -m <= self.y as int <= m,
            ;
            assert(0 <= (self.z as int) * (self.z as int) <= m * m) by (nonlinear_arith)
                requires
                    -m <= self.z as int <= m,
            ;
        }
        let n2: i128 = (self.x as i128) * (self.x as i128) + (self.y as i128) * (self.y as i128)
            + (self.z as i128) * (self.z as i128);
        let len: u64 = isqrt64(n2 as u64);
        proof {
            lemma_isqrt_unique(n2 as int, len as int);
            lemma_isqrt_dominates(n2 as int, len as int, self.x as int);
            lemma_isqrt_dominates(n2 as int, len as int, self.y as int);
            lemma_isqrt_dominates(n2 as int, len as int, self.z as int);
        }
        if len == 0 {
            Vec3 { x: 0, y: 0, z: 0 }
        } else {
            Vec3 {
                x: normalize_component(self.x, len),
                y: normalize_component(self.y, len),
                z: normalize_component(self.z, len),
            }
        }
    }
}

/// Interpolating a scalar lands between the endpoints.
proof fn lemma_mix_scalar_range(a: int, b: int, t: int)
    requires
        -VEC_MAX <= a <= VEC_MAX,
        -VEC_MAX <= b <= VEC_MAX,
    ensures
        min_i(a, b) <= spec_mix(a, b, t) <= max_i(a, b),
{
    let tc = clamp_i(t, 0, FX_ONE as int);
    let d = b - a;
    let p = d * tc;
    if d >= 0 {
        assert(0 <= p <= d * (FX_ONE as int)) by (nonlinear_arith)
            requires
                0 <= tc <= FX_ONE as int,
                0 <= d,
                p == d * tc,
        ;
        lemma_div_bounds(p, FX_ONE as int);
        lemma_div_is_ordered(p, d * (FX_ONE as int), FX_ONE as int);
        lemma_div_multiples_vanish(d, FX_ONE as int);
    } else {
        assert(d * (FX_ONE as int) <= p <= 0) by (nonlinear_arith)
            requires
                0 <= tc <= FX_ONE as int,
                d < 0,
                p == d * tc,
        ;
        lemma_div_bounds(p, FX_ONE as int);
        lemma_div_is_ordered(d * (FX_ONE as int), p, FX_ONE as int);
        lemma_div_multiples_vanish(d, FX_ONE as int);
    }
}

/// Scalar linear interpolation.
fn mix_scalar(a: i64, b: i64, t: i64) -> (r: i64)
    requires
        -VEC_MAX <= a <= VEC_MAX,
        -VEC_MAX <= b <= VEC_MAX,
    ensures
        r == spec_mix(a as int, b as int, t as int),
        min_i(a as int, b as int) <= r <= max_i(a as int, b as int),
{
    proof {
        lemma_mix_scalar_range(a as int, b as int, t as int);
    }
    let tc: i64 = fx_clamp(t, 0, FX_ONE);
    let q: i64 = fx_mul(b - a, tc);
    a + q
}

/// Linear interpolation of vectors; the factor is clamped to `[0, 1]` and
/// each resulting component lies between the corresponding endpoints.
pub fn mix(a: Vec3, b: Vec3, t: i64) -> (r: Vec3)
    requires
        vec_bounded(a, VEC_MAX as int),
        vec_bounded(b, VEC_MAX as int),
    ensures
        r == smix(a, b, t as int),
        (r.x as int, r.y as int, r.z as int) == spec_mix3(a, b, t as int),
        min_i(a.x as int, b.x as int) <= r.x <= max_i(a.x as int, b.x as int),
        min_i(a.y as int, b.y as int) <= r.y <= max_i(a.y as int, b.y as int),
        min_i(a.z as int, b.z as int) <= r.z <= max_i(a.z as int, b.z as int),
{
    Vec3 { x: mix_scalar(a.x, b.x, t), y: mix_scalar(a.y, b.y, t), z: mix_scalar(a.z, b.z, t) }
}

/// A ratio of `v` over `d` scaled to `[0, FX_ONE]`.
proof fn lemma_unit_ratio(v: int, d: int)
    requires
        0 <= v <= d,
        1 <= d,
    ensures
        0 <= (v * (FX_ONE as int)) / d <= FX_ONE as int,
{
    let n = v * (FX_ONE as int);
    assert(0 <= n <= d * (FX_ONE as int)) by (nonlinear_arith)
        requires
            0 <= v <= d,
            n == v * (FX_ONE as int),
    ;
    lemma_div_bounds(n, d);
    lemma_div_is_ordered(n, d * (FX_ONE as int), d);
    lemma_div_multiples_vanish(FX_ONE as int, d);
}

/// The smoothing cubic `t * t * (3 - 2 * t)` stays within `[0, 1]` on
/// `[0, 1]`.
proof fn lemma_cubic_range(t: int)
    requires
        0 <= t <= FX_ONE as int,
    ensures
        0 <= t * t * (3 * (FX_ONE as int) - 2 * t) <= (FX_ONE as int) * (FX_ONE as int) * (
        FX_ONE as int),
{
    let s = FX_ONE as int;
    assert(0 <= t * t * (3 * s - 2 * t) <= s * s * s) by (nonlinear_arith)
        requires
            0 <= t <= s,
            s == FX_ONE as int,
    ;
}

/// Smooth threshold between `edge0` and `edge1`; the result is always in
/// `[0, FX_ONE]`, saturating to the ends outside the window.
pub fn smoothstep(edge0: i64, edge1: i64, x: i64) -> (r: i64)
    requires
        edge0 < edge1,
        -VEC_MAX <= edge0 <= VEC_MAX,
        -VEC_MAX <= edge1 <= VEC_MAX,
    ensures
        r == spec_smoothstep(edge0 as int, edge1 as int, x as int),
        0 <= r <= FX_ONE,
{
    let xc: i64 = fx_clamp(x, edge0, edge1);
    let d: i64 = edge1 - edge0;
    proof {
        lemma_unit_ratio((xc - edge0) as int, d as int);
    }
    let num: i128 = ((xc - edge0) as i128) * (FX_ONE as i128);
    let t: i128 = div_floor_i128(num, d as i128);
    proof {
        lemma_cubic_range(t as int);
        lemma_div_bounds((t as int) * (t as int) * (3 * (FX_ONE as int) - 2 * (t as int)),
            (FX_ONE as int) * (FX_ONE as int));
        lemma_div_is_ordered((t as int) * (t as int) * (3 * (FX_ONE as int) - 2 * (t as int)),
            (FX_ONE as int) * (FX_ONE as int) * (FX_ONE as int),
            (FX_ONE as int) * (FX_ONE as int));
        lemma_div_multiples_vanish(FX_ONE as int, (FX_ONE as int) * (FX_ONE as int));
    }
    proof {
        assert(0 <= (t as int) * (t as int) <= 0x1_0000_0000) by (nonlinear_arith)
            requires
                0 <= t as int <= 0x10000,
        ;
    }
    let cub: i128 = t * t * (3 * (FX_ONE as i128) - 2 * t);
    let r: i128 = div_floor_i128(cub, (FX_ONE as i128) * (FX_ONE as i128));
    r as i64
}

/// Componentwise sum.
pub fn vadd(a: Vec3, b: Vec3) -> (r: Vec3)
    requires
        vec_bounded(a, 0x1000_0000_0000),
        vec_bounded(b, 0x1000_0000_0000),
    ensures
        r == svadd(a, b),
        r.x == a.x + b.x,
        r.y == a.y + b.y,
        r.z == a.z + b.z,
{
    Vec3 { x: a.x + b.x, y: a.y + b.y, z: a.z + b.z }
}

/// Componentwise fixed-point scaling, carrying ghost magnitude bounds as
/// `fx_mul_g` does.
pub fn vscale(v: Vec3, s: i64, Ghost(mv): Ghost<int>, Ghost(ms): Ghost<int>) -> (r: Vec3)
    requires
        0 <= mv <= crate::fixed::FX_MUL_MAX,
        0 <= ms <= crate::fixed::FX_MUL_MAX,
        vec_bounded(v, mv),
        -ms <= s <= ms,
    ensures
        r == svscale(v, s as int),
        vec_bounded(r, (mv * ms) / (FX_ONE as int) + 1),
{
    Vec3 {
        x: crate::fixed::fx_mul_g(v.x, s, Ghost(mv), Ghost(ms)),
        y: crate::fixed::fx_mul_g(v.y, s, Ghost(mv), Ghost(ms)),
        z: crate::fixed::fx_mul_g(v.z, s, Ghost(mv), Ghost(ms)),
    }
}

/// The dot product of vectors bounded by `m` is bounded by `3 m^2` scaled
/// down, up to the floor slack of one.
pub proof fn lemma_spec_dot_bound(a: Vec3, b: Vec3, m: int)
    requires
        0 <= m <= VEC_MAX,
        vec_bounded(a, m),
        vec_bounded(b, m),
    ensures
        -((3 * m * m) / (FX_ONE as int)) - 1 <= spec_dot(a, b) <= (3 * m * m) / (FX_ONE as int),
{
    let p = a.x * b.x + a.y * b.y + a.z * b.z;
    assert(-(3 * m * m) <= p <= 3 * m * m) by (nonlinear_arith)
        requires
            -m <= a.x <= m,
            -m <= b.x <= m,
            -m <= a.y <= m,
            -m <= b.y <= m,
            -m <= a.z <= m,
            -m <= b.z <= m,
            0 <= m,
            p == a.x * b.x + a.y * b.y + a.z * b.z,
    ;
    lemma_div_is_ordered(p, 3 * m * m, FX_ONE as int);
    lemma_div_is_ordered(-(3 * m * m), p, FX_ONE as int);
    crate::fixed::lemma_div_neg(3 * m * m, FX_ONE as int);
}

/// `mix` with factor zero returns its first argument exactly.
pub proof fn lemma_mix_zero(a: Vec3, b: Vec3)
    ensures
        spec_mix3(a, b, 0) == (a.x as int, a.y as int, a.z as int),
{
    assert(fxmul(b.x - a.x, 0) == 0);
    assert(fxmul(b.y - a.y, 0) == 0);
    assert(fxmul(b.z - a.z, 0) == 0);
}

/// `mix` with factor one returns its second argument exactly.
pub proof fn lemma_mix_one(a: Vec3, b: Vec3)
    ensures
        spec_mix3(a, b, FX_ONE as int) == (b.x as int, b.y as int, b.z as int),
{
    lemma_div_multiples_vanish(b.x - a.x, FX_ONE as int);
    lemma_div_multiples_vanish(b.y - a.y, FX_ONE as int);
    lemma_div_multiples_vanish(b.z - a.z, FX_ONE as int);
    assert((b.x - a.x) * (FX_ONE as int) == (FX_ONE as int) * (b.x - a.x)) by (nonlinear_arith);
    assert((b.y - a.y) * (FX_ONE as int) == (FX_ONE as int) * (b.y - a.y)) by (nonlinear_arith);
    assert((b.z - a.z) * (FX_ONE as int) == (FX_ONE as int) * (b.z - a.z)) by (nonlinear_arith);
}

/// `smoothstep` saturates: at or below the lower edge it is zero, at or
/// above the upper edge it is exactly one.
pub proof fn lemma_smoothstep_saturates(e0: int, e1: int, x: int)
    requires
        e0 < e1,
    ensures
        x <= e0 ==> spec_smoothstep(e0, e1, x) == 0,
        x >= e1 ==> spec_smoothstep(e0, e1, x) == FX_ONE as int,
{
    let s = FX_ONE as int;
    let d = e1 - e0;
    if x <= e0 {
        assert(clamp_i(x, e0, e1) == e0);
        assert((0 * s) / d == 0) by {
            assert(0 * s == 0) by (nonlinear_arith);
            lemma_div_bounds(0, d);
        }
        assert((0 * 0 * (3 * s - 2 * 0)) / (s * s) == 0) by {
            assert(0 * 0 * (3 * s - 2 * 0) == 0) by (nonlinear_arith);
            lemma_div_bounds(0, s * s);
            assert(s * s >= 1) by (nonlinear_arith)
            requires
                s == FX_ONE as int,
        ;
        }
    }
    if x >= e1 {
        assert(clamp_i(x, e0, e1) == e1);
        let t = (d * s) / d;
        assert(t == s) by {
            lemma_div_multiples_vanish(s, d);
            assert(d * s == s * d) by (nonlinear_arith);
        }
        assert(s * s * (3 * s - 2 * s) == (s * s) * s) by (nonlinear_arith);
        lemma_div_multiples_vanish(s, s * s);
        assert((s * s) * s == s * (s * s)) by (nonlinear_arith);
        assert(s * s >= 1) by (nonlinear_arith)
            requires
                s == FX_ONE as int,
        ;
    }
}

/// `smoothstep` is monotonic non-decreasing in its sample point.
pub proof fn lemma_smoothstep_monotonic(e0: int, e1: int, x1: int, x2: int)
    requires
        e0 < e1,
        x1 <= x2,
    ensures
        spec_smoothstep(e0, e1, x1) <= spec_smoothstep(e0, e1, x2),
{
    let s = FX_ONE as int;
    let d = e1 - e0;
    let v1 = clamp_i(x1, e0, e1) - e0;
    let v2 = clamp_i(x2, e0, e1) - e0;
    assert(0 <= v1 <= v2 <= d);
    assert(v1 * s <= v2 * s) by (nonlinear_arith)
        requires
            v1 <= v2,
            s >= 1,
    ;
    lemma_div_is_ordered(v1 * s, v2 * s, d);
    let t1 = (v1 * s) / d;
    let t2 = (v2 * s) / d;
    lemma_unit_ratio(v1, d);
    lemma_unit_ratio(v2, d);
    assert(t1 * t1 * (3 * s - 2 * t1) <= t2 * t2 * (3 * s - 2 * t2)) by (nonlinear_arith)
        requires
            0 <= t1 <= t2 <= s,
    ;
    lemma_div_is_ordered(t1 * t1 * (3 * s - 2 * t1), t2 * t2 * (3 * s - 2 * t2), s * s);
    assert(s * s >= 1) by (nonlinear_arith)
            requires
                s == FX_ONE as int,
        ;
}

} // verus!
