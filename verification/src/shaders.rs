//! The procedural surface-shading engine.
//!
//! `shade` maps (mode, surface normal, view direction, elapsed time) to an
//! RGB color with channels in `[0, FX_ONE]`.  Every mode composes `mix`
//! and `smoothstep` over analytic pseudo-noise built from trigonometric
//! combinations of the normal coordinates, so the result is a pure
//! function of its arguments; the exact formulas are pinned by the
//! `spec_shade_*` functions below.

use vstd::prelude::*;
use crate::fixed::{
    FX_ONE, FX_HALF, abs_i, clamp_i, fxmul, max_i, fx_abs, fx_clamp, fx_max, fx_mul, fx_mul_g,
    div_floor, lemma_div_bounds,
};
use crate::math::{
    Vec3, smix, svadd, svscale, sclamp3, spec_dot, spec_smoothstep, spec_unit, vec_bounded,
    lemma_spec_dot_bound, mix, smoothstep, vadd, vscale,
};
use crate::trig::{spec_sin, spec_cos, sin_fx, cos_fx};
use vstd::arithmetic::div_mod::{lemma_div_is_ordered, lemma_div_multiples_vanish};

verus! {

/// Largest animation time accepted by the shaders; a machine limit of the
/// fixed-point multiplications, about nine hours of animation.
pub const TIME_MAX: i64 = 0x8000_0000;

/// The five surface materials.
#[derive(Clone, Copy, PartialEq, Eq, Structural, Debug)]
pub enum ShaderMode {
    Star,
    Rock,
    Gas,
    Earth,
    Moon,
}

/// Square of a unit-interval scalar.
pub open spec fn spec_pow2(a: int) -> int {
    fxmul(a, a)
}

/// Cube of a unit-interval scalar.
pub open spec fn spec_pow3(a: int) -> int {
    fxmul(fxmul(a, a), a)
}

/// The rim-light base `1 - max(n . view, 0)`, clamped to the unit
/// interval as the single numeric-safety rule of the shading engine.
pub open spec fn spec_rim_base(n: Vec3, view: Vec3) -> int {
    clamp_i((FX_ONE as int) - max_i(spec_dot(n, view), 0), 0, FX_ONE as int)
}

/// Square of a unit-interval scalar, staying in the unit interval.
fn pow2_unit(a: i64) -> (r: i64)
    requires
        0 <= a <= FX_ONE,
    ensures
        r == spec_pow2(a as int),
        0 <= r <= FX_ONE,
{
    proof {
        assert(0 <= (a as int) * (a as int) <= (FX_ONE as int) * (FX_ONE as int))
            by (nonlinear_arith)
            requires
                0 <= a as int <= FX_ONE as int,
        ;
        lemma_div_bounds((a as int) * (a as int), FX_ONE as int);
        lemma_div_is_ordered((a as int) * (a as int), (FX_ONE as int) * (FX_ONE as int),
            FX_ONE as int);
        lemma_div_multiples_vanish(FX_ONE as int, FX_ONE as int);
    }
    fx_mul(a, a)
}

/// Cube of a unit-interval scalar, staying in the unit interval.
fn pow3_unit(a: i64) -> (r: i64)
    requires
        0 <= a <= FX_ONE,
    ensures
        r == spec_pow3(a as int),
        0 <= r <= FX_ONE,
{
    let sq: i64 = pow2_unit(a);
    proof {
        assert(0 <= (sq as int) * (a as int) <= (FX_ONE as int) * (FX_ONE as int))
            by (nonlinear_arith)
            requires
                0 <= sq as int <= FX_ONE as int,
                0 <= a as int <= FX_ONE as int,
        ;
        lemma_div_bounds((sq as int) * (a as int), FX_ONE as int);
        lemma_div_is_ordered((sq as int) * (a as int), (FX_ONE as int) * (FX_ONE as int),
            FX_ONE as int);
        lemma_div_multiples_vanish(FX_ONE as int, FX_ONE as int);
    }
    fx_mul(sq, a)
}

/// The clamped rim-light base.
fn rim_base(n: Vec3, view: Vec3) -> (r: i64)
    requires
        vec_bounded(n, FX_ONE as int),
        vec_bounded(view, FX_ONE as int),
    ensures
        r == spec_rim_base(n, view),
        0 <= r <= FX_ONE,
{
    let d: i64 = n.dot(&view);
    let dm: i64 = fx_max(d, 0);
    fx_clamp(FX_ONE - dm, 0, FX_ONE)
}

/// Clamp a color to `[0, FX_ONE]` per channel.
fn clamp_color(v: Vec3) -> (r: Vec3)
    ensures
        r == sclamp3(v),
        0 <= r.x <= FX_ONE,
        0 <= r.y <= FX_ONE,
        0 <= r.z <= FX_ONE,
{
    Vec3 {
        x: fx_clamp(v.x, 0, FX_ONE),
        y: fx_clamp(v.y, 0, FX_ONE),
        z: fx_clamp(v.z, 0, FX_ONE),
    }
}

/// Star: latitude gradient, animated plasma turbulence, darker spots,
/// and a corona-like rim glow.
#[verifier::opaque]
pub open spec fn spec_shade_star(n: Vec3, view: Vec3, time: int) -> Vec3 {
    let lat = fxmul(n.y as int, FX_HALF as int) + FX_HALF;
    let c0 = smix(Vec3 { x: 65536, y: 32768, z: 0 }, Vec3 { x: 65536, y: 62259, z: 39322 }, lat);
    let p1 = spec_sin(fxmul(n.x as int, 1638400) + fxmul(time, 196608));
    let p2 = spec_cos(fxmul(n.y as int, 2293760) - fxmul(time, 131072));
    let p3 = spec_sin(fxmul(n.z as int, 1310720) + time);
    let plasma = abs_i(fxmul(fxmul(p1, p2), p3));
    let c1 = smix(c0, Vec3 { x: 65536, y: 52429, z: 6554 }, fxmul(plasma, 39322));
    let s1 = spec_sin(fxmul(n.x as int, 524288));
    let s2 = spec_cos(fxmul(n.y as int, 524288));
    let s3 = spec_sin(fxmul(n.z as int, 524288));
    let spots = abs_i(fxmul(fxmul(s1, s2), s3));
    let mask = spec_smoothstep(39322, 58982, spots);
    let c2 = smix(c1, Vec3 { x: 19661, y: 6554, z: 3277 }, fxmul(mask, 26214));
    let rim = spec_pow3(spec_rim_base(n, view));
    let glow = svscale(Vec3 { x: 65536, y: 19661, z: 0 }, fxmul(rim, 78643));
    sclamp3(svadd(c2, glow))
}

#[verifier::rlimit(100)]
#[verifier::spinoff_prover]
fn shade_star(n: Vec3, view: Vec3, time: i64) -> (r: Vec3)
    requires
        vec_bounded(n, FX_ONE as int),
        vec_bounded(view, FX_ONE as int),
        -TIME_MAX <= time <= TIME_MAX,
    ensures
        r == spec_shade_star(n, view, time as int),
        0 <= r.x <= FX_ONE,
        0 <= r.y <= FX_ONE,
        0 <= r.z <= FX_ONE,
{
    proof {
        reveal(spec_shade_star);
    }
    let lat: i64 = fx_mul(n.y, FX_HALF) + FX_HALF;
    let c0: Vec3 = mix(Vec3::new(65536, 32768, 0), Vec3::new(65536, 62259, 39322), lat);
    let p1: i64 = sin_fx(fx_mul(n.x, 1638400) + fx_mul(time, 196608));
    let p2: i64 = cos_fx(fx_mul(n.y, 2293760) - fx_mul(time, 131072));
    let p3: i64 = sin_fx(fx_mul(n.z, 1310720) + time);
    let plasma: i64 = fx_abs(fx_mul_g(fx_mul_g(p1, p2, Ghost(65536), Ghost(65536)), p3, Ghost(65537), Ghost(65536)));
    let c1: Vec3 = mix(c0, Vec3::new(65536, 52429, 6554), fx_mul(plasma, 39322));
    let s1: i64 = sin_fx(fx_mul(n.x, 524288));
    let s2: i64 = cos_fx(fx_mul(n.y, 524288));
    let s3: i64 = sin_fx(fx_mul(n.z, 524288));
    let spots: i64 = fx_abs(fx_mul_g(fx_mul_g(s1, s2, Ghost(65536), Ghost(65536)), s3, Ghost(65537), Ghost(65536)));
    let mask: i64 = smoothstep(39322, 58982, spots);
    let c2: Vec3 = mix(c1, Vec3::new(19661, 6554, 3277), fx_mul(mask, 26214));
    let rim: i64 = pow3_unit(rim_base(n, view));
    let glow: Vec3 = vscale(
        Vec3::new(65536, 19661, 0),
        fx_mul_g(rim, 78643, Ghost(65536), Ghost(78643)),
        Ghost(65536),
        Ghost(78644),
    );
    clamp_color(vadd(c2, glow))
}

/// Rock: relief blend between dirt and sand, mineral veins, a hard lava
/// threshold, directional lighting and a blue-tinted rim.
#[verifier::opaque]
pub open spec fn spec_shade_rock(n: Vec3, view: Vec3, time: int) -> Vec3 {
    let relief = abs_i(
        fxmul(
            spec_sin(fxmul(n.x as int, 655360) + fxmul(n.z as int, 458752)),
            spec_cos(fxmul(n.y as int, 655360) + fxmul(time, 32768)),
        ),
    );
    let c0 = smix(
        Vec3 { x: 19661, y: 14418, z: 6554 },
        Vec3 { x: 52429, y: 42598, z: 29491 },
        relief,
    );
    let v1 = spec_sin(fxmul(n.x as int, 1310720));
    let v2 = spec_cos(fxmul(n.y as int, 1638400));
    let v3 = spec_sin(fxmul(n.z as int, 1966080));
    let veins = abs_i(fxmul(fxmul(v1, v2), v3));
    let veins_mask = spec_smoothstep(45875, 58982, veins);
    let c1 = smix(c0, Vec3 { x: 26214, y: 19661, z: 13107 }, fxmul(veins_mask, 32768));
    let l1 = spec_sin(fxmul(n.x as int, 2621440));
    let l2 = spec_sin(fxmul(n.y as int, 2621440));
    let l3 = spec_cos(fxmul(n.z as int, 2621440));
    let lava = abs_i(fxmul(fxmul(l1, l2), l3));
    let c2 = if lava > 62259 {
        smix(c1, Vec3 { x: 65536, y: 19661, z: 3277 }, (lava - 62259) * 10)
    } else {
        c1
    };
    let light = spec_unit(Vec3 { x: 52429, y: 65536, z: 32768 });
    let diff = max_i(spec_dot(n, light), 0);
    let lit = svscale(c2, 16384 + fxmul(diff, 58982));
    let rim = spec_pow2(spec_rim_base(n, view));
    let glow = svscale(Vec3 { x: 6554, y: 19661, z: 39322 }, fxmul(rim, 26214));
    sclamp3(svadd(lit, glow))
}

#[verifier::rlimit(100)]
#[verifier::spinoff_prover]
fn shade_rock(n: Vec3, view: Vec3, time: i64) -> (r: Vec3)
    requires
        vec_bounded(n, FX_ONE as int),
        vec_bounded(view, FX_ONE as int),
        -TIME_MAX <= time <= TIME_MAX,
    ensures
        r == spec_shade_rock(n, view, time as int),
        0 <= r.x <= FX_ONE,
        0 <= r.y <= FX_ONE,
        0 <= r.z <= FX_ONE,
{
    proof {
        reveal(spec_shade_rock);
    }
    let relief: i64 = fx_abs(
        fx_mul_g(
            sin_fx(fx_mul(n.x, 655360) + fx_mul(n.z, 458752)),
            cos_fx(fx_mul(n.y, 655360) + fx_mul(time, 32768)),
            Ghost(65536),
            Ghost(65536),
        ),
    );
    let c0: Vec3 = mix(Vec3::new(19661, 14418, 6554), Vec3::new(52429, 42598, 29491), relief);
    let v1: i64 = sin_fx(fx_mul(n.x, 1310720));
    let v2: i64 = cos_fx(fx_mul(n.y, 1638400));
    let v3: i64 = sin_fx(fx_mul(n.z, 1966080));
    let veins: i64 = fx_abs(fx_mul_g(fx_mul_g(v1, v2, Ghost(65536), Ghost(65536)), v3, Ghost(65537), Ghost(65536)));
    let veins_mask: i64 = smoothstep(45875, 58982, veins);
    let c1: Vec3 = mix(c0, Vec3::new(26214, 19661, 13107), fx_mul(veins_mask, 32768));
    let l1: i64 = sin_fx(fx_mul(n.x, 2621440));
    let l2: i64 = sin_fx(fx_mul(n.y, 2621440));
    let l3: i64 = cos_fx(fx_mul(n.z, 2621440));
    let lava: i64 = fx_abs(fx_mul_g(fx_mul_g(l1, l2, Ghost(65536), Ghost(65536)), l3, Ghost(65537), Ghost(65536)));
    let c2: Vec3 = if lava > 62259 {
        mix(c1, Vec3::new(65536, 19661, 3277), (lava - 62259) * 10)
    } else {
        c1
    };
    let light: Vec3 = Vec3::new(52429, 65536, 32768).normalize();
    proof {
        lemma_spec_dot_bound(n, light, FX_ONE as int);
    }
    let diff: i64 = fx_max(n.dot(&light), 0);
    let lit: Vec3 = vscale(
        c2,
        16384 + fx_mul_g(diff, 58982, Ghost(196609), Ghost(58982)),
        Ghost(65536),
        Ghost(262144),
    );
    let rim: i64 = pow2_unit(rim_base(n, view));
    let glow: Vec3 = vscale(
        Vec3::new(6554, 19661, 39322),
        fx_mul_g(rim, 26214, Ghost(65536), Ghost(26214)),
        Ghost(39322),
        Ghost(26215),
    );
    clamp_color(vadd(lit, glow))
}

/// Gas giant: animated latitude bands, turbulent tint, one localized
/// storm, polar shift and rim light.
#[verifier::opaque]
pub open spec fn spec_shade_gas(n: Vec3, view: Vec3, time: int) -> Vec3 {
    let lat = fxmul(n.y as int, FX_HALF as int) + FX_HALF;
    let inner = spec_sin(fxmul(n.x as int, 131072) + fxmul(time, 32768));
    let stripe = abs_i(spec_sin(fxmul(lat, 1310720) + fxmul(inner, 196608)));
    let c0 = smix(
        Vec3 { x: 39322, y: 29491, z: 22938 },
        Vec3 { x: 58982, y: 49152, z: 36045 },
        stripe,
    );
    let turbulence = abs_i(
        fxmul(
            spec_sin(fxmul(n.x as int, 655360) + time),
            spec_cos(fxmul(n.z as int, 983040) - fxmul(time, 52429)),
        ),
    );
    let c1 = smix(c0, Vec3 { x: 52429, y: 45875, z: 39322 }, fxmul(turbulence, 26214));
    let storm_center = spec_unit(Vec3 { x: 26214i64, y: -13107i64, z: 58982i64 });
    let s_intensity = spec_smoothstep(64225, 65536, spec_dot(n, storm_center));
    let c2 = smix(c1, Vec3 { x: 65536, y: 58982, z: 45875 }, s_intensity);
    let poles = spec_smoothstep(39322, 65536, abs_i(n.y as int));
    let c3 = smix(c2, Vec3 { x: 19661, y: 26214, z: 39322 }, fxmul(poles, 19661));
    let rim = spec_pow2(spec_rim_base(n, view));
    let glow = svscale(Vec3 { x: 26214, y: 26214, z: 32768 }, fxmul(rim, 26214));
    sclamp3(svadd(c3, glow))
}

#[verifier::rlimit(100)]
#[verifier::spinoff_prover]
fn shade_gas(n: Vec3, view: Vec3, time: i64) -> (r: Vec3)
    requires
        vec_bounded(n, FX_ONE as int),
        vec_bounded(view, FX_ONE as int),
        -TIME_MAX <= time <= TIME_MAX,
    ensures
        r == spec_shade_gas(n, view, time as int),
        0 <= r.x <= FX_ONE,
        0 <= r.y <= FX_ONE,
        0 <= r.z <= FX_ONE,
{
    proof {
        reveal(spec_shade_gas);
    }
    let lat: i64 = fx_mul(n.y, FX_HALF) + FX_HALF;
    let inner: i64 = sin_fx(fx_mul(n.x, 131072) + fx_mul(time, 32768));
    let stripe: i64 = fx_abs(sin_fx(fx_mul(lat, 1310720) + fx_mul(inner, 196608)));
    let c0: Vec3 = mix(Vec3::new(39322, 29491, 22938), Vec3::new(58982, 49152, 36045), stripe);
    let turbulence: i64 = fx_abs(
        fx_mul_g(
            sin_fx(fx_mul(n.x, 655360) + time),
            cos_fx(fx_mul(n.z, 983040) - fx_mul(time, 52429)),
            Ghost(65536),
            Ghost(65536),
        ),
    );
    let c1: Vec3 = mix(c0, Vec3::new(52429, 45875, 39322), fx_mul(turbulence, 26214));
    let storm_center: Vec3 = Vec3::new(26214, -13107, 58982).normalize();
    proof {
        lemma_spec_dot_bound(n, storm_center, FX_ONE as int);
    }
    let s_intensity: i64 = smoothstep(64225, 65536, n.dot(&storm_center));
    let c2: Vec3 = mix(c1, Vec3::new(65536, 58982, 45875), s_intensity);
    let poles: i64 = smoothstep(39322, 65536, fx_abs(n.y));
    let c3: Vec3 = mix(c2, Vec3::new(19661, 26214, 39322), fx_mul(poles, 19661));
    let rim: i64 = pow2_unit(rim_base(n, view));
    let glow: Vec3 = vscale(
        Vec3::new(26214, 26214, 32768),
        fx_mul_g(rim, 26214, Ghost(65536), Ghost(26214)),
        Ghost(32768),
        Ghost(26215),
    );
    clamp_color(vadd(c3, glow))
}

/// Moon: rough gray base, smoothstep-masked craters, directional light
/// and a faint halo.
#[verifier::opaque]
pub open spec fn spec_shade_moon(n: Vec3, view: Vec3, time: int) -> Vec3 {
    let detail = abs_i(
        fxmul(spec_sin(fxmul(n.x as int, 983040)), spec_cos(fxmul(n.z as int, 655360))),
    );
    let rough = spec_smoothstep(13107, 52429, detail);
    let c0 = smix(
        Vec3 { x: 16384, y: 16384, z: 16384 },
        Vec3 { x: 32768, y: 32768, z: 32768 },
        rough,
    );
    let crater_pattern = abs_i(
        fxmul(
            spec_sin(fxmul(n.x as int, 1966080) + spec_sin(fxmul(n.z as int, 2621440))),
            spec_cos(fxmul(n.y as int, 2293760) - fxmul(time, 3277)),
        ),
    );
    let craters = spec_smoothstep(39322, 58982, crater_pattern);
    let c1 = smix(c0, Vec3 { x: 9830, y: 9830, z: 9830 }, fxmul(craters, 52429));
    let light = spec_unit(Vec3 { x: 39322, y: 26214, z: 45875 });
    let diff = max_i(spec_dot(n, light), 0);
    let lit = svscale(c1, 16384 + fxmul(diff, 58982));
    let rim = spec_pow3(spec_rim_base(n, view));
    let halo = svscale(Vec3 { x: 45875, y: 45875, z: 52429 }, fxmul(rim, 13107));
    sclamp3(svadd(lit, halo))
}

#[verifier::rlimit(100)]
#[verifier::spinoff_prover]
fn shade_moon(n: Vec3, view: Vec3, time: i64) -> (r: Vec3)
    requires
        vec_bounded(n, FX_ONE as int),
        vec_bounded(view, FX_ONE as int),
        -TIME_MAX <= time <= TIME_MAX,
    ensures
        r == spec_shade_moon(n, view, time as int),
        0 <= r.x <= FX_ONE,
        0 <= r.y <= FX_ONE,
        0 <= r.z <= FX_ONE,
{
    proof {
        reveal(spec_shade_moon);
    }
    proof {
        reveal(spec_shade_gas);
    }
    let detail: i64 = fx_abs(
        fx_mul_g(
            sin_fx(fx_mul(n.x, 983040)),
            cos_fx(fx_mul(n.z, 655360)),
            Ghost(65536),
            Ghost(65536),
        ),
    );
    let rough: i64 = smoothstep(13107, 52429, detail);
    let c0: Vec3 = mix(Vec3::new(16384, 16384, 16384), Vec3::new(32768, 32768, 32768), rough);
    let crater_pattern: i64 = fx_abs(
        fx_mul_g(
            sin_fx(fx_mul(n.x, 1966080) + sin_fx(fx_mul(n.z, 2621440))),
            cos_fx(fx_mul(n.y, 2293760) - fx_mul(time, 3277)),
            Ghost(65536),
            Ghost(65536),
        ),
    );
    let craters: i64 = smoothstep(39322, 58982, crater_pattern);
    let c1: Vec3 = mix(c0, Vec3::new(9830, 9830, 9830), fx_mul(craters, 52429));
    let light: Vec3 = Vec3::new(39322, 26214, 45875).normalize();
    proof {
        lemma_spec_dot_bound(n, light, FX_ONE as int);
    }
    let diff: i64 = fx_max(n.dot(&light), 0);
    let lit: Vec3 = vscale(
        c1,
        16384 + fx_mul_g(diff, 58982, Ghost(196609), Ghost(58982)),
        Ghost(65536),
        Ghost(262144),
    );
    let rim: i64 = pow3_unit(rim_base(n, view));
    let halo: Vec3 = vscale(
        Vec3::new(45875, 45875, 52429),
        fx_mul_g(rim, 13107, Ghost(65536), Ghost(13107)),
        Ghost(52429),
        Ghost(13108),
    );
    clamp_color(vadd(lit, halo))
}

/// Earth: landmass/ocean mask, latitude-keyed land blend, polar ice,
/// directional lighting and animated clouds.
#[verifier::opaque]
pub open spec fn spec_shade_earth(n: Vec3, view: Vec3, time: int) -> Vec3 {
    let base = spec_sin(
        fxmul(n.x as int, 242483) + spec_sin(fxmul(n.y as int, 137626)) + fxmul(
            n.z as int,
            85197,
        ),
    );
    let detail = spec_sin(
        fxmul(
            spec_cos(fxmul(n.x as int, 491520) + fxmul(n.z as int, 347341)),
            spec_sin(fxmul(n.y as int, 308019)),
        ),
    );
    let mask = spec_smoothstep(-13107, 26214, base + fxmul(detail, 32768));
    let land_mix = smix(
        Vec3 { x: 9830, y: 22938, z: 7864 },
        Vec3 { x: 36045, y: 29491, z: 13107 },
        spec_smoothstep(26214, 65536, abs_i(n.y as int)),
    );
    let shore_blend = smix(Vec3 { x: 0, y: 19661, z: 16384 }, land_mix, mask);
    let surface = smix(Vec3 { x: 0, y: 9830, z: 29491 }, shore_blend, mask);
    let poles = spec_smoothstep(42598, 58982, abs_i(n.y as int));
    let iced = smix(surface, Vec3 { x: 52429, y: 58982, z: 65536 }, fxmul(poles, 45875));
    let light = spec_unit(Vec3 { x: 39322, y: 26214, z: 45875 });
    let diff = max_i(spec_dot(n, light), 0);
    let lit = svscale(iced, 16384 + fxmul(diff, 58982));
    let cloud_pattern = (spec_sin(fxmul(n.x as int, 524288) + fxmul(time, 19661)) + spec_cos(
        fxmul(n.y as int, 393216) - fxmul(time, 26214),
    ) + spec_sin(fxmul(n.z as int, 589824) + fxmul(time, 13107))) / 3;
    let clouds = spec_smoothstep(36045, 49152, cloud_pattern);
    let clouded = smix(lit, Vec3 { x: 65536, y: 65536, z: 65536 }, fxmul(clouds, 22938));
    sclamp3(clouded)
}

#[verifier::rlimit(100)]
#[verifier::spinoff_prover]
fn shade_earth(n: Vec3, view: Vec3, time: i64) -> (r: Vec3)
    requires
        vec_bounded(n, FX_ONE as int),
        vec_bounded(view, FX_ONE as int),
        -TIME_MAX <= time <= TIME_MAX,
    ensures
        r == spec_shade_earth(n, view, time as int),
        0 <= r.x <= FX_ONE,
        0 <= r.y <= FX_ONE,
        0 <= r.z <= FX_ONE,
{
    proof {
        reveal(spec_shade_earth);
    }
    let base: i64 = sin_fx(fx_mul(n.x, 242483) + sin_fx(fx_mul(n.y, 137626)) + fx_mul(n.z, 85197));
    let detail: i64 = sin_fx(
        fx_mul_g(
            cos_fx(fx_mul(n.x, 491520) + fx_mul(n.z, 347341)),
            sin_fx(fx_mul(n.y, 308019)),
            Ghost(65536),
            Ghost(65536),
        ),
    );
    let mask: i64 = smoothstep(-13107, 26214, base + fx_mul(detail, 32768));
    let land_mix: Vec3 = mix(
        Vec3::new(9830, 22938, 7864),
        Vec3::new(36045, 29491, 13107),
        smoothstep(26214, 65536, fx_abs(n.y)),
    );
    let shore_blend: Vec3 = mix(Vec3::new(0, 19661, 16384), land_mix, mask);
    let surface: Vec3 = mix(Vec3::new(0, 9830, 29491), shore_blend, mask);
    let poles: i64 = smoothstep(42598, 58982, fx_abs(n.y));
    let iced: Vec3 = mix(surface, Vec3::new(52429, 58982, 65536), fx_mul(poles, 45875));
    let light: Vec3 = Vec3::new(39322, 26214, 45875).normalize();
    proof {
        lemma_spec_dot_bound(n, light, FX_ONE as int);
    }
    let diff: i64 = fx_max(n.dot(&light), 0);
    let lit: Vec3 = vscale(
        iced,
        16384 + fx_mul_g(diff, 58982, Ghost(196609), Ghost(58982)),
        Ghost(65536),
        Ghost(262144),
    );
    let cloud_pattern: i64 = div_floor(
        sin_fx(fx_mul(n.x, 524288) + fx_mul(time, 19661)) + cos_fx(
            fx_mul(n.y, 393216) - fx_mul(time, 26214),
        ) + sin_fx(fx_mul(n.z, 589824) + fx_mul(time, 13107)),
        3,
    );
    let clouds: i64 = smoothstep(36045, 49152, cloud_pattern);
    let clouded: Vec3 = mix(lit, Vec3::new(65536, 65536, 65536), fx_mul(clouds, 22938));
    clamp_color(clouded)
}

/// The shaded color of a surface point under the given mode.
pub open spec fn spec_shade(mode: ShaderMode, n: Vec3, view: Vec3, time: int) -> Vec3 {
    match mode {
        ShaderMode::Star => spec_shade_star(n, view, time),
        ShaderMode::Rock => spec_shade_rock(n, view, time),
        ShaderMode::Gas => spec_shade_gas(n, view, time),
        ShaderMode::Earth => spec_shade_earth(n, view, time),
        ShaderMode::Moon => spec_shade_moon(n, view, time),
    }
}

/// Shader dispatch: a pure, deterministic map from (mode, normal, view
/// direction, time) to an RGB color clamped to `[0, FX_ONE]` per channel.
pub fn shade(mode: ShaderMode, n: Vec3, view: Vec3, time: i64) -> (r: Vec3)
    requires
        vec_bounded(n, FX_ONE as int),
        vec_bounded(view, FX_ONE as int),
        -TIME_MAX <= time <= TIME_MAX,
    ensures
        r == spec_shade(mode, n, view, time as int),
        0 <= r.x <= FX_ONE,
        0 <= r.y <= FX_ONE,
        0 <= r.z <= FX_ONE,
{
    match mode {
        ShaderMode::Star => shade_star(n, view, time),
        ShaderMode::Rock => shade_rock(n, view, time),
        ShaderMode::Gas => shade_gas(n, view, time),
        ShaderMode::Earth => shade_earth(n, view, time),
        ShaderMode::Moon => shade_moon(n, view, time),
    }
}

} // verus!
