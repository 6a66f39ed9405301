//! Scalar and vector math behavior: interpolation endpoints, smoothstep
//! shape, trigonometry, normalization and color packing.

use planet_render::fixed::FX_ONE;
use planet_render::math::{mix, smoothstep, Vec3};
use planet_render::raster::pack_rgb;
use planet_render::trig::{cos_fx, sin_fx, HALF_PI_FX, PI_FX, TAU_FX};

#[test]
fn mix_at_zero_returns_first() {
    let a = Vec3::new(100, -200, 300);
    let b = Vec3::new(7000, 8000, -9000);
    let r = mix(a, b, 0);
    assert_eq!(r, a);
}

#[test]
fn mix_at_one_returns_second() {
    let a = Vec3::new(100, -200, 300);
    let b = Vec3::new(7000, 8000, -9000);
    let r = mix(a, b, FX_ONE);
    assert_eq!(r, b);
}

#[test]
fn mix_factor_is_clamped() {
    let a = Vec3::new(0, 0, 0);
    let b = Vec3::new(FX_ONE, FX_ONE, FX_ONE);
    assert_eq!(mix(a, b, -FX_ONE), a);
    assert_eq!(mix(a, b, 10 * FX_ONE), b);
}

#[test]
fn mix_midpoint() {
    let a = Vec3::new(0, 0, 0);
    let b = Vec3::new(FX_ONE, 32768, -FX_ONE);
    let r = mix(a, b, 32768);
    assert_eq!(r.x, 32768);
    assert_eq!(r.y, 16384);
    assert_eq!(r.z, -32768);
}

#[test]
fn smoothstep_saturates_below_and_above() {
    assert_eq!(smoothstep(0, FX_ONE, -5 * FX_ONE), 0);
    assert_eq!(smoothstep(0, FX_ONE, 0), 0);
    assert_eq!(smoothstep(0, FX_ONE, FX_ONE), FX_ONE);
    assert_eq!(smoothstep(0, FX_ONE, 9 * FX_ONE), FX_ONE);
}

#[test]
fn smoothstep_midpoint_is_half() {
    assert_eq!(smoothstep(0, FX_ONE, 32768), 32768);
}

#[test]
fn smoothstep_is_monotonic_on_samples() {
    let mut prev = 0i64;
    let mut x = -10000i64;
    while x <= 75000 {
        let v = smoothstep(0, FX_ONE, x);
        assert!(v >= prev, "smoothstep decreased at {}", x);
        assert!((0..=FX_ONE).contains(&v));
        prev = v;
        x += 500;
    }
}

#[test]
fn smoothstep_negative_window() {
    assert_eq!(smoothstep(-13107, 26214, -20000), 0);
    assert_eq!(smoothstep(-13107, 26214, 30000), FX_ONE);
}

#[test]
fn sine_at_reference_points() {
    assert_eq!(sin_fx(0), 0);
    assert_eq!(sin_fx(PI_FX), 0);
    assert_eq!(sin_fx(TAU_FX), 0);
    assert_eq!(sin_fx(HALF_PI_FX), 65535);
    assert_eq!(sin_fx(-HALF_PI_FX), -65535);
    assert_eq!(sin_fx(FX_ONE), 55064);
}

#[test]
fn cosine_matches_shifted_sine() {
    assert_eq!(cos_fx(0), 65535);
    for k in -20..20 {
        let x = k * 13000;
        assert_eq!(cos_fx(x), sin_fx(x + HALF_PI_FX));
    }
}

#[test]
fn sine_is_periodic_and_bounded() {
    for k in -50..50 {
        let x = k * 7919;
        assert_eq!(sin_fx(x), sin_fx(x + TAU_FX));
        let v = sin_fx(x);
        assert!((-FX_ONE..=FX_ONE).contains(&v));
    }
}

#[test]
fn normalize_scales_to_unit() {
    let v = Vec3::new(3 * FX_ONE, 0, 0);
    let n = v.normalize();
    assert_eq!(n, Vec3::new(FX_ONE, 0, 0));
    let z = Vec3::new(0, 0, 0).normalize();
    assert_eq!(z, Vec3::new(0, 0, 0));
}

#[test]
fn dot_of_unit_axes() {
    let x = Vec3::new(FX_ONE, 0, 0);
    let y = Vec3::new(0, FX_ONE, 0);
    assert_eq!(x.dot(&x), FX_ONE);
    assert_eq!(x.dot(&y), 0);
    let neg = Vec3::new(-FX_ONE, 0, 0);
    assert_eq!(x.dot(&neg), -FX_ONE);
}

#[test]
fn pack_rgb_packs_channels() {
    assert_eq!(pack_rgb(Vec3::new(FX_ONE, 0, 32768)), 0xFF007F);
    assert_eq!(pack_rgb(Vec3::new(0, 0, 0)), 0);
    assert_eq!(pack_rgb(Vec3::new(FX_ONE, FX_ONE, FX_ONE)), 0xFFFFFF);
}
