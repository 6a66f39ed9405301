//! Rasterizer behavior: bounding-box containment of writes, winding
//! agnosticism, the barycentric boundary condition, depth-test
//! idempotence, order-independent occlusion, and degenerate skipping.

use planet_render::camera::ProjectedVertex;
use planet_render::fixed::FX_ONE;
use planet_render::math::Vec3;
use planet_render::raster::{pack_rgb, raster_triangle, FrameBuffer, DEPTH_FAR};
use planet_render::shaders::{shade, ShaderMode};

fn pv(px: i64, py: i64, z: i64) -> ProjectedVertex {
    ProjectedVertex { x: px * FX_ONE, y: py * FX_ONE, z, normal: Vec3::new(0, 0, -FX_ONE) }
}

#[test]
fn pixels_outside_bounding_box_are_untouched() {
    let mut fb = FrameBuffer::new(32, 32);
    let a = pv(2, 2, FX_ONE);
    let b = pv(9, 2, FX_ONE);
    let c = pv(2, 9, FX_ONE);
    raster_triangle(&mut fb, a, b, c, ShaderMode::Rock, 0);
    let depth_snapshot = fb.depth.clone();
    let color_snapshot = fb.color.clone();
    // A second triangle whose bounding box is columns 20..=27, rows 20..=27.
    let d = pv(20, 20, 2 * FX_ONE);
    let e = pv(27, 20, 2 * FX_ONE);
    let f = pv(20, 27, 2 * FX_ONE);
    raster_triangle(&mut fb, d, e, f, ShaderMode::Rock, 0);
    for row in 0..32usize {
        for col in 0..32usize {
            let i = row * 32 + col;
            if !(20..=27).contains(&row) || !(20..=27).contains(&col) {
                assert_eq!(fb.depth[i], depth_snapshot[i], "depth changed at {},{}", row, col);
                assert_eq!(fb.color[i], color_snapshot[i], "color changed at {},{}", row, col);
            }
        }
    }
}

#[test]
fn both_windings_fill_the_same_pixels() {
    let a = pv(3, 4, FX_ONE);
    let b = pv(25, 6, 3 * FX_ONE);
    let c = pv(10, 28, 2 * FX_ONE);
    let mut fb1 = FrameBuffer::new(32, 32);
    raster_triangle(&mut fb1, a, b, c, ShaderMode::Gas, 500);
    let mut fb2 = FrameBuffer::new(32, 32);
    raster_triangle(&mut fb2, a, c, b, ShaderMode::Gas, 500);
    assert_eq!(fb1.depth, fb2.depth);
    assert_eq!(fb1.color, fb2.color);
}

#[test]
fn interpolated_depth_at_vertices_is_exact() {
    let a = pv(10, 10, 3 * FX_ONE);
    let b = pv(20, 10, 5 * FX_ONE);
    let c = pv(10, 20, 7 * FX_ONE);
    let mut fb = FrameBuffer::new(32, 32);
    raster_triangle(&mut fb, a, b, c, ShaderMode::Moon, 0);
    assert_eq!(fb.depth[10 * 32 + 10], 3 * FX_ONE);
    assert_eq!(fb.depth[10 * 32 + 20], 5 * FX_ONE);
    assert_eq!(fb.depth[20 * 32 + 10], 7 * FX_ONE);
}

#[test]
fn rasterizing_twice_equals_once() {
    let a = pv(5, 3, FX_ONE);
    let b = pv(28, 8, 4 * FX_ONE);
    let c = pv(12, 27, 2 * FX_ONE);
    let mut once = FrameBuffer::new(32, 32);
    raster_triangle(&mut once, a, b, c, ShaderMode::Earth, 100);
    let mut twice = FrameBuffer::new(32, 32);
    raster_triangle(&mut twice, a, b, c, ShaderMode::Earth, 100);
    raster_triangle(&mut twice, a, b, c, ShaderMode::Earth, 100);
    assert_eq!(once.depth, twice.depth);
    assert_eq!(once.color, twice.color);
}

#[test]
fn occlusion_is_order_independent() {
    // Two triangles covering the whole tiny viewport, at depths 1.0 and 2.0.
    let near = (pv(-2, -2, FX_ONE), pv(10, -2, FX_ONE), pv(-2, 10, FX_ONE));
    let far = (pv(-2, -2, 2 * FX_ONE), pv(10, -2, 2 * FX_ONE), pv(-2, 10, 2 * FX_ONE));
    let expected_color = pack_rgb(shade(
        ShaderMode::Earth,
        Vec3::new(0, 0, -FX_ONE),
        Vec3::new(0, 0, -FX_ONE),
        0,
    ));
    let idx = 1 * 4 + 1;

    let mut fb1 = FrameBuffer::new(4, 4);
    raster_triangle(&mut fb1, near.0, near.1, near.2, ShaderMode::Earth, 0);
    raster_triangle(&mut fb1, far.0, far.1, far.2, ShaderMode::Earth, 0);
    assert_eq!(fb1.depth[idx], FX_ONE);
    assert_eq!(fb1.color[idx], expected_color);

    let mut fb2 = FrameBuffer::new(4, 4);
    raster_triangle(&mut fb2, far.0, far.1, far.2, ShaderMode::Earth, 0);
    raster_triangle(&mut fb2, near.0, near.1, near.2, ShaderMode::Earth, 0);
    assert_eq!(fb2.depth[idx], FX_ONE);
    assert_eq!(fb2.color[idx], expected_color);

    assert_eq!(fb1.color, fb2.color);
    assert_eq!(fb1.depth, fb2.depth);
}

#[test]
fn degenerate_triangle_is_skipped() {
    let mut fb = FrameBuffer::new(16, 16);
    // Three collinear points: zero area.
    let a = pv(1, 1, FX_ONE);
    let b = pv(5, 5, FX_ONE);
    let c = pv(9, 9, FX_ONE);
    raster_triangle(&mut fb, a, b, c, ShaderMode::Star, 0);
    for i in 0..(16 * 16) {
        assert_eq!(fb.depth[i], DEPTH_FAR);
        assert_eq!(fb.color[i], 0);
    }
}

#[test]
fn shade_is_deterministic_and_clamped() {
    let n = Vec3::new(30000, -20000, -50000).normalize();
    let view = Vec3::new(0, 0, -FX_ONE);
    for mode in [
        ShaderMode::Star,
        ShaderMode::Rock,
        ShaderMode::Gas,
        ShaderMode::Earth,
        ShaderMode::Moon,
    ] {
        let c1 = shade(mode, n, view, 777);
        let c2 = shade(mode, n, view, 777);
        assert_eq!(c1, c2);
        for ch in [c1.x, c1.y, c1.z] {
            assert!((0..=FX_ONE).contains(&ch));
        }
    }
}
