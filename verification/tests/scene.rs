//! Whole-pipeline scenarios: the UV sphere rendered through the frame
//! driver, mesh validation, and the input handling.

use planet_render::fixed::FX_ONE;
use planet_render::math::Vec3;
use planet_render::mesh::{make_uv_sphere, Mesh, MeshError, Vertex};
use planet_render::renderer::{InputEvent, Renderer, TIME_STEP};
use planet_render::shaders::ShaderMode;

#[test]
fn sphere_counts_and_pole_vertex() {
    let m = make_uv_sphere(64, 64);
    assert_eq!(m.vertices.len(), 65 * 65);
    assert_eq!(m.indices.len(), 6 * 64 * 64);
    assert_eq!(m.triangle_count(), 2 * 64 * 64);
    // The first vertex is the north pole: latitude angle zero.
    let north = m.vertices[0];
    assert_eq!(north.position, Vec3::new(0, 65535, 0));
    assert_eq!(north.normal, north.position);
}

#[test]
fn sphere_tessellation_is_clamped() {
    let m = make_uv_sphere(0, 0);
    assert_eq!(m.vertices.len(), 4 * 4);
    assert_eq!(m.indices.len(), 6 * 3 * 3);
    for &i in m.indices.iter() {
        assert!((i as usize) < m.vertices.len());
    }
}

#[test]
fn moon_sphere_covers_only_its_silhouette() {
    // Unit sphere, 64x64 tessellation, camera at distance 10 on the view
    // axis, rest angles, moon material, time zero.  The projected
    // silhouette has a radius of about six and a half pixels around the
    // center of a 128x128 viewport.
    let mesh = make_uv_sphere(64, 64);
    let mut r = Renderer::new(128, 128);
    r.input(&InputEvent::KeyChar('5'));
    assert_eq!(r.mode, ShaderMode::Moon);
    r.render(&mesh);
    let center = 64usize * 128 + 64;
    assert_ne!(r.fb.color[center], 0, "center pixel must be shaded");
    for row in 0..128usize {
        for col in 0..128usize {
            let dr = row as i64 - 64;
            let dc = col as i64 - 64;
            if dr * dr + dc * dc > 100 {
                let i = row * 128 + col;
                assert_eq!(r.fb.color[i], 0, "background expected at {},{}", row, col);
            }
        }
    }
}

#[test]
fn render_advances_time_and_keeps_camera() {
    let mesh = make_uv_sphere(8, 8);
    let mut r = Renderer::new(32, 32);
    let cam = r.camera;
    r.render(&mesh);
    assert_eq!(r.time, TIME_STEP);
    assert_eq!(r.camera, cam);
    r.render(&mesh);
    assert_eq!(r.time, 2 * TIME_STEP);
}

#[test]
fn renderer_defaults() {
    let r = Renderer::new(64, 48);
    assert_eq!(r.fb.width, 64);
    assert_eq!(r.fb.height, 48);
    assert_eq!(r.mode, ShaderMode::Rock);
    assert_eq!(r.time, 0);
    assert_eq!(r.camera.distance, 10 * FX_ONE);
    assert_eq!(r.camera.zoom, FX_ONE);
    assert_eq!(r.camera.angle_x, 0);
    assert_eq!(r.camera.angle_y, 0);
}

#[test]
fn digit_keys_select_modes() {
    let mut r = Renderer::new(8, 8);
    let cases = [
        ('1', ShaderMode::Star),
        ('2', ShaderMode::Rock),
        ('3', ShaderMode::Gas),
        ('4', ShaderMode::Earth),
        ('5', ShaderMode::Moon),
    ];
    for (ch, mode) in cases {
        assert!(r.input(&InputEvent::KeyChar(ch)));
        assert_eq!(r.mode, mode);
    }
    // An unmapped key leaves the mode alone.
    r.input(&InputEvent::KeyChar('x'));
    assert_eq!(r.mode, ShaderMode::Moon);
}

#[test]
fn zoom_keys_and_scroll_scale_zoom() {
    let mut r = Renderer::new(8, 8);
    assert_eq!(r.camera.zoom, 65536);
    r.input(&InputEvent::KeyChar('+'));
    assert_eq!(r.camera.zoom, 58982);
    r.input(&InputEvent::KeyChar('-'));
    assert_eq!(r.camera.zoom, 58982 * 72090 / 65536);
    let z = r.camera.zoom;
    r.input(&InputEvent::Scroll(3));
    assert_eq!(r.camera.zoom, z * 58982 / 65536);
    r.input(&InputEvent::Scroll(-2));
    assert_eq!(r.camera.zoom, (z * 58982 / 65536) * 72090 / 65536);
}

#[test]
fn zoom_saturates_at_its_limits() {
    let mut r = Renderer::new(8, 8);
    for _ in 0..200 {
        r.input(&InputEvent::KeyChar('+'));
    }
    assert_eq!(r.camera.zoom, 655);
    for _ in 0..400 {
        r.input(&InputEvent::KeyChar('-'));
    }
    assert_eq!(r.camera.zoom, 0x4000_0000);
}

#[test]
fn orbit_and_distance_are_clamped() {
    let mut r = Renderer::new(8, 8);
    r.apply_orbit(1000, -2000);
    assert_eq!(r.camera.angle_x, 1000);
    assert_eq!(r.camera.angle_y, -2000);
    r.apply_distance(-0x4000_0000);
    assert_eq!(r.camera.distance, 0);
    r.apply_distance(0x4000_0000);
    r.apply_distance(0x4000_0000);
    assert_eq!(r.camera.distance, 0x4000_0000);
}

#[test]
fn resize_ignores_zero_and_clamps() {
    let mut r = Renderer::new(16, 16);
    r.resize(0, 99);
    assert_eq!(r.fb.width, 16);
    r.resize(40, 30);
    assert_eq!(r.fb.width, 40);
    assert_eq!(r.fb.height, 30);
    assert_eq!(r.fb.color.len(), 40 * 30);
    r.resize(9999, 5000);
    assert_eq!(r.fb.width, 4096);
    assert_eq!(r.fb.height, 4096);
}

#[test]
fn mesh_accepts_valid_lists() {
    let v = Vertex {
        position: Vec3::new(0, 0, 0),
        normal: Vec3::new(0, 0, -FX_ONE),
    };
    let m = match Mesh::from_vertices_indices(vec![v, v, v], vec![0, 1, 2]) {
        Ok(m) => m,
        Err(_) => panic!("expected a valid mesh"),
    };
    assert_eq!(m.vertices.len(), 3);
    assert_eq!(m.indices.len(), 3);
}

#[test]
fn mesh_rejects_incomplete_triangles() {
    let v = Vertex {
        position: Vec3::new(0, 0, 0),
        normal: Vec3::new(0, 0, -FX_ONE),
    };
    let e = match Mesh::from_vertices_indices(vec![v], vec![0]) {
        Err(e) => e,
        Ok(_) => panic!("expected a rejection"),
    };
    assert_eq!(e, MeshError::IncompleteTriangle);
}

#[test]
fn mesh_rejects_out_of_bounds_index() {
    let v = Vertex {
        position: Vec3::new(0, 0, 0),
        normal: Vec3::new(0, 0, -FX_ONE),
    };
    let e = match Mesh::from_vertices_indices(vec![v, v], vec![0, 1, 2]) {
        Err(e) => e,
        Ok(_) => panic!("expected a rejection"),
    };
    assert_eq!(e, MeshError::IndexOutOfBounds);
}

#[test]
fn mesh_rejects_out_of_range_vertex() {
    let bad = Vertex {
        position: Vec3::new(0, 0, 0),
        normal: Vec3::new(2 * FX_ONE, 0, 0),
    };
    let e = match Mesh::from_vertices_indices(vec![bad, bad, bad], vec![0, 1, 2]) {
        Err(e) => e,
        Ok(_) => panic!("expected a rejection"),
    };
    assert_eq!(e, MeshError::VertexOutOfRange);
}

#[test]
fn mesh_rejects_oversized_lists() {
    let v = Vertex {
        position: Vec3::new(0, 0, 0),
        normal: Vec3::new(0, 0, -FX_ONE),
    };
    let indices: Vec<u32> = vec![0; 0x60_0000 + 3];
    let e = match Mesh::from_vertices_indices(vec![v], indices) {
        Err(e) => e,
        Ok(_) => panic!("expected a rejection"),
    };
    assert_eq!(e, MeshError::TooLarge);
}
