//! Camera state and the transform stage.
//!
//! The transform builds a rotation from the two orbit angles — around the
//! Y axis first, then around the X axis — places the camera on the view
//! axis `distance` in front of the origin (so view-space position is the
//! rotated vertex plus `distance` along Z, and the camera looks down +Z),
//! and projects with a simple perspective divide clamped at `Z_EPS`:
//! there is no true near-plane clipping.  Normals are rotated but never
//! perspective-divided.  Normalized device coordinates map to pixels with
//! the Y axis flipped so the origin is the top-left pixel.

use vstd::prelude::*;
use crate::fixed::{
    FX_ONE, FX_HALF, clamp_i, fxdiv, fxmul, max_i, div_floor, fx_max, fx_mul_g, muldiv_i128,
    lemma_div_bounds,
};
use crate::math::{Vec3, vec_bounded};
use crate::trig::{spec_sin, spec_cos, sin_fx, cos_fx};
use vstd::arithmetic::div_mod::lemma_div_is_ordered_by_denominator;

verus! {

/// Depth clamp for the perspective divide (0.1): the single numeric-safety
/// rule that keeps near-zero and negative depths from blowing up.
pub const Z_EPS: i64 = 6554;

/// Field-of-view scale (1.0) applied after the perspective divide.
pub const FOV_FX: i64 = 65536;

/// Projected screen coordinates are clamped to this magnitude, millions of
/// pixels beyond any viewport, so later arithmetic stays in range.
pub const COORD_MAX: i64 = 0x40_0000_0000;

/// Largest magnitude of a mesh position component (1024.0).
pub const POS_MAX: i64 = 0x400_0000;

/// Largest camera distance (16384.0).
pub const DIST_MAX: i64 = 0x4000_0000;

/// Zoom limits: about 0.01 through 16384.0.
pub const ZOOM_MIN: i64 = 655;

pub const ZOOM_MAX: i64 = 0x4000_0000;

/// Largest orbit angle magnitude kept in the camera state.
pub const ANGLE_MAX: i64 = 0x8000_0000;

/// Rotated normals keep a small slack beyond the unit bound.
pub const NORMAL_ROT_MAX: i64 = 196612;

/// Largest magnitude of a view-space depth.
pub const DEPTH_MAX: i64 = 0x1000_0000_0000;

/// The operator-controlled camera: orbit angles, distance along the view
/// axis, and zoom.
#[derive(Clone, Copy, PartialEq, Eq, Structural, Debug)]
pub struct CameraState {
    pub angle_x: i64,
    pub angle_y: i64,
    pub distance: i64,
    pub zoom: i64,
}

impl CameraState {
    /// The camera fields stay inside their machine limits.
    pub open spec fn wf(self) -> bool {
        &&& -ANGLE_MAX <= self.angle_x <= ANGLE_MAX
        &&& -ANGLE_MAX <= self.angle_y <= ANGLE_MAX
        &&& 0 <= self.distance <= DIST_MAX
        &&& ZOOM_MIN <= self.zoom <= ZOOM_MAX
    }

    pub fn new(angle_x: i64, angle_y: i64, distance: i64, zoom: i64) -> (r: CameraState)
        requires
            -ANGLE_MAX <= angle_x <= ANGLE_MAX,
            -ANGLE_MAX <= angle_y <= ANGLE_MAX,
            0 <= distance <= DIST_MAX,
            ZOOM_MIN <= zoom <= ZOOM_MAX,
        ensures
            r == (CameraState { angle_x, angle_y, distance, zoom }),
            r.wf(),
    {
        CameraState { angle_x, angle_y, distance, zoom }
    }
}

/// A vertex after the transform stage: screen-space position, the kept
/// view-space depth, and the rotated (not perspective-divided) normal.
#[derive(Clone, Copy, PartialEq, Eq, Structural, Debug)]
pub struct ProjectedVertex {
    pub x: i64,
    pub y: i64,
    pub z: i64,
    pub normal: Vec3,
}

/// Rotation around Y by `ay`, then around X by `ax`.
pub open spec fn srotate(p: Vec3, ax: int, ay: int) -> Vec3 {
    let sy = spec_sin(ay);
    let cy = spec_cos(ay);
    let sx = spec_sin(ax);
    let cx = spec_cos(ax);
    let x1 = fxmul(p.x as int, cy) + fxmul(p.z as int, sy);
    let z1 = fxmul(p.z as int, cy) - fxmul(p.x as int, sy);
    let y2 = fxmul(p.y as int, cx) - fxmul(z1, sx);
    let z2 = fxmul(p.y as int, sx) + fxmul(z1, cx);
    Vec3 { x: x1 as i64, y: y2 as i64, z: z2 as i64 }
}

/// Rotate a point or direction by the camera's orbit angles.
#[verifier::rlimit(50)]
fn rotate(p: Vec3, ax: i64, ay: i64, Ghost(m): Ghost<int>) -> (r: Vec3)
    requires
        0 <= m <= 0x1000_0000,
        vec_bounded(p, m),
        -ANGLE_MAX <= ax <= ANGLE_MAX,
        -ANGLE_MAX <= ay <= ANGLE_MAX,
    ensures
        r == srotate(p, ax as int, ay as int),
        vec_bounded(r, 3 * m + 4),
{
    let sy: i64 = sin_fx(ay);
    let cy: i64 = cos_fx(ay);
    let sx: i64 = sin_fx(ax);
    let cx: i64 = cos_fx(ax);
    let x1: i64 = fx_mul_g(p.x, cy, Ghost(m), Ghost(65536)) + fx_mul_g(
        p.z,
        sy,
        Ghost(m),
        Ghost(65536),
    );
    let z1: i64 = fx_mul_g(p.z, cy, Ghost(m), Ghost(65536)) - fx_mul_g(
        p.x,
        sy,
        Ghost(m),
        Ghost(65536),
    );
    let y2: i64 = fx_mul_g(p.y, cx, Ghost(m), Ghost(65536)) - fx_mul_g(
        z1,
        sx,
        Ghost(2 * m + 2),
        Ghost(65536),
    );
    let z2: i64 = fx_mul_g(p.y, sx, Ghost(m), Ghost(65536)) + fx_mul_g(
        z1,
        cx,
        Ghost(2 * m + 2),
        Ghost(65536),
    );
    Vec3 { x: x1, y: y2, z: z2 }
}

/// The horizontal screen coordinate, in fixed-point pixel units:
/// `((view.x / zc) * fov * aspect * 0.5 + 0.5) * width`, clamped.
pub open spec fn spec_screen_x(vx: int, zc: int, fov_eff: int, aspect: int, width: int) -> int {
    let ndc = fxmul(fxmul(fxdiv(vx, zc), fov_eff), aspect);
    clamp_i((fxmul(ndc, FX_HALF as int) + FX_HALF) * width, -(COORD_MAX as int), COORD_MAX as int)
}

/// The vertical screen coordinate, with the Y axis flipped:
/// `(-(view.y / zc) * fov * 0.5 + 0.5) * height`, clamped.
pub open spec fn spec_screen_y(vy: int, zc: int, fov_eff: int, height: int) -> int {
    let ndc = fxmul(fxdiv(vy, zc), fov_eff);
    clamp_i(((FX_HALF as int) - fxmul(ndc, FX_HALF as int)) * height, -(COORD_MAX as int),
        COORD_MAX as int)
}

/// Clamp a wide intermediate to the screen-coordinate range.
fn clamp_coord(p: i128) -> (r: i64)
    ensures
        r == clamp_i(p as int, -(COORD_MAX as int), COORD_MAX as int),
        -COORD_MAX <= r <= COORD_MAX,
{
    if p < -(COORD_MAX as i128) {
        -COORD_MAX
    } else if p > COORD_MAX as i128 {
        COORD_MAX
    } else {
        p as i64
    }
}

fn screen_x(vx: i64, zc: i64, fov_eff: i64, aspect: i64, width: i64) -> (r: i64)
    requires
        -0x2000_0000 <= vx <= 0x2000_0000,
        1 <= zc,
        0 <= fov_eff <= 0x800_0000,
        0 <= aspect <= 0x1000_0000,
        1 <= width <= 4096,
    ensures
        r == spec_screen_x(vx as int, zc as int, fov_eff as int, aspect as int, width as int),
        -COORD_MAX <= r <= COORD_MAX,
{
    let q: i128 = muldiv_i128(vx as i128, FX_ONE as i128, zc as i128, Ghost(0x2000_0000),
        Ghost(65536));
    let m1: i128 = muldiv_i128(q, fov_eff as i128, FX_ONE as i128, Ghost(0x4000_0000_0000),
        Ghost(0x800_0000));
    let m2: i128 = muldiv_i128(m1, aspect as i128, FX_ONE as i128,
        Ghost(0x400_0000_0000_0000), Ghost(0x1000_0000));
    let m3: i128 = muldiv_i128(m2, FX_HALF as i128, FX_ONE as i128,
        Ghost(0x80_0000_0000_0000_0000), Ghost(32768)) + FX_HALF as i128;
    proof {
        assert(-0x8_0000_0000_0000_0000_0000_0000 <= (m3 as int) * (width as int)
            <= 0x8_0000_0000_0000_0000_0000_0000) by (nonlinear_arith)
            requires
                -0x100_0000_0000_0000_0000 <= m3 as int <= 0x100_0000_0000_0000_0000,
                1 <= width as int <= 4096,
        ;
    }
    let p: i128 = m3 * (width as i128);
    clamp_coord(p)
}

fn screen_y(vy: i64, zc: i64, fov_eff: i64, height: i64) -> (r: i64)
    requires
        -0x2000_0000 <= vy <= 0x2000_0000,
        1 <= zc,
        0 <= fov_eff <= 0x800_0000,
        1 <= height <= 4096,
    ensures
        r == spec_screen_y(vy as int, zc as int, fov_eff as int, height as int),
        -COORD_MAX <= r <= COORD_MAX,
{
    let q: i128 = muldiv_i128(vy as i128, FX_ONE as i128, zc as i128, Ghost(0x2000_0000),
        Ghost(65536));
    let m1: i128 = muldiv_i128(q, fov_eff as i128, FX_ONE as i128, Ghost(0x4000_0000_0000),
        Ghost(0x800_0000));
    let m3: i128 = (FX_HALF as i128) - muldiv_i128(m1, FX_HALF as i128, FX_ONE as i128,
        Ghost(0x400_0000_0000_0000), Ghost(32768));
    proof {
        assert(-0x8_0000_0000_0000_0000_0000_0000 <= (m3 as int) * (height as int)
            <= 0x8_0000_0000_0000_0000_0000_0000) by (nonlinear_arith)
            requires
                -0x100_0000_0000_0000_0000 <= m3 as int <= 0x100_0000_0000_0000_0000,
                1 <= height as int <= 4096,
        ;
    }
    let p: i128 = m3 * (height as i128);
    clamp_coord(p)
}

/// The whole transform of one vertex: rotation, translation along the
/// view axis, guarded perspective divide, and the pixel mapping.
pub open spec fn spec_project(pos: Vec3, normal: Vec3, cam: CameraState, width: int, height: int)
    -> ProjectedVertex {
    let rp = srotate(pos, cam.angle_x as int, cam.angle_y as int);
    let view_z = rp.z + cam.distance;
    let zc = max_i(view_z, Z_EPS as int);
    let fov_eff = fxdiv(FOV_FX as int, cam.zoom as int);
    let aspect = (width * (FX_ONE as int)) / height;
    ProjectedVertex {
        x: spec_screen_x(rp.x as int, zc, fov_eff, aspect, width) as i64,
        y: spec_screen_y(rp.y as int, zc, fov_eff, height) as i64,
        z: view_z as i64,
        normal: srotate(normal, cam.angle_x as int, cam.angle_y as int),
    }
}

/// Transform one vertex into screen space.
pub fn project_vertex(pos: Vec3, normal: Vec3, cam: &CameraState, width: usize, height: usize)
    -> (pv: ProjectedVertex)
    requires
        cam.wf(),
        vec_bounded(pos, POS_MAX as int),
        vec_bounded(normal, FX_ONE as int),
        1 <= width <= 4096,
        1 <= height <= 4096,
    ensures
        pv == spec_project(pos, normal, *cam, width as int, height as int),
        -COORD_MAX <= pv.x <= COORD_MAX,
        -COORD_MAX <= pv.y <= COORD_MAX,
        -DEPTH_MAX <= pv.z <= DEPTH_MAX,
        vec_bounded(pv.normal, NORMAL_ROT_MAX as int),
{
    let rp: Vec3 = rotate(pos, cam.angle_x, cam.angle_y, Ghost(POS_MAX as int));
    let view_z: i64 = rp.z + cam.distance;
    let zc: i64 = fx_max(view_z, Z_EPS);
    proof {
        lemma_div_bounds((FOV_FX as int) * (FX_ONE as int), cam.zoom as int);
        lemma_div_is_ordered_by_denominator((FOV_FX as int) * (FX_ONE as int), ZOOM_MIN as int,
            cam.zoom as int);
    }
    let fov_eff: i64 = crate::fixed::fx_div(FOV_FX, cam.zoom);
    let aspect: i64 = div_floor((width as i64) * FX_ONE, height as i64);
    proof {
        lemma_div_bounds((width as int) * (FX_ONE as int), height as int);
    }
    let px: i64 = screen_x(rp.x, zc, fov_eff, aspect, width as i64);
    let py: i64 = screen_y(rp.y, zc, fov_eff, height as i64);
    let rn: Vec3 = rotate(normal, cam.angle_x, cam.angle_y, Ghost(FX_ONE as int));
    ProjectedVertex { x: px, y: py, z: view_z, normal: rn }
}

} // verus!
