//! The frame and animation driver.
//!
//! The driver owns the frame buffer and the mutable camera, mode and
//! time state.  Each frame it clears both buffers, runs every mesh
//! triangle through the transform stage and the rasterizer, and advances
//! the animation time by a fixed step.  Discrete input events — the
//! digit keys selecting a material, zoom keys and scroll wheel — mutate
//! the state between frames exactly as the contracts below state.

use vstd::prelude::*;
use crate::fixed::{FX_ONE, fxmul, min_i, max_i, fx_clamp, fx_min, fx_max, fx_mul_g};
use crate::camera::{
    CameraState, ProjectedVertex, ANGLE_MAX, DIST_MAX, ZOOM_MIN, ZOOM_MAX, spec_project,
    project_vertex,
};
use crate::mesh::{Mesh, Vertex};
use crate::raster::{FrameBuffer, DEPTH_FAR, raster_depth, raster_color, raster_triangle};
use crate::shaders::{ShaderMode, TIME_MAX};
use vstd::arithmetic::div_mod::{
    lemma_div_is_ordered, lemma_div_multiples_vanish, lemma_fundamental_div_mod,
};

verus! {

/// The fixed per-frame time increment, about a sixtieth of a second.
pub const TIME_STEP: i64 = 1092;

/// A discrete input event, as the windowing collaborator delivers it:
/// a pressed character key, or a scroll-wheel step with its sign.
#[derive(Clone, Copy, PartialEq, Eq, Structural, Debug)]
pub enum InputEvent {
    KeyChar(char),
    Scroll(i64),
}

/// The projected `k`-th corner referenced by the index list.
pub open spec fn proj_of(vs: Seq<Vertex>, idx: Seq<u32>, k: int, cam: CameraState, width: int,
    height: int) -> ProjectedVertex {
    let v = vs[idx[k] as int];
    spec_project(v.position, v.normal, cam, width, height)
}

/// The frame buffers after clearing and rasterizing the first `t`
/// triangles of the mesh, in submission order.
pub open spec fn spec_render(vs: Seq<Vertex>, idx: Seq<u32>, cam: CameraState, mode: ShaderMode,
    time: int, width: int, height: int, t: int) -> (Seq<i64>, Seq<u32>)
    decreases t,
{
    if t <= 0 {
        (Seq::new((width * height) as nat, |i: int| DEPTH_FAR), Seq::new((width * height) as nat,
            |i: int| 0u32))
    } else {
        let prev = spec_render(vs, idx, cam, mode, time, width, height, t - 1);
        let a = proj_of(vs, idx, 3 * (t - 1), cam, width, height);
        let b = proj_of(vs, idx, 3 * (t - 1) + 1, cam, width, height);
        let c = proj_of(vs, idx, 3 * (t - 1) + 2, cam, width, height);
        (raster_depth(a, b, c, width, height, prev.0), raster_color(a, b, c, mode, time, width,
            height, prev.0, prev.1))
    }
}

/// The software renderer: buffers plus the camera, material and time
/// state that persist across frames.
pub struct Renderer {
    pub fb: FrameBuffer,
    pub camera: CameraState,
    pub mode: ShaderMode,
    pub time: i64,
}

impl Renderer {
    pub open spec fn wf(self) -> bool {
        &&& self.fb.wf()
        &&& self.camera.wf()
        &&& 0 <= self.time <= TIME_MAX
    }

    /// A fresh renderer: cleared buffers, the camera ten units out at
    /// rest angles and unit zoom, rocky material, time zero.
    pub fn new(width: usize, height: usize) -> (r: Renderer)
        requires
            1 <= width <= 4096,
            1 <= height <= 4096,
        ensures
            r.wf(),
            r.fb.width == width,
            r.fb.height == height,
            r.fb.color@ == Seq::new((width * height) as nat, |i: int| 0u32),
            r.fb.depth@ == Seq::new((width * height) as nat, |i: int| DEPTH_FAR),
            r.camera == (CameraState { angle_x: 0i64, angle_y: 0i64, distance: 655360i64, zoom:
                FX_ONE }),
            r.mode == ShaderMode::Rock,
            r.time == 0,
    {
        Renderer {
            fb: FrameBuffer::new(width, height),
            camera: CameraState::new(0, 0, 655360, FX_ONE),
            mode: ShaderMode::Rock,
            time: 0,
        }
    }

    /// Render one frame: clear both buffers, rasterize every triangle,
    /// and advance the time by `TIME_STEP`, saturating at `TIME_MAX`.
    pub fn render(&mut self, mesh: &Mesh)
        requires
            old(self).wf(),
            mesh.wf(),
        ensures
            final(self).wf(),
            final(self).fb.width == old(self).fb.width,
            final(self).fb.height == old(self).fb.height,
            final(self).camera == old(self).camera,
            final(self).mode == old(self).mode,
            final(self).time == min_i(old(self).time + TIME_STEP, TIME_MAX as int),
            final(self).fb.depth@ == spec_render(mesh.vertices@, mesh.indices@, old(self).camera,
                old(self).mode, old(self).time as int, old(self).fb.width as int,
                old(self).fb.height as int, mesh.indices@.len() as int / 3).0,
            final(self).fb.color@ == spec_render(mesh.vertices@, mesh.indices@, old(self).camera,
                old(self).mode, old(self).time as int, old(self).fb.width as int,
                old(self).fb.height as int, mesh.indices@.len() as int / 3).1,
    {
        let w: usize = self.fb.width;
        let h: usize = self.fb.height;
        let ghost gw: int = w as int;
        let ghost gh: int = h as int;
        let ghost cam0 = self.camera;
        let ghost mode0 = self.mode;
        let ghost time0: int = self.time as int;
        self.fb.clear();
        proof {
            assert(self.fb.depth@ =~= spec_render(mesh.vertices@, mesh.indices@, cam0, mode0,
                time0, gw, gh, 0).0);
            assert(self.fb.color@ =~= spec_render(mesh.vertices@, mesh.indices@, cam0, mode0,
                time0, gw, gh, 0).1);
            lemma_fundamental_div_mod(mesh.indices@.len() as int, 3);
        }
        let n: usize = mesh.indices.len() / 3;
        let mut t: usize = 0;
        while t < n
            invariant
                self.fb.wf(),
                self.fb.width == w,
                self.fb.height == h,
                gw == w as int,
                gh == h as int,
                self.camera == cam0,
                self.mode == mode0,
                self.time as int == time0,
                cam0.wf(),
                0 <= time0 <= TIME_MAX,
                mesh.wf(),
                n == mesh.indices@.len() / 3,
                3 * n == mesh.indices@.len(),
                t <= n,
                self.fb.depth@ == spec_render(mesh.vertices@, mesh.indices@, cam0, mode0, time0,
                    gw, gh, t as int).0,
                self.fb.color@ == spec_render(mesh.vertices@, mesh.indices@, cam0, mode0, time0,
                    gw, gh, t as int).1,
            decreases n - t,
        {
            let i0: usize = mesh.indices[3 * t] as usize;
            let i1: usize = mesh.indices[3 * t + 1] as usize;
            let i2: usize = mesh.indices[3 * t + 2] as usize;
            let v0: Vertex = mesh.vertices[i0];
            let v1: Vertex = mesh.vertices[i1];
            let v2: Vertex = mesh.vertices[i2];
            let pa: ProjectedVertex = project_vertex(v0.position, v0.normal, &self.camera, w, h);
            let pb: ProjectedVertex = project_vertex(v1.position, v1.normal, &self.camera, w, h);
            let pc: ProjectedVertex = project_vertex(v2.position, v2.normal, &self.camera, w, h);
            raster_triangle(&mut self.fb, pa, pb, pc, self.mode, self.time);
            t = t + 1;
        }
        self.time = fx_min(self.time + TIME_STEP, TIME_MAX);
    }

    /// Adopt a new viewport, clearing the buffers; zero-sized viewports
    /// are ignored and dimensions beyond 4096 are clamped, as machine
    /// limits.
    pub fn resize(&mut self, width: usize, height: usize)
        requires
            old(self).wf(),
        ensures
            final(self).wf(),
            final(self).camera == old(self).camera,
            final(self).mode == old(self).mode,
            final(self).time == old(self).time,
            width == 0 || height == 0 ==> *final(self) == *old(self),
            width >= 1 && height >= 1 ==> {
                let w = min_i(width as int, 4096);
                let h = min_i(height as int, 4096);
                &&& final(self).fb.width == w
                &&& final(self).fb.height == h
                &&& final(self).fb.color@ == Seq::new((w * h) as nat, |i: int| 0u32)
                &&& final(self).fb.depth@ == Seq::new((w * h) as nat, |i: int| DEPTH_FAR)
            },
    {
        if width == 0 || height == 0 {
            return;
        }
        let w: usize = if width > 4096 {
            4096
        } else {
            width
        };
        let h: usize = if height > 4096 {
            4096
        } else {
            height
        };
        self.fb = FrameBuffer::new(w, h);
    }

    /// Handle one discrete input event: digits 1 through 5 select the
    /// material, `+` and a scroll up zoom in (zoom shrinks by a tenth),
    /// `-` and a scroll down zoom out (zoom grows by a tenth), both
    /// clamped to the zoom limits.  Returns true: the event was
    /// examined.
    pub fn input(&mut self, event: &InputEvent) -> (consumed: bool)
        requires
            old(self).wf(),
        ensures
            final(self).wf(),
            consumed == true,
            final(self).fb == old(self).fb,
            final(self).time == old(self).time,
            final(self).camera.angle_x == old(self).camera.angle_x,
            final(self).camera.angle_y == old(self).camera.angle_y,
            final(self).camera.distance == old(self).camera.distance,
            match *event {
                InputEvent::KeyChar(ch) => {
                    &&& final(self).mode == (if ch == '1' {
                        ShaderMode::Star
                    } else if ch == '2' {
                        ShaderMode::Rock
                    } else if ch == '3' {
                        ShaderMode::Gas
                    } else if ch == '4' {
                        ShaderMode::Earth
                    } else if ch == '5' {
                        ShaderMode::Moon
                    } else {
                        old(self).mode
                    })
                    &&& final(self).camera.zoom == (if ch == '+' {
                        max_i(fxmul(old(self).camera.zoom as int, 58982), ZOOM_MIN as int)
                    } else if ch == '-' {
                        min_i(fxmul(old(self).camera.zoom as int, 72090), ZOOM_MAX as int)
                    } else {
                        old(self).camera.zoom as int
                    })
                },
                InputEvent::Scroll(y) => {
                    &&& final(self).mode == old(self).mode
                    &&& final(self).camera.zoom == (if y > 0 {
                        max_i(fxmul(old(self).camera.zoom as int, 58982), ZOOM_MIN as int)
                    } else {
                        min_i(fxmul(old(self).camera.zoom as int, 72090), ZOOM_MAX as int)
                    })
                },
            },
    {
        match event {
            InputEvent::KeyChar(ch) => {
                match *ch {
                    '1' => {
                        self.mode = ShaderMode::Star;
                    },
                    '2' => {
                        self.mode = ShaderMode::Rock;
                    },
                    '3' => {
                        self.mode = ShaderMode::Gas;
                    },
                    '4' => {
                        self.mode = ShaderMode::Earth;
                    },
                    '5' => {
                        self.mode = ShaderMode::Moon;
                    },
                    '+' => {
                        self.zoom_in();
                    },
                    '-' => {
                        self.zoom_out();
                    },
                    _ => {},
                }
                true
            },
            InputEvent::Scroll(y) => {
                if *y > 0 {
                    self.zoom_in();
                } else {
                    self.zoom_out();
                }
                true
            },
        }
    }

    /// Shrink the zoom factor by a tenth, never below the minimum.
    fn zoom_in(&mut self)
        requires
            old(self).wf(),
        ensures
            final(self).wf(),
            *final(self) == (Renderer {
                camera: CameraState {
                    zoom: max_i(fxmul(old(self).camera.zoom as int, 58982),
                        ZOOM_MIN as int) as i64,
                    ..old(self).camera
                },
                ..*old(self)
            }),
    {
        let z: i64 = fx_mul_g(self.camera.zoom, 58982, Ghost(0x4000_0000), Ghost(58982));
        self.camera.zoom = fx_max(z, ZOOM_MIN);
    }

    /// Grow the zoom factor by a tenth, never beyond the maximum.
    fn zoom_out(&mut self)
        requires
            old(self).wf(),
        ensures
            final(self).wf(),
            *final(self) == (Renderer {
                camera: CameraState {
                    zoom: min_i(fxmul(old(self).camera.zoom as int, 72090),
                        ZOOM_MAX as int) as i64,
                    ..old(self).camera
                },
                ..*old(self)
            }),
    {
        proof {
            let z0 = self.camera.zoom as int;
            assert(z0 * 65536 <= z0 * 72090) by (nonlinear_arith)
                requires
                    0 <= z0,
            ;
            lemma_div_is_ordered(z0 * 65536, z0 * 72090, 65536);
            lemma_div_multiples_vanish(z0, 65536);
            assert(z0 * 65536 == 65536 * z0) by (nonlinear_arith);
        }
        let z: i64 = fx_mul_g(self.camera.zoom, 72090, Ghost(0x4000_0000), Ghost(72090));
        self.camera.zoom = fx_min(z, ZOOM_MAX);
    }

    /// Orbit the camera by the given angle deltas, clamped to the angle
    /// range.
    pub fn apply_orbit(&mut self, dx: i64, dy: i64)
        requires
            old(self).wf(),
            -ANGLE_MAX <= dx <= ANGLE_MAX,
            -ANGLE_MAX <= dy <= ANGLE_MAX,
        ensures
            final(self).wf(),
            *final(self) == (Renderer {
                camera: CameraState {
                    angle_x: crate::fixed::clamp_i(old(self).camera.angle_x + dx,
                        -ANGLE_MAX as int, ANGLE_MAX as int) as i64,
                    angle_y: crate::fixed::clamp_i(old(self).camera.angle_y + dy,
                        -ANGLE_MAX as int, ANGLE_MAX as int) as i64,
                    ..old(self).camera
                },
                ..*old(self)
            }),
    {
        self.camera.angle_x = fx_clamp(self.camera.angle_x + dx, -ANGLE_MAX, ANGLE_MAX);
        self.camera.angle_y = fx_clamp(self.camera.angle_y + dy, -ANGLE_MAX, ANGLE_MAX);
    }

    /// Move the camera along the view axis, clamped to the distance
    /// range.
    pub fn apply_distance(&mut self, dd: i64)
        requires
            old(self).wf(),
            -DIST_MAX <= dd <= DIST_MAX,
        ensures
            final(self).wf(),
            *final(self) == (Renderer {
                camera: CameraState {
                    distance: crate::fixed::clamp_i(old(self).camera.distance + dd, 0,
                        DIST_MAX as int) as i64,
                    ..old(self).camera
                },
                ..*old(self)
            }),
    {
        self.camera.distance = fx_clamp(self.camera.distance + dd, 0, DIST_MAX);
    }
}

} // verus!
