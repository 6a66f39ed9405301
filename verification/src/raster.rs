//! Triangle rasterization with depth testing.
//!
//! For each triangle the rasterizer walks the clamped bounding box of its
//! three projected vertices, evaluates the three edge functions at every
//! pixel, and fills the pixel when all three share a sign — so both
//! triangle winding orders fill the same pixels and there is no backface
//! culling.  Edge values normalized by the signed area give barycentric
//! weights that interpolate depth (linearly in screen space) and the
//! normal, which is re-normalized only after interpolation.  A pixel is
//! written only when its interpolated depth is strictly below the stored
//! depth, which keeps rendering order-independent and makes ties resolve
//! to the first writer.

use vstd::prelude::*;
use crate::fixed::{
    FX_ONE, abs_i, max_i, min_i, div_floor, div_floor_i128, fx_max, fx_min, lemma_div_bounds,
};
use crate::math::{Vec3, vec_bounded, spec_unit};
use crate::camera::{ProjectedVertex, COORD_MAX, DEPTH_MAX, NORMAL_ROT_MAX};
use crate::shaders::{ShaderMode, TIME_MAX, spec_shade, shade};
use vstd::arithmetic::div_mod::{
    lemma_div_is_ordered, lemma_div_multiples_vanish, lemma_fundamental_div_mod,
    lemma_fundamental_div_mod_converse, lemma_mod_division_less_than_divisor,
};

verus! {

/// Triangles whose doubled signed area is below this threshold are
/// degenerate and skipped entirely.
pub const AREA_EPS: i64 = 42950;

/// The depth buffer's clear value, standing for infinity.
pub const DEPTH_FAR: i64 = i64::MAX;

/// The fixed view direction handed to the shading engine: from the
/// surface toward the camera, which looks down +Z in view space.
pub open spec fn spec_view_dir() -> Vec3 {
    Vec3 { x: 0i64, y: 0i64, z: -65536i64 }
}

/// The edge function: the doubled signed area of the triangle
/// `(a, b, p)`, positive when `p` lies to one side of `a -> b`.
pub open spec fn edge(ax: int, ay: int, bx: int, by: int, px: int, py: int) -> int {
    (px - ax) * (by - ay) - (py - ay) * (bx - ax)
}

/// Doubled signed area of the projected triangle.
pub open spec fn tri_area(a: ProjectedVertex, b: ProjectedVertex, c: ProjectedVertex) -> int {
    edge(a.x as int, a.y as int, b.x as int, b.y as int, c.x as int, c.y as int)
}

/// Edge value opposite vertex `a`.
pub open spec fn w0_at(a: ProjectedVertex, b: ProjectedVertex, c: ProjectedVertex, px: int, py: int)
    -> int {
    edge(b.x as int, b.y as int, c.x as int, c.y as int, px, py)
}

/// Edge value opposite vertex `b`.
pub open spec fn w1_at(a: ProjectedVertex, b: ProjectedVertex, c: ProjectedVertex, px: int, py: int)
    -> int {
    edge(c.x as int, c.y as int, a.x as int, a.y as int, px, py)
}

/// Edge value opposite vertex `c`.
pub open spec fn w2_at(a: ProjectedVertex, b: ProjectedVertex, c: ProjectedVertex, px: int, py: int)
    -> int {
    edge(a.x as int, a.y as int, b.x as int, b.y as int, px, py)
}

/// The winding-agnostic inside test: the point is covered when the three
/// edge values share a sign.
pub open spec fn covers(a: ProjectedVertex, b: ProjectedVertex, c: ProjectedVertex, px: int,
    py: int) -> bool {
    let e0 = w0_at(a, b, c, px, py);
    let e1 = w1_at(a, b, c, px, py);
    let e2 = w2_at(a, b, c, px, py);
    (e0 >= 0 && e1 >= 0 && e2 >= 0) || (e0 <= 0 && e1 <= 0 && e2 <= 0)
}

/// The area with its sign normalized away; the weights below are
/// normalized the same way, so their sum equals `narea`.
pub open spec fn narea(a: ProjectedVertex, b: ProjectedVertex, c: ProjectedVertex) -> int {
    abs_i(tri_area(a, b, c))
}

pub open spec fn nw0(a: ProjectedVertex, b: ProjectedVertex, c: ProjectedVertex, px: int, py: int)
    -> int {
    if tri_area(a, b, c) < 0 {
        -w0_at(a, b, c, px, py)
    } else {
        w0_at(a, b, c, px, py)
    }
}

pub open spec fn nw1(a: ProjectedVertex, b: ProjectedVertex, c: ProjectedVertex, px: int, py: int)
    -> int {
    if tri_area(a, b, c) < 0 {
        -w1_at(a, b, c, px, py)
    } else {
        w1_at(a, b, c, px, py)
    }
}

pub open spec fn nw2(a: ProjectedVertex, b: ProjectedVertex, c: ProjectedVertex, px: int, py: int)
    -> int {
    if tri_area(a, b, c) < 0 {
        -w2_at(a, b, c, px, py)
    } else {
        w2_at(a, b, c, px, py)
    }
}

/// Barycentric interpolation of the per-vertex quantities `q0, q1, q2`
/// at the given sample point.
pub open spec fn interp_at(a: ProjectedVertex, b: ProjectedVertex, c: ProjectedVertex, px: int,
    py: int, q0: int, q1: int, q2: int) -> int {
    (nw0(a, b, c, px, py) * q0 + nw1(a, b, c, px, py) * q1 + nw2(a, b, c, px, py) * q2) / narea(
        a,
        b,
        c,
    )
}

/// The interpolated view-space depth at a sample point.
pub open spec fn depth_at(a: ProjectedVertex, b: ProjectedVertex, c: ProjectedVertex, px: int,
    py: int) -> int {
    interp_at(a, b, c, px, py, a.z as int, b.z as int, c.z as int)
}

/// The interpolated (not yet re-normalized) surface normal.
pub open spec fn normal_at(a: ProjectedVertex, b: ProjectedVertex, c: ProjectedVertex, px: int,
    py: int) -> Vec3 {
    Vec3 {
        x: interp_at(a, b, c, px, py, a.normal.x as int, b.normal.x as int, c.normal.x as int)
            as i64,
        y: interp_at(a, b, c, px, py, a.normal.y as int, b.normal.y as int, c.normal.y as int)
            as i64,
        z: interp_at(a, b, c, px, py, a.normal.z as int, b.normal.z as int, c.normal.z as int)
            as i64,
    }
}

/// Pack a clamped color into 8 bits per channel, red high.
pub open spec fn spec_pack_rgb(c: Vec3) -> u32 {
    (((c.x * 255) / (FX_ONE as int)) * 65536 + ((c.y * 255) / (FX_ONE as int)) * 256 + (c.z * 255)
        / (FX_ONE as int)) as u32
}

/// The shaded, packed color at a sample point: the interpolated normal is
/// re-normalized, then handed to the shading engine with the fixed view
/// direction.
pub open spec fn shaded_at(a: ProjectedVertex, b: ProjectedVertex, c: ProjectedVertex,
    mode: ShaderMode, time: int, px: int, py: int) -> u32 {
    spec_pack_rgb(spec_shade(mode, spec_unit(normal_at(a, b, c, px, py)), spec_view_dir(), time))
}

/// The new depth of one pixel: written only when the sample is covered
/// and strictly closer than what the buffer holds.
pub open spec fn upd_depth(a: ProjectedVertex, b: ProjectedVertex, c: ProjectedVertex, col: int,
    row: int, d0: i64) -> i64 {
    let px = col * (FX_ONE as int);
    let py = row * (FX_ONE as int);
    if covers(a, b, c, px, py) && depth_at(a, b, c, px, py) < d0 {
        depth_at(a, b, c, px, py) as i64
    } else {
        d0
    }
}

/// The new color of one pixel, shaded exactly when the depth is written.
pub open spec fn upd_color(a: ProjectedVertex, b: ProjectedVertex, c: ProjectedVertex,
    mode: ShaderMode, time: int, col: int, row: int, d0: i64, c0: u32) -> u32 {
    let px = col * (FX_ONE as int);
    let py = row * (FX_ONE as int);
    if covers(a, b, c, px, py) && depth_at(a, b, c, px, py) < d0 {
        shaded_at(a, b, c, mode, time, px, py)
    } else {
        c0
    }
}

pub open spec fn min3(x: int, y: int, z: int) -> int {
    min_i(min_i(x, y), z)
}

pub open spec fn max3(x: int, y: int, z: int) -> int {
    max_i(max_i(x, y), z)
}

/// First bounding-box column, clamped to the viewport.
pub open spec fn col_lo(a: ProjectedVertex, b: ProjectedVertex, c: ProjectedVertex) -> int {
    max_i(min3(a.x as int, b.x as int, c.x as int) / (FX_ONE as int), 0)
}

/// Last bounding-box column, clamped to the viewport.
pub open spec fn col_hi(a: ProjectedVertex, b: ProjectedVertex, c: ProjectedVertex, width: int)
    -> int {
    min_i(max3(a.x as int, b.x as int, c.x as int) / (FX_ONE as int), width - 1)
}

pub open spec fn row_lo(a: ProjectedVertex, b: ProjectedVertex, c: ProjectedVertex) -> int {
    max_i(min3(a.y as int, b.y as int, c.y as int) / (FX_ONE as int), 0)
}

pub open spec fn row_hi(a: ProjectedVertex, b: ProjectedVertex, c: ProjectedVertex, height: int)
    -> int {
    min_i(max3(a.y as int, b.y as int, c.y as int) / (FX_ONE as int), height - 1)
}

/// The pixel lies inside the triangle's clamped bounding box.
pub open spec fn in_bbox(a: ProjectedVertex, b: ProjectedVertex, c: ProjectedVertex, width: int,
    height: int, col: int, row: int) -> bool {
    col_lo(a, b, c) <= col <= col_hi(a, b, c, width) && row_lo(a, b, c) <= row <= row_hi(
        a,
        b,
        c,
        height,
    )
}

/// The triangle is degenerate: near-zero projected area.
pub open spec fn degenerate(a: ProjectedVertex, b: ProjectedVertex, c: ProjectedVertex) -> bool {
    abs_i(tri_area(a, b, c)) < AREA_EPS
}

/// The depth that cell `i` holds after the triangle, decoding the flat
/// index into its row and column.
pub open spec fn cell_depth(a: ProjectedVertex, b: ProjectedVertex, c: ProjectedVertex,
    width: int, height: int, depth0: Seq<i64>, i: int) -> i64 {
    let row = i / width;
    let col = i % width;
    if in_bbox(a, b, c, width, height, col, row) {
        upd_depth(a, b, c, col, row, depth0[i])
    } else {
        depth0[i]
    }
}

/// The color that cell `i` holds after the triangle.
pub open spec fn cell_color(a: ProjectedVertex, b: ProjectedVertex, c: ProjectedVertex,
    mode: ShaderMode, time: int, width: int, height: int, depth0: Seq<i64>, color0: Seq<u32>,
    i: int) -> u32 {
    let row = i / width;
    let col = i % width;
    if in_bbox(a, b, c, width, height, col, row) {
        upd_color(a, b, c, mode, time, col, row, depth0[i], color0[i])
    } else {
        color0[i]
    }
}

/// The depth buffer after rasterizing one triangle.
pub open spec fn raster_depth(a: ProjectedVertex, b: ProjectedVertex, c: ProjectedVertex,
    width: int, height: int, depth0: Seq<i64>) -> Seq<i64> {
    if degenerate(a, b, c) {
        depth0
    } else {
        Seq::new(depth0.len(), |i: int| cell_depth(a, b, c, width, height, depth0, i))
    }
}

/// The color buffer after rasterizing one triangle.
pub open spec fn raster_color(a: ProjectedVertex, b: ProjectedVertex, c: ProjectedVertex,
    mode: ShaderMode, time: int, width: int, height: int, depth0: Seq<i64>, color0: Seq<u32>)
    -> Seq<u32> {
    if degenerate(a, b, c) {
        color0
    } else {
        Seq::new(color0.len(), |i: int| cell_color(a, b, c, mode, time, width, height, depth0,
            color0, i))
    }
}

/// The projected vertex's fields are within the transform stage's output
/// ranges.
pub open spec fn pv_ok(p: ProjectedVertex) -> bool {
    &&& -COORD_MAX <= p.x <= COORD_MAX
    &&& -COORD_MAX <= p.y <= COORD_MAX
    &&& -DEPTH_MAX <= p.z <= DEPTH_MAX
    &&& vec_bounded(p.normal, NORMAL_ROT_MAX as int)
}

/// The two same-sized screen buffers, cleared at the start of each frame
/// and written only by the rasterizer.
pub struct FrameBuffer {
    pub width: usize,
    pub height: usize,
    pub color: Vec<u32>,
    pub depth: Vec<i64>,
}

impl FrameBuffer {
    /// Both buffers hold one cell per pixel of a non-empty viewport.
    pub open spec fn wf(self) -> bool {
        &&& self.color.len() == self.width * self.height
        &&& self.depth.len() == self.width * self.height
        &&& 1 <= self.width <= 4096
        &&& 1 <= self.height <= 4096
    }

    /// A cleared frame buffer: color zero, depth at infinity.
    pub fn new(width: usize, height: usize) -> (fb: FrameBuffer)
        requires
            1 <= width <= 4096,
            1 <= height <= 4096,
        ensures
            fb.wf(),
            fb.width == width,
            fb.height == height,
            fb.color@ == Seq::new((width * height) as nat, |i: int| 0u32),
            fb.depth@ == Seq::new((width * height) as nat, |i: int| DEPTH_FAR),
    {
        proof {
            assert(width * height <= 4096 * 4096) by (nonlinear_arith)
                requires
                    width <= 4096,
                    height <= 4096,
            ;
        }
        let n: usize = width * height;
        let mut color: Vec<u32> = Vec::new();
        let mut depth: Vec<i64> = Vec::new();
        let mut i: usize = 0;
        while i < n
            invariant
                i <= n,
                color.len() == i,
                depth.len() == i,
                forall|j: int| 0 <= j < i ==> color@[j] == 0u32,
                forall|j: int| 0 <= j < i ==> depth@[j] == DEPTH_FAR,
            decreases n - i,
        {
            color.push(0u32);
            depth.push(DEPTH_FAR);
            i = i + 1;
        }
        proof {
            assert(color@ =~= Seq::new((width * height) as nat, |i: int| 0u32));
            assert(depth@ =~= Seq::new((width * height) as nat, |i: int| DEPTH_FAR));
        }
        FrameBuffer { width, height, color, depth }
    }

    /// Reset every pixel to the background color and infinite depth.
    pub fn clear(&mut self)
        requires
            old(self).wf(),
        ensures
            final(self).wf(),
            final(self).width == old(self).width,
            final(self).height == old(self).height,
            final(self).color@ == Seq::new(old(self).color@.len(), |i: int| 0u32),
            final(self).depth@ == Seq::new(old(self).depth@.len(), |i: int| DEPTH_FAR),
    {
        let n: usize = self.color.len();
        let mut i: usize = 0;
        while i < n
            invariant
                i <= n,
                self.wf(),
                self.width == old(self).width,
                self.height == old(self).height,
                n == self.color.len(),
                forall|j: int| 0 <= j < i ==> self.color@[j] == 0u32,
                forall|j: int| 0 <= j < i ==> self.depth@[j] == DEPTH_FAR,
            decreases n - i,
        {
            self.color[i] = 0u32;
            self.depth[i] = DEPTH_FAR;
            i = i + 1;
        }
        proof {
            assert(self.color@ =~= Seq::new(old(self).color@.len(), |i: int| 0u32));
            assert(self.depth@ =~= Seq::new(old(self).depth@.len(), |i: int| DEPTH_FAR));
        }
    }
}

/// The three edge values at any point sum to the doubled signed area.
#[verifier::rlimit(100)]
pub proof fn lemma_edge_sum(a: ProjectedVertex, b: ProjectedVertex, c: ProjectedVertex, px: int,
    py: int)
    ensures
        w0_at(a, b, c, px, py) + w1_at(a, b, c, px, py) + w2_at(a, b, c, px, py) == tri_area(
            a,
            b,
            c,
        ),
{
    assert((px - b.x) * (c.y - b.y) - (py - b.y) * (c.x - b.x) + ((px - c.x) * (a.y - c.y) - (py
        - c.y) * (a.x - c.x)) + ((px - a.x) * (b.y - a.y) - (py - a.y) * (b.x - a.x)) == (c.x
        - a.x) * (b.y - a.y) - (c.y - a.y) * (b.x - a.x)) by (nonlinear_arith);
}

/// A convex combination with weights summing to `ar` stays within the
/// bounds of its inputs.
pub proof fn lemma_interp_bound(f0: int, f1: int, f2: int, v0: int, v1: int, v2: int, ar: int,
    m: int)
    requires
        0 <= f0,
        0 <= f1,
        0 <= f2,
        f0 + f1 + f2 == ar,
        1 <= ar,
        -m <= v0 <= m,
        -m <= v1 <= m,
        -m <= v2 <= m,
        0 <= m,
    ensures
        -m <= (f0 * v0 + f1 * v1 + f2 * v2) / ar <= m,
{
    let num = f0 * v0 + f1 * v1 + f2 * v2;
    assert(-(ar * m) <= num <= ar * m) by (nonlinear_arith)
        requires
            0 <= f0,
            0 <= f1,
            0 <= f2,
            f0 + f1 + f2 == ar,
            -m <= v0 <= m,
            -m <= v1 <= m,
            -m <= v2 <= m,
            0 <= m,
            num == f0 * v0 + f1 * v1 + f2 * v2,
    ;
    lemma_div_is_ordered(num, ar * m, ar);
    lemma_div_is_ordered(-(ar * m), num, ar);
    lemma_div_multiples_vanish(m, ar);
    lemma_div_multiples_vanish(-m, ar);
    assert(ar * -m == -(ar * m)) by (nonlinear_arith);
}

/// Row-major indexing: the flat index of `(row, col)` is in range and
/// decodes back to the same row and column.
pub proof fn lemma_rowcol(width: int, height: int, row: int, col: int)
    requires
        1 <= width,
        1 <= height,
        0 <= row < height,
        0 <= col < width,
    ensures
        0 <= row * width + col < width * height,
        (row * width + col) / width == row,
        (row * width + col) % width == col,
{
    assert(0 <= row * width + col < width * height) by (nonlinear_arith)
        requires
            1 <= width,
            1 <= height,
            0 <= row < height,
            0 <= col < width,
    ;
    lemma_fundamental_div_mod_converse(row * width + col, width, row, col);
}

/// The edge function, evaluated exactly in wide integers.
fn edge_fn(ax: i64, ay: i64, bx: i64, by: i64, px: i64, py: i64) -> (r: i128)
    requires
        -0x40_0000_0000 <= ax <= 0x40_0000_0000,
        -0x40_0000_0000 <= ay <= 0x40_0000_0000,
        -0x40_0000_0000 <= bx <= 0x40_0000_0000,
        -0x40_0000_0000 <= by <= 0x40_0000_0000,
        -0x40_0000_0000 <= px <= 0x40_0000_0000,
        -0x40_0000_0000 <= py <= 0x40_0000_0000,
    ensures
        r == edge(ax as int, ay as int, bx as int, by as int, px as int, py as int),
        -0x8000_0000_0000_0000_0000 <= r <= 0x8000_0000_0000_0000_0000,
{
    proof {
        crate::fixed::lemma_muldiv_bound((px - ax) as int, (by - ay) as int, 1,
            0x80_0000_0000, 0x80_0000_0000);
        crate::fixed::lemma_muldiv_bound((py - ay) as int, (bx - ax) as int, 1,
            0x80_0000_0000, 0x80_0000_0000);
        assert(0x80_0000_0000int * 0x80_0000_0000int
            == 0x4000_0000_0000_0000_0000int) by (nonlinear_arith);
    }
    let d1: i128 = ((px - ax) as i128) * ((by - ay) as i128);
    let d2: i128 = ((py - ay) as i128) * ((bx - ax) as i128);
    d1 - d2
}

/// Pack a clamped color into a `u32`, eight bits per channel.
pub fn pack_rgb(c: Vec3) -> (r: u32)
    requires
        0 <= c.x <= FX_ONE,
        0 <= c.y <= FX_ONE,
        0 <= c.z <= FX_ONE,
    ensures
        r == spec_pack_rgb(c),
        r < 0x100_0000,
{
    proof {
        lemma_div_bounds((c.x as int) * 255, FX_ONE as int);
        lemma_div_is_ordered((c.x as int) * 255, 255 * (FX_ONE as int), FX_ONE as int);
        lemma_div_multiples_vanish(255, FX_ONE as int);
        lemma_div_bounds((c.y as int) * 255, FX_ONE as int);
        lemma_div_is_ordered((c.y as int) * 255, 255 * (FX_ONE as int), FX_ONE as int);
        lemma_div_bounds((c.z as int) * 255, FX_ONE as int);
        lemma_div_is_ordered((c.z as int) * 255, 255 * (FX_ONE as int), FX_ONE as int);
    }
    let rr: i64 = div_floor(c.x * 255, FX_ONE);
    let gg: i64 = div_floor(c.y * 255, FX_ONE);
    let bb: i64 = div_floor(c.z * 255, FX_ONE);
    (rr as u32) * 65536 + (gg as u32) * 256 + (bb as u32)
}

} // verus!

verus! {

/// An edge value times an interpolated quantity stays far within the wide
/// integer range.
proof fn lemma_prod_fits(f: int, v: int)
    requires
        -0x8000_0000_0000_0000_0000 <= f <= 0x8000_0000_0000_0000_0000,
        -0x1000_0000_0000 <= v <= 0x1000_0000_0000,
    ensures
        -0x800_0000_0000_0000_0000_0000_0000_0000 <= f * v <= 0x800_0000_0000_0000_0000_0000_0000_0000,
{
    crate::fixed::lemma_muldiv_bound(f, v, 1, 0x8000_0000_0000_0000_0000, 0x1000_0000_0000);
    assert(0x8000_0000_0000_0000_0000int * 0x1000_0000_0000int
        == 0x800_0000_0000_0000_0000_0000_0000_0000int) by (nonlinear_arith);
}

/// Rasterize one triangle into the frame buffer: walk its clamped
/// bounding box, fill every covered pixel that passes the strict depth
/// test, and leave every pixel outside the bounding box untouched.
#[verifier::rlimit(100)]
pub fn raster_triangle(fb: &mut FrameBuffer, a: ProjectedVertex, b: ProjectedVertex,
    c: ProjectedVertex, mode: ShaderMode, time: i64)
    requires
        old(fb).wf(),
        pv_ok(a),
        pv_ok(b),
        pv_ok(c),
        -TIME_MAX <= time <= TIME_MAX,
    ensures
        final(fb).wf(),
        final(fb).width == old(fb).width,
        final(fb).height == old(fb).height,
        final(fb).depth@ == raster_depth(a, b, c, old(fb).width as int, old(fb).height as int,
            old(fb).depth@),
        final(fb).color@ == raster_color(a, b, c, mode, time as int, old(fb).width as int,
            old(fb).height as int, old(fb).depth@, old(fb).color@),
{
    let ghost depth0 = fb.depth@;
    let ghost color0 = fb.color@;
    let w: usize = fb.width;
    let h: usize = fb.height;
    let ghost gw: int = w as int;
    let ghost gh: int = h as int;
    proof {
        assert(gw * gh <= 4096 * 4096) by (nonlinear_arith)
            requires
                1 <= gw <= 4096,
                1 <= gh <= 4096,
        ;
    }
    let area: i128 = edge_fn(a.x, a.y, b.x, b.y, c.x, c.y);
    let area_abs: i128 = if area < 0 {
        -area
    } else {
        area
    };
    if area_abs < AREA_EPS as i128 {
        return;
    }
    let minx: i64 = fx_min(fx_min(a.x, b.x), c.x);
    let maxx: i64 = fx_max(fx_max(a.x, b.x), c.x);
    let miny: i64 = fx_min(fx_min(a.y, b.y), c.y);
    let maxy: i64 = fx_max(fx_max(a.y, b.y), c.y);
    let cl_i: i64 = fx_max(div_floor(minx, FX_ONE), 0);
    let ch_i: i64 = fx_min(div_floor(maxx, FX_ONE), (w - 1) as i64);
    let rl_i: i64 = fx_max(div_floor(miny, FX_ONE), 0);
    let rh_i: i64 = fx_min(div_floor(maxy, FX_ONE), (h - 1) as i64);
    if ch_i < cl_i || rh_i < rl_i {
        proof {
            assert forall|i: int| 0 <= i < depth0.len() implies cell_depth(a, b, c, gw, gh,
                depth0, i) == depth0[i] by {
                lemma_mod_division_less_than_divisor(i, gw);
            };
            assert forall|i: int| 0 <= i < color0.len() implies cell_color(a, b, c, mode,
                time as int, gw, gh, depth0, color0, i) == color0[i] by {
                lemma_mod_division_less_than_divisor(i, gw);
            };
            assert(fb.depth@ =~= raster_depth(a, b, c, gw, gh, depth0));
            assert(fb.color@ =~= raster_color(a, b, c, mode, time as int, gw, gh, depth0,
                color0));
        }
        return;
    }
    let cl: usize = cl_i as usize;
    let ch: usize = ch_i as usize;
    let rl: usize = rl_i as usize;
    let rh: usize = rh_i as usize;
    let mut row: usize = rl;
    while row <= rh
        invariant
            fb.wf(),
            fb.width == w,
            fb.height == h,
            depth0.len() == gw * gh,
            color0.len() == gw * gh,
            gw == w as int,
            gh == h as int,
            1 <= gw <= 4096,
            1 <= gh <= 4096,
            gw * gh <= 4096 * 4096,
            pv_ok(a),
            pv_ok(b),
            pv_ok(c),
            -TIME_MAX <= time <= TIME_MAX,
            !degenerate(a, b, c),
            area as int == tri_area(a, b, c),
            -0x8000_0000_0000_0000_0000 <= area <= 0x8000_0000_0000_0000_0000,
            cl == col_lo(a, b, c),
            ch == col_hi(a, b, c, gw),
            rl == row_lo(a, b, c),
            rh == row_hi(a, b, c, gh),
            cl <= ch < w,
            rl <= rh < h,
            rl <= row <= rh + 1,
            forall|i: int| 0 <= i < depth0.len() ==> #[trigger] fb.depth@[i] == (if i / gw
                < row as int {
                cell_depth(a, b, c, gw, gh, depth0, i)
            } else {
                depth0[i]
            }),
            forall|i: int| 0 <= i < color0.len() ==> #[trigger] fb.color@[i] == (if i / gw
                < row as int {
                cell_color(a, b, c, mode, time as int, gw, gh, depth0, color0, i)
            } else {
                color0[i]
            }),
        decreases rh + 1 - row,
    {
        let mut col: usize = cl;
        while col <= ch
            invariant
                fb.wf(),
                fb.width == w,
                fb.height == h,
                depth0.len() == gw * gh,
                color0.len() == gw * gh,
                gw == w as int,
                gh == h as int,
                1 <= gw <= 4096,
                1 <= gh <= 4096,
                gw * gh <= 4096 * 4096,
                pv_ok(a),
                pv_ok(b),
                pv_ok(c),
                -TIME_MAX <= time <= TIME_MAX,
                !degenerate(a, b, c),
                area as int == tri_area(a, b, c),
                -0x8000_0000_0000_0000_0000 <= area <= 0x8000_0000_0000_0000_0000,
                cl == col_lo(a, b, c),
                ch == col_hi(a, b, c, gw),
                rl == row_lo(a, b, c),
                rh == row_hi(a, b, c, gh),
                cl <= ch < w,
                rl <= rh < h,
                rl <= row <= rh,
                cl <= col <= ch + 1,
                forall|i: int| 0 <= i < depth0.len() ==> #[trigger] fb.depth@[i] == (if i / gw
                    < row as int || (i / gw == row as int && i % gw < col as int) {
                    cell_depth(a, b, c, gw, gh, depth0, i)
                } else {
                    depth0[i]
                }),
                forall|i: int| 0 <= i < color0.len() ==> #[trigger] fb.color@[i] == (if i / gw
                    < row as int || (i / gw == row as int && i % gw < col as int) {
                    cell_color(a, b, c, mode, time as int, gw, gh, depth0, color0, i)
                } else {
                    color0[i]
                }),
            decreases ch + 1 - col,
        {
            proof {
                lemma_rowcol(gw, gh, row as int, col as int);
            }
            let idx: usize = row * w + col;
            let px: i64 = (col as i64) * FX_ONE;
            let py: i64 = (row as i64) * FX_ONE;
            let e0: i128 = edge_fn(b.x, b.y, c.x, c.y, px, py);
            let e1: i128 = edge_fn(c.x, c.y, a.x, a.y, px, py);
            let e2: i128 = edge_fn(a.x, a.y, b.x, b.y, px, py);
            let inside: bool = (e0 >= 0 && e1 >= 0 && e2 >= 0) || (e0 <= 0 && e1 <= 0 && e2
                <= 0);
            let ghost pre_depth = fb.depth@;
            let ghost pre_color = fb.color@;
            if inside {
                proof {
                    lemma_edge_sum(a, b, c, px as int, py as int);
                }
                let (ar, f0, f1, f2): (i128, i128, i128, i128) = if area < 0 {
                    (-area, -e0, -e1, -e2)
                } else {
                    (area, e0, e1, e2)
                };
                proof {
                    lemma_prod_fits(f0 as int, a.z as int);
                    lemma_prod_fits(f1 as int, b.z as int);
                    lemma_prod_fits(f2 as int, c.z as int);
                    lemma_interp_bound(f0 as int, f1 as int, f2 as int, a.z as int, b.z as int,
                        c.z as int, ar as int, DEPTH_MAX as int);
                }
                let nm: i128 = f0 * (a.z as i128) + f1 * (b.z as i128) + f2 * (c.z as i128);
                let zi: i128 = div_floor_i128(nm, ar);
                let zi64: i64 = zi as i64;
                proof {
                    assert(zi64 as int == depth_at(a, b, c, px as int, py as int));
                }
                let d0: i64 = fb.depth[idx];
                if zi64 < d0 {
                    proof {
                        lemma_prod_fits(f0 as int, a.normal.x as int);
                        lemma_prod_fits(f1 as int, b.normal.x as int);
                        lemma_prod_fits(f2 as int, c.normal.x as int);
                        lemma_prod_fits(f0 as int, a.normal.y as int);
                        lemma_prod_fits(f1 as int, b.normal.y as int);
                        lemma_prod_fits(f2 as int, c.normal.y as int);
                        lemma_prod_fits(f0 as int, a.normal.z as int);
                        lemma_prod_fits(f1 as int, b.normal.z as int);
                        lemma_prod_fits(f2 as int, c.normal.z as int);
                        lemma_interp_bound(f0 as int, f1 as int, f2 as int, a.normal.x as int,
                            b.normal.x as int, c.normal.x as int, ar as int,
                            NORMAL_ROT_MAX as int);
                        lemma_interp_bound(f0 as int, f1 as int, f2 as int, a.normal.y as int,
                            b.normal.y as int, c.normal.y as int, ar as int,
                            NORMAL_ROT_MAX as int);
                        lemma_interp_bound(f0 as int, f1 as int, f2 as int, a.normal.z as int,
                            b.normal.z as int, c.normal.z as int, ar as int,
                            NORMAL_ROT_MAX as int);
                    }
                    let nx: i128 = div_floor_i128(f0 * (a.normal.x as i128) + f1 * (
                    b.normal.x as i128) + f2 * (c.normal.x as i128), ar);
                    let ny: i128 = div_floor_i128(f0 * (a.normal.y as i128) + f1 * (
                    b.normal.y as i128) + f2 * (c.normal.y as i128), ar);
                    let nz: i128 = div_floor_i128(f0 * (a.normal.z as i128) + f1 * (
                    b.normal.z as i128) + f2 * (c.normal.z as i128), ar);
                    let nvec: Vec3 = Vec3 { x: nx as i64, y: ny as i64, z: nz as i64 };
                    proof {
                        assert(nvec == normal_at(a, b, c, px as int, py as int));
                    }
                    let nunit: Vec3 = nvec.normalize();
                    let vd: Vec3 = Vec3 { x: 0, y: 0, z: -FX_ONE };
                    let shaded: Vec3 = shade(mode, nunit, vd, time);
                    let packed: u32 = pack_rgb(shaded);
                    fb.depth[idx] = zi64;
                    fb.color[idx] = packed;
                    proof {
                        assert(fb.depth@[idx as int] == upd_depth(a, b, c, col as int,
                            row as int, depth0[idx as int]));
                        assert(fb.color@[idx as int] == upd_color(a, b, c, mode, time as int,
                            col as int, row as int, depth0[idx as int], color0[idx as int]));
                    }
                }
            }
            proof {
                assert forall|i: int| 0 <= i < depth0.len() implies #[trigger] fb.depth@[i] == (
                if i / gw < row as int || (i / gw == row as int && i % gw < col as int + 1) {
                    cell_depth(a, b, c, gw, gh, depth0, i)
                } else {
                    depth0[i]
                }) by {
                    lemma_fundamental_div_mod(i, gw);
                    lemma_mod_division_less_than_divisor(i, gw);
                    if i == idx as int {
                        assert(i / gw == row as int && i % gw == col as int);
                    } else {
                        if i / gw == row as int && i % gw == col as int {
                            lemma_fundamental_div_mod(idx as int, gw);
                            assert(i == gw * (i / gw) + i % gw);
                            assert(idx as int == gw * ((idx as int) / gw) + (idx as int) % gw);
                            assert(false);
                        }
                        assert(fb.depth@[i] == pre_depth[i]);
                    }
                };
                assert forall|i: int| 0 <= i < color0.len() implies #[trigger] fb.color@[i] == (
                if i / gw < row as int || (i / gw == row as int && i % gw < col as int + 1) {
                    cell_color(a, b, c, mode, time as int, gw, gh, depth0, color0, i)
                } else {
                    color0[i]
                }) by {
                    lemma_fundamental_div_mod(i, gw);
                    lemma_mod_division_less_than_divisor(i, gw);
                    if i == idx as int {
                        assert(i / gw == row as int && i % gw == col as int);
                    } else {
                        if i / gw == row as int && i % gw == col as int {
                            lemma_fundamental_div_mod(idx as int, gw);
                            assert(i == gw * (i / gw) + i % gw);
                            assert(idx as int == gw * ((idx as int) / gw) + (idx as int) % gw);
                            assert(false);
                        }
                        assert(fb.color@[i] == pre_color[i]);
                    }
                };
            }
            col = col + 1;
        }
        proof {
            assert forall|i: int| 0 <= i < depth0.len() implies #[trigger] fb.depth@[i] == (
            if i / gw < row as int + 1 {
                cell_depth(a, b, c, gw, gh, depth0, i)
            } else {
                depth0[i]
            }) by {
                lemma_mod_division_less_than_divisor(i, gw);
            };
            assert forall|i: int| 0 <= i < color0.len() implies #[trigger] fb.color@[i] == (
            if i / gw < row as int + 1 {
                cell_color(a, b, c, mode, time as int, gw, gh, depth0, color0, i)
            } else {
                color0[i]
            }) by {
                lemma_mod_division_less_than_divisor(i, gw);
            };
        }
        row = row + 1;
    }
    proof {
        assert forall|i: int| 0 <= i < depth0.len() implies #[trigger] fb.depth@[i] == cell_depth(
            a, b, c, gw, gh, depth0, i) by {
            lemma_mod_division_less_than_divisor(i, gw);
            lemma_div_bounds(i, gw);
        };
        assert forall|i: int| 0 <= i < color0.len() implies #[trigger] fb.color@[i] == cell_color(
            a, b, c, mode, time as int, gw, gh, depth0, color0, i) by {
            lemma_mod_division_less_than_divisor(i, gw);
            lemma_div_bounds(i, gw);
        };
        assert(fb.depth@ =~= raster_depth(a, b, c, gw, gh, depth0));
        assert(fb.color@ =~= raster_color(a, b, c, mode, time as int, gw, gh, depth0, color0));
    }
}

} // verus!

verus! {

/// Swapping an edge's endpoints negates the edge function.
proof fn lemma_edge_antisym(ax: int, ay: int, bx: int, by: int, px: int, py: int)
    ensures
        edge(ax, ay, bx, by, px, py) == -edge(bx, by, ax, ay, px, py),
{
    assert((px - ax) * (by - ay) - (py - ay) * (bx - ax) == -((px - bx) * (ay - by) - (py - by) * (
    ax - bx))) by (nonlinear_arith);
}

/// Every pixel outside the triangle's clamped bounding box keeps its
/// depth and color.
pub proof fn lemma_raster_outside_bbox(a: ProjectedVertex, b: ProjectedVertex, c: ProjectedVertex,
    mode: ShaderMode, time: int, width: int, height: int, depth0: Seq<i64>, color0: Seq<u32>,
    col: int, row: int)
    requires
        1 <= width,
        1 <= height,
        depth0.len() == width * height,
        color0.len() == width * height,
        0 <= row < height,
        0 <= col < width,
        !in_bbox(a, b, c, width, height, col, row),
    ensures
        raster_depth(a, b, c, width, height, depth0)[row * width + col] == depth0[row * width
            + col],
        raster_color(a, b, c, mode, time, width, height, depth0, color0)[row * width + col]
            == color0[row * width + col],
{
    lemma_rowcol(width, height, row, col);
}

/// The rasterized pixel set — indeed the whole frame buffer — is the
/// same for both windings of a triangle: feeding the vertices as
/// `(a, b, c)` or as `(a, c, b)` yields identical depth and color
/// buffers.
pub proof fn lemma_raster_winding_agnostic(a: ProjectedVertex, b: ProjectedVertex,
    c: ProjectedVertex, mode: ShaderMode, time: int, width: int, height: int, depth0: Seq<i64>,
    color0: Seq<u32>)
    requires
        1 <= width,
        1 <= height,
    ensures
        raster_depth(a, b, c, width, height, depth0) == raster_depth(a, c, b, width, height,
            depth0),
        raster_color(a, b, c, mode, time, width, height, depth0, color0) == raster_color(a, c, b,
            mode, time, width, height, depth0, color0),
{
    assert(tri_area(a, c, b) == -tri_area(a, b, c)) by (nonlinear_arith);
    assert(degenerate(a, c, b) == degenerate(a, b, c));
    if !degenerate(a, b, c) {
        assert forall|px: int, py: int| #[trigger] covers(a, c, b, px, py) == covers(a, b, c, px,
            py) && nw0(a, c, b, px, py) == nw0(a, b, c, px, py) && nw1(a, c, b, px, py) == nw2(a,
            b, c, px, py) && nw2(a, c, b, px, py) == nw1(a, b, c, px, py) by {
            lemma_edge_antisym(b.x as int, b.y as int, c.x as int, c.y as int, px, py);
            lemma_edge_antisym(c.x as int, c.y as int, a.x as int, a.y as int, px, py);
            lemma_edge_antisym(a.x as int, a.y as int, b.x as int, b.y as int, px, py);
            assert(tri_area(a, c, b) == -tri_area(a, b, c)) by (nonlinear_arith);
        };
        assert forall|i: int| 0 <= i < depth0.len() implies cell_depth(a, c, b, width, height,
            depth0, i) == cell_depth(a, b, c, width, height, depth0, i) by {
            let row = i / width;
            let col = i % width;
            let px = col * (FX_ONE as int);
            let py = row * (FX_ONE as int);
            assert(covers(a, c, b, px, py) == covers(a, b, c, px, py));
            assert(depth_at(a, c, b, px, py) == depth_at(a, b, c, px, py));
        };
        assert forall|i: int| 0 <= i < color0.len() implies cell_color(a, c, b, mode, time, width,
            height, depth0, color0, i) == cell_color(a, b, c, mode, time, width, height, depth0,
            color0, i) by {
            let row = i / width;
            let col = i % width;
            let px = col * (FX_ONE as int);
            let py = row * (FX_ONE as int);
            assert(covers(a, c, b, px, py) == covers(a, b, c, px, py));
            assert(depth_at(a, c, b, px, py) == depth_at(a, b, c, px, py));
            assert(normal_at(a, c, b, px, py) == normal_at(a, b, c, px, py));
        };
    }
    assert(raster_depth(a, b, c, width, height, depth0) =~= raster_depth(a, c, b, width, height,
        depth0));
    assert(raster_color(a, b, c, mode, time, width, height, depth0, color0) =~= raster_color(a, c,
        b, mode, time, width, height, depth0, color0));
}

/// Barycentric interpolation meets its boundary condition: at each
/// vertex's own projected coordinates the interpolated depth is that
/// vertex's depth, exactly.
pub proof fn lemma_depth_at_vertex(a: ProjectedVertex, b: ProjectedVertex, c: ProjectedVertex)
    requires
        narea(a, b, c) >= 1,
    ensures
        depth_at(a, b, c, a.x as int, a.y as int) == a.z,
        depth_at(a, b, c, b.x as int, b.y as int) == b.z,
        depth_at(a, b, c, c.x as int, c.y as int) == c.z,
{
    let ar = tri_area(a, b, c);
    lemma_edge_sum(a, b, c, a.x as int, a.y as int);
    lemma_edge_sum(a, b, c, b.x as int, b.y as int);
    lemma_edge_sum(a, b, c, c.x as int, c.y as int);
    assert(w1_at(a, b, c, a.x as int, a.y as int) == 0 && w2_at(a, b, c, a.x as int, a.y as int)
        == 0) by (nonlinear_arith);
    assert(w0_at(a, b, c, b.x as int, b.y as int) == 0 && w2_at(a, b, c, b.x as int, b.y as int)
        == 0) by (nonlinear_arith);
    assert(w0_at(a, b, c, c.x as int, c.y as int) == 0 && w1_at(a, b, c, c.x as int, c.y as int)
        == 0) by (nonlinear_arith);
    let na = narea(a, b, c);
    assert(na * (a.z as int) + 0 * (b.z as int) + 0 * (c.z as int) == na * (a.z as int))
        by (nonlinear_arith);
    assert(0 * (a.z as int) + na * (b.z as int) + 0 * (c.z as int) == na * (b.z as int))
        by (nonlinear_arith);
    assert(0 * (a.z as int) + 0 * (b.z as int) + na * (c.z as int) == na * (c.z as int))
        by (nonlinear_arith);
    lemma_div_multiples_vanish(a.z as int, na);
    lemma_div_multiples_vanish(b.z as int, na);
    lemma_div_multiples_vanish(c.z as int, na);
}

/// Depth-test idempotence: rasterizing the same triangle twice, with the
/// same transform, yields the same buffers as rasterizing it once —
/// the strict depth comparison rejects every second-pass sample.
pub proof fn lemma_raster_idempotent(a: ProjectedVertex, b: ProjectedVertex, c: ProjectedVertex,
    mode: ShaderMode, time: int, width: int, height: int, depth0: Seq<i64>, color0: Seq<u32>)
    requires
        1 <= width,
        1 <= height,
        depth0.len() == width * height,
        color0.len() == width * height,
    ensures
        raster_depth(a, b, c, width, height, raster_depth(a, b, c, width, height, depth0))
            == raster_depth(a, b, c, width, height, depth0),
        raster_color(a, b, c, mode, time, width, height, raster_depth(a, b, c, width, height,
            depth0), raster_color(a, b, c, mode, time, width, height, depth0, color0))
            == raster_color(a, b, c, mode, time, width, height, depth0, color0),
{
    let d1 = raster_depth(a, b, c, width, height, depth0);
    let c1 = raster_color(a, b, c, mode, time, width, height, depth0, color0);
    if !degenerate(a, b, c) {
        assert(d1 == Seq::new(depth0.len(), |i: int| cell_depth(a, b, c, width, height, depth0,
            i)));
        assert(c1 == Seq::new(color0.len(), |i: int| cell_color(a, b, c, mode, time, width,
            height, depth0, color0, i)));
        assert(d1.len() == depth0.len());
        assert(c1.len() == color0.len());
        assert forall|i: int| 0 <= i < d1.len() implies cell_depth(a, b, c, width, height, d1, i)
            == d1[i] by {
            let row = i / width;
            let col = i % width;
            assert(Seq::new(depth0.len(), |j: int| cell_depth(a, b, c, width, height, depth0,
                j))[i] == cell_depth(a, b, c, width, height, depth0, i));
            assert(d1[i] == cell_depth(a, b, c, width, height, depth0, i));
        };
        assert forall|i: int| 0 <= i < c1.len() implies cell_color(a, b, c, mode, time, width,
            height, d1, c1, i) == c1[i] by {
            let row = i / width;
            let col = i % width;
            assert(Seq::new(depth0.len(), |j: int| cell_depth(a, b, c, width, height, depth0,
                j))[i] == cell_depth(a, b, c, width, height, depth0, i));
            assert(Seq::new(color0.len(), |j: int| cell_color(a, b, c, mode, time, width, height,
                depth0, color0, j))[i] == cell_color(a, b, c, mode, time, width, height, depth0,
                color0, i));
            assert(d1[i] == cell_depth(a, b, c, width, height, depth0, i));
            assert(c1[i] == cell_color(a, b, c, mode, time, width, height, depth0, color0, i));
        };
    }
    assert(raster_depth(a, b, c, width, height, d1) =~= d1);
    assert(raster_color(a, b, c, mode, time, width, height, d1, c1) =~= c1);
}

} // verus!

verus! {

/// The depth test keeps the minimum: at a covered sample the stored
/// depth becomes the smaller of the buffer's depth and the triangle's
/// interpolated depth, so after any sequence of triangles a pixel's
/// depth is the minimum over all covering samples, whatever the
/// submission order, with exact ties resolved to the first writer.
pub proof fn lemma_depth_test_takes_min(a: ProjectedVertex, b: ProjectedVertex,
    c: ProjectedVertex, col: int, row: int, d0: i64)
    requires
        pv_ok(a),
        pv_ok(b),
        pv_ok(c),
        !degenerate(a, b, c),
    ensures
        ({
            let px = col * (FX_ONE as int);
            let py = row * (FX_ONE as int);
            upd_depth(a, b, c, col, row, d0) == if covers(a, b, c, px, py) {
                min_i(depth_at(a, b, c, px, py), d0 as int)
            } else {
                d0 as int
            }
        }),
{
    let px = col * (FX_ONE as int);
    let py = row * (FX_ONE as int);
    if covers(a, b, c, px, py) {
        lemma_edge_sum(a, b, c, px, py);
        lemma_interp_bound(nw0(a, b, c, px, py), nw1(a, b, c, px, py), nw2(a, b, c, px, py),
            a.z as int, b.z as int, c.z as int, narea(a, b, c), DEPTH_MAX as int);
    }
}

} // verus!

verus! {

/// Occlusion is order-independent: the depth buffer after rasterizing
/// two triangles is the same whichever is submitted first, since each
/// covered sample just lowers the stored depth to a minimum.
pub proof fn lemma_raster_depth_order_independent(a1: ProjectedVertex, b1: ProjectedVertex,
    c1: ProjectedVertex, a2: ProjectedVertex, b2: ProjectedVertex, c2: ProjectedVertex,
    width: int, height: int, depth0: Seq<i64>)
    requires
        1 <= width,
        1 <= height,
        depth0.len() == width * height,
        pv_ok(a1),
        pv_ok(b1),
        pv_ok(c1),
        pv_ok(a2),
        pv_ok(b2),
        pv_ok(c2),
    ensures
        raster_depth(a1, b1, c1, width, height, raster_depth(a2, b2, c2, width, height, depth0))
            == raster_depth(a2, b2, c2, width, height, raster_depth(a1, b1, c1, width, height,
            depth0)),
{
    let d1 = raster_depth(a1, b1, c1, width, height, depth0);
    let d2 = raster_depth(a2, b2, c2, width, height, depth0);
    let lhs = raster_depth(a1, b1, c1, width, height, d2);
    let rhs = raster_depth(a2, b2, c2, width, height, d1);
    assert(d1.len() == depth0.len());
    assert(d2.len() == depth0.len());
    assert forall|i: int| 0 <= i < depth0.len() implies lhs[i] == rhs[i] by {
        let row = i / width;
        let col = i % width;
        if !degenerate(a1, b1, c1) {
            lemma_depth_test_takes_min(a1, b1, c1, col, row, depth0[i]);
            assert(d1[i] == cell_depth(a1, b1, c1, width, height, depth0, i));
        }
        if !degenerate(a2, b2, c2) {
            lemma_depth_test_takes_min(a2, b2, c2, col, row, depth0[i]);
            assert(d2[i] == cell_depth(a2, b2, c2, width, height, depth0, i));
        }
        if !degenerate(a1, b1, c1) && !degenerate(a2, b2, c2) {
            lemma_depth_test_takes_min(a1, b1, c1, col, row, d2[i]);
            lemma_depth_test_takes_min(a2, b2, c2, col, row, d1[i]);
            assert(lhs[i] == cell_depth(a1, b1, c1, width, height, d2, i));
            assert(rhs[i] == cell_depth(a2, b2, c2, width, height, d1, i));
        } else if !degenerate(a1, b1, c1) {
            assert(lhs[i] == cell_depth(a1, b1, c1, width, height, d2, i));
            lemma_depth_test_takes_min(a1, b1, c1, col, row, d2[i]);
        } else if !degenerate(a2, b2, c2) {
            assert(rhs[i] == cell_depth(a2, b2, c2, width, height, d1, i));
            lemma_depth_test_takes_min(a2, b2, c2, col, row, d1[i]);
        }
    };
    assert(lhs =~= rhs);
}

} // verus!
