//! Mesh data: vertices, triangle index lists, and the UV-sphere
//! generator.
//!
//! A mesh owns its vertices and a flat index list in which every three
//! consecutive entries name one triangle.  Malformed geometry — an
//! incomplete final triangle, an index past the vertex list, or a vertex
//! outside the coordinate range the transform stage accepts — is rejected
//! at construction and never reaches the pipeline.

use vstd::prelude::*;
use crate::fixed::{FX_ONE, fxmul, div_floor, fx_mul_g, fx_min, fx_max};
use crate::math::{Vec3, vec_bounded};
use crate::camera::POS_MAX;
use crate::trig::{PI_FX, TAU_FX, spec_sin, spec_cos, sin_fx, cos_fx};
use crate::raster::lemma_rowcol;
use vstd::arithmetic::div_mod::{
    lemma_div_is_ordered, lemma_div_multiples_vanish, lemma_fundamental_div_mod_converse,
};

verus! {

/// Largest vertex count a mesh may hold.
pub const VERT_MAX: usize = 0x10_0000;

/// Largest index count a mesh may hold.
pub const IDX_MAX: usize = 0x60_0000;

/// A mesh vertex: a position and a surface normal.
#[derive(Clone, Copy, PartialEq, Eq, Structural, Debug)]
pub struct Vertex {
    pub position: Vec3,
    pub normal: Vec3,
}

impl Vertex {
    /// The position is within the transform stage's range and the normal
    /// is unit-scaled.
    pub open spec fn wf(self) -> bool {
        vec_bounded(self.position, POS_MAX as int) && vec_bounded(self.normal, FX_ONE as int)
    }
}

/// Why a vertex/index list was rejected.
#[derive(Clone, Copy, PartialEq, Eq, Structural, Debug)]
pub enum MeshError {
    /// More vertices or indices than the machine limits allow.
    TooLarge,
    /// The index count is not a multiple of three.
    IncompleteTriangle,
    /// An index names no vertex.
    IndexOutOfBounds,
    /// A vertex lies outside the coordinate range of the pipeline.
    VertexOutOfRange,
}

/// An indexed triangle list.
pub struct Mesh {
    pub vertices: Vec<Vertex>,
    pub indices: Vec<u32>,
}

impl Mesh {
    /// Every index names a vertex, triangles are whole, every vertex is
    /// in range, and the counts respect the machine limits.
    pub open spec fn wf(self) -> bool {
        &&& self.vertices.len() <= VERT_MAX
        &&& self.indices.len() <= IDX_MAX
        &&& self.indices.len() % 3 == 0
        &&& forall|i: int| 0 <= i < self.indices.len() ==> #[trigger] self.indices@[i]
            < self.vertices.len()
        &&& forall|i: int| 0 <= i < self.vertices.len() ==> (#[trigger] self.vertices@[i]).wf()
    }

    /// The number of whole triangles.
    pub fn triangle_count(&self) -> (n: usize)
        requires
            self.wf(),
        ensures
            n == self.indices@.len() / 3,
    {
        self.indices.len() / 3
    }

    /// Validate a vertex/index list and take ownership of it.  Each
    /// error names the first check that failed, in the order: machine
    /// limits, whole triangles, index bounds, vertex range.
    pub fn from_vertices_indices(vertices: Vec<Vertex>, indices: Vec<u32>) -> (r: Result<
        Mesh,
        MeshError,
    >)
        ensures
            match r {
                Ok(m) => {
                    &&& m.wf()
                    &&& m.vertices@ == vertices@
                    &&& m.indices@ == indices@
                },
                Err(e) => {
                    let too_large = vertices@.len() > VERT_MAX || indices@.len() > IDX_MAX;
                    let incomplete = indices@.len() % 3 != 0;
                    let bad_index = exists|i: int| 0 <= i < indices@.len()
                        && #[trigger] indices@[i] >= vertices@.len();
                    let bad_vertex = exists|i: int| 0 <= i < vertices@.len()
                        && !(#[trigger] vertices@[i]).wf();
                    if too_large {
                        e == MeshError::TooLarge
                    } else if incomplete {
                        e == MeshError::IncompleteTriangle
                    } else if bad_index {
                        e == MeshError::IndexOutOfBounds
                    } else {
                        e == MeshError::VertexOutOfRange && bad_vertex
                    }
                },
            },
            r is Ok <==> (vertices@.len() <= VERT_MAX && indices@.len() <= IDX_MAX
                && indices@.len() % 3 == 0 && (forall|i: int| 0 <= i < indices@.len()
                ==> #[trigger] indices@[i] < vertices@.len()) && (forall|i: int| 0 <= i
                < vertices@.len() ==> (#[trigger] vertices@[i]).wf())),
    {
        if vertices.len() > VERT_MAX || indices.len() > IDX_MAX {
            return Err(MeshError::TooLarge);
        }
        if indices.len() % 3 != 0 {
            return Err(MeshError::IncompleteTriangle);
        }
        let nv: usize = vertices.len();
        let ni: usize = indices.len();
        let mut i: usize = 0;
        while i < ni
            invariant
                i <= ni,
                ni == indices.len(),
                nv == vertices.len(),
                nv <= VERT_MAX,
                ni <= IDX_MAX,
                ni % 3 == 0,
                forall|j: int| 0 <= j < i ==> #[trigger] indices@[j] < nv,
            decreases ni - i,
        {
            if indices[i] as usize >= nv {
                proof {
                    assert(0 <= i < indices@.len() && indices@[i as int] >= vertices@.len());
                }
                return Err(MeshError::IndexOutOfBounds);
            }
            i = i + 1;
        }
        let mut k: usize = 0;
        while k < nv
            invariant
                k <= nv,
                nv == vertices.len(),
                nv <= VERT_MAX,
                indices.len() <= IDX_MAX,
                indices.len() % 3 == 0,
                forall|j: int| 0 <= j < indices.len() ==> #[trigger] indices@[j] < nv,
                forall|j: int| 0 <= j < k ==> (#[trigger] vertices@[j]).wf(),
            decreases nv - k,
        {
            let v: Vertex = vertices[k];
            let in_range: bool = -POS_MAX <= v.position.x && v.position.x <= POS_MAX && -POS_MAX
                <= v.position.y && v.position.y <= POS_MAX && -POS_MAX <= v.position.z
                && v.position.z <= POS_MAX && -FX_ONE <= v.normal.x && v.normal.x <= FX_ONE
                && -FX_ONE <= v.normal.y && v.normal.y <= FX_ONE && -FX_ONE <= v.normal.z
                && v.normal.z <= FX_ONE;
            if !in_range {
                proof {
                    assert(0 <= k < vertices@.len() && !vertices@[k as int].wf());
                }
                return Err(MeshError::VertexOutOfRange);
            }
            k = k + 1;
        }
        Ok(Mesh { vertices, indices })
    }
}

/// The vertex of the UV sphere at grid position `(yy, xx)`: latitude
/// angle `yy * PI / lat`, longitude angle `xx * TAU / lon`, position on
/// the unit sphere, and the normal equal to the position.
pub open spec fn spec_sphere_vertex(yy: int, xx: int, lat: int, lon: int) -> Vertex {
    let theta = (yy * (PI_FX as int)) / lat;
    let phi = (xx * (TAU_FX as int)) / lon;
    let px = fxmul(spec_sin(phi), spec_sin(theta));
    let py = spec_cos(theta);
    let pz = fxmul(spec_cos(phi), spec_sin(theta));
    let n = Vec3 { x: px as i64, y: py as i64, z: pz as i64 };
    Vertex { position: n, normal: n }
}

/// The six indices of sphere quad `q` describe its two triangles in the
/// fixed corner order.
pub open spec fn sphere_quad(s: Seq<u32>, q: int, lon: int) -> bool {
    let y = q / lon;
    let x = q % lon;
    let stride = lon + 1;
    let i0 = y * stride + x;
    let i1 = i0 + 1;
    let i2 = i0 + stride;
    let i3 = i2 + 1;
    &&& s[6 * q] == i0
    &&& s[6 * q + 1] == i2
    &&& s[6 * q + 2] == i1
    &&& s[6 * q + 3] == i1
    &&& s[6 * q + 4] == i2
    &&& s[6 * q + 5] == i3
}

/// A product of two unit-interval scalars stays in the unit interval,
/// with no slack: both extremes divide exactly.
proof fn lemma_fxmul_unit(a: int, b: int)
    requires
        -(FX_ONE as int) <= a <= FX_ONE as int,
        -(FX_ONE as int) <= b <= FX_ONE as int,
    ensures
        -(FX_ONE as int) <= fxmul(a, b) <= FX_ONE as int,
{
    let s = FX_ONE as int;
    let p = a * b;
    assert(-(s * s) <= p <= s * s) by (nonlinear_arith)
        requires
            -s <= a <= s,
            -s <= b <= s,
            p == a * b,
    ;
    lemma_div_is_ordered(p, s * s, s);
    lemma_div_is_ordered(-(s * s), p, s);
    lemma_div_multiples_vanish(s, s);
    lemma_div_multiples_vanish(-s, s);
    assert(s * -s == -(s * s)) by (nonlinear_arith);
}

/// One vertex of the UV sphere, computed with the fixed-point trig.
fn sphere_vertex(yy: usize, xx: usize, lat: usize, lon: usize) -> (v: Vertex)
    requires
        1 <= lat <= 512,
        1 <= lon <= 512,
        yy <= lat,
        xx <= lon,
    ensures
        v == spec_sphere_vertex(yy as int, xx as int, lat as int, lon as int),
        v.wf(),
{
    let theta: i64 = div_floor((yy as i64) * PI_FX, lat as i64);
    let phi: i64 = div_floor((xx as i64) * TAU_FX, lon as i64);
    let st: i64 = sin_fx(theta);
    let ct: i64 = cos_fx(theta);
    let sp: i64 = sin_fx(phi);
    let cp: i64 = cos_fx(phi);
    proof {
        lemma_fxmul_unit(sp as int, st as int);
        lemma_fxmul_unit(cp as int, st as int);
    }
    let px: i64 = fx_mul_g(sp, st, Ghost(65536), Ghost(65536));
    let pz: i64 = fx_mul_g(cp, st, Ghost(65536), Ghost(65536));
    let n: Vec3 = Vec3 { x: px, y: ct, z: pz };
    Vertex { position: n, normal: n }
}

/// Generate a UV-tessellated unit sphere with `lat` latitude bands and
/// `lon` longitude segments, both clamped to `[3, 512]`.  Every vertex
/// sits on the unit sphere with its normal equal to its position, and
/// each grid quad contributes two triangles.
pub fn make_uv_sphere(lat: u32, lon: u32) -> (m: Mesh)
    ensures
        m.wf(),
        ({
            let la = crate::fixed::clamp_i(lat as int, 3, 512);
            let lo = crate::fixed::clamp_i(lon as int, 3, 512);
            &&& m.vertices@.len() == (la + 1) * (lo + 1)
            &&& m.indices@.len() == 6 * la * lo
            &&& forall|j: int| 0 <= j < m.vertices@.len() ==> #[trigger] m.vertices@[j]
                == spec_sphere_vertex(j / (lo + 1), j % (lo + 1), la, lo)
            &&& forall|q: int| 0 <= q < la * lo ==> sphere_quad(m.indices@, q, lo)
        }),
{
    let la: usize = fx_min(fx_max(lat as i64, 3), 512) as usize;
    let lo: usize = fx_min(fx_max(lon as i64, 3), 512) as usize;
    let stride: usize = lo + 1;
    proof {
        assert((la + 1) * (lo + 1) <= 513 * 513) by (nonlinear_arith)
            requires
                3 <= la <= 512,
                3 <= lo <= 512,
        ;
        assert(6 * la * lo <= 6 * 512 * 512) by (nonlinear_arith)
            requires
                3 <= la <= 512,
                3 <= lo <= 512,
        ;
    }
    let mut vertices: Vec<Vertex> = Vec::new();
    let mut yy: usize = 0;
    while yy <= la
        invariant
            yy <= la + 1,
            3 <= la <= 512,
            3 <= lo <= 512,
            stride == lo + 1,
            vertices.len() == yy * stride,
            forall|j: int| 0 <= j < vertices.len() ==> #[trigger] vertices@[j]
                == spec_sphere_vertex(j / (lo + 1) as int, j % (lo + 1) as int, la as int,
                lo as int),
            forall|j: int| 0 <= j < vertices.len() ==> (#[trigger] vertices@[j]).wf(),
        decreases la + 1 - yy,
    {
        let mut xx: usize = 0;
        while xx <= lo
            invariant
                xx <= lo + 1,
                yy <= la,
                3 <= la <= 512,
                3 <= lo <= 512,
                stride == lo + 1,
                vertices.len() == yy * stride + xx,
                forall|j: int| 0 <= j < vertices.len() ==> #[trigger] vertices@[j]
                    == spec_sphere_vertex(j / (lo + 1) as int, j % (lo + 1) as int, la as int,
                    lo as int),
                forall|j: int| 0 <= j < vertices.len() ==> (#[trigger] vertices@[j]).wf(),
            decreases lo + 1 - xx,
        {
            proof {
                lemma_rowcol((lo + 1) as int, (la + 1) as int, yy as int, xx as int);
            }
            let v: Vertex = sphere_vertex(yy, xx, la, lo);
            vertices.push(v);
            xx = xx + 1;
        }
        proof {
            assert(yy * stride + (lo + 1) == (yy + 1) * stride) by (nonlinear_arith)
                requires
                    stride == lo + 1,
                    yy * stride + (lo + 1) == vertices.len(),
            ;
        }
        yy = yy + 1;
    }
    let mut indices: Vec<u32> = Vec::new();
    let mut qy: usize = 0;
    while qy < la
        invariant
            qy <= la,
            3 <= la <= 512,
            3 <= lo <= 512,
            stride == lo + 1,
            vertices.len() == (la + 1) * stride,
            indices.len() == 6 * (qy * lo),
            forall|q: int| 0 <= q < qy * lo ==> sphere_quad(indices@, q, lo as int),
            forall|j: int| 0 <= j < indices.len() ==> #[trigger] indices@[j] < vertices.len(),
        decreases la - qy,
    {
        let mut qx: usize = 0;
        while qx < lo
            invariant
                qx <= lo,
                qy < la,
                3 <= la <= 512,
                3 <= lo <= 512,
                stride == lo + 1,
                vertices.len() == (la + 1) * stride,
                indices.len() == 6 * (qy * lo + qx),
                forall|q: int| 0 <= q < qy * lo + qx ==> sphere_quad(indices@, q, lo as int),
                forall|j: int| 0 <= j < indices.len() ==> #[trigger] indices@[j]
                    < vertices.len(),
            decreases lo - qx,
        {
            let ghost pre = indices@;
            let ghost qcur: int = (qy * lo + qx) as int;
            proof {
                lemma_rowcol(lo as int, la as int, qy as int, qx as int);
                assert((qy as int) * (lo as int) + qx < 512 * 512) by (nonlinear_arith)
                    requires
                        qy < la <= 512,
                        qx < lo <= 512,
                ;
                assert((qy as int) * (stride as int) + qx + stride + 1 < ((la + 1) as int) * (
                stride as int)) by (nonlinear_arith)
                    requires
                        qy < la,
                        qx < lo,
                        stride == lo + 1,
                ;
                assert(((la + 1) as int) * (stride as int) <= 513 * 513) by (nonlinear_arith)
                    requires
                        la <= 512,
                        stride <= 513,
                ;
            }
            let i0: u32 = (qy * stride + qx) as u32;
            let i1: u32 = i0 + 1;
            let i2: u32 = i0 + (stride as u32);
            let i3: u32 = i2 + 1;
            indices.push(i0);
            indices.push(i2);
            indices.push(i1);
            indices.push(i1);
            indices.push(i2);
            indices.push(i3);
            proof {
                lemma_fundamental_div_mod_converse(qcur, lo as int, qy as int, qx as int);
                assert(sphere_quad(indices@, qcur, lo as int));
                assert forall|q: int| 0 <= q < qcur + 1 implies sphere_quad(indices@, q,
                    lo as int) by {
                    if q < qcur {
                        assert(sphere_quad(pre, q, lo as int));
                        assert(6 * q + 5 < pre.len());
                    }
                };
            }
            qx = qx + 1;
        }
        proof {
            assert((qy as int + 1) * (lo as int) == (qy as int) * (lo as int) + lo as int)
                by (nonlinear_arith);
        }
        qy = qy + 1;
    }
    proof {
        assert(6 * ((la as int) * (lo as int)) <= IDX_MAX && ((la + 1) as int) * ((lo
            + 1) as int) <= VERT_MAX) by (nonlinear_arith)
            requires
                3 <= la <= 512,
                3 <= lo <= 512,
        ;
        assert(indices.len() % 3 == 0) by (nonlinear_arith)
            requires
                indices.len() == 6 * ((la as int) * (lo as int)),
        ;
        assert(6 * ((la as int) * (lo as int)) == 6 * (la as int) * (lo as int))
            by (nonlinear_arith);
    }
    Mesh { vertices, indices }
}

} // verus!
