//! Software renderer for a procedurally shaded celestial body.
//!
//! The pipeline projects mesh triangles into screen space, rasterizes them
//! with an edge-function inside test and a depth buffer, interpolates depth
//! and normals barycentrically, and colors visible pixels with one of five
//! analytic surface shaders.  All arithmetic is fixed point: a scalar is an
//! `i64` holding `value * 65536`, so every computation is exact integer
//! arithmetic with floor division and can be reasoned about precisely.

pub mod camera;
pub mod fixed;
pub mod math;
pub mod mesh;
pub mod raster;
pub mod renderer;
pub mod shaders;
pub mod trig;
