//! Fragments: the per-pixel candidates the rasterizer emits.
//!
//! A fragment carries the pixel it covers (with the interpolated depth
//! duplicated as the position's `z`), the interpolated color, and the
//! barycentrically interpolated object-space vertex position that the host's
//! material shaders read.

use vstd::prelude::*;
use crate::color::Color;
use crate::vertex::Vec3i;

verus! {

/// One provisional per-pixel write, produced by rasterization and consumed
/// by the depth-tested framebuffer.
#[derive(Clone, Copy, PartialEq, Eq, Structural, Debug)]
pub struct Fragment {
    /// The covered pixel: `x` and `y` are its coordinates, `z` repeats the
    /// interpolated depth.
    pub position: Vec3i,
    /// The interpolated color.
    pub color: Color,
    /// The interpolated depth, used by the framebuffer's nearest-wins test.
    pub depth: i64,
    /// The interpolated object-space position, fed to procedural shaders.
    pub vertex_position: Vec3i,
}

impl Fragment {
    /// A fragment with no carried vertex position (it is set to the origin).
    pub fn new(x: i64, y: i64, color: Color, depth: i64) -> (f: Fragment)
        ensures
            f.position == (Vec3i { x, y, z: depth }),
            f.color == color,
            f.depth == depth,
            f.vertex_position == (Vec3i { x: 0, y: 0, z: 0 }),
    {
        Fragment {
            position: Vec3i { x, y, z: depth },
            color,
            depth,
            vertex_position: Vec3i { x: 0, y: 0, z: 0 },
        }
    }

    /// A fragment that carries an interpolated object-space position for the
    /// host's shaders.
    pub fn new_with_vertex_position(x: i64, y: i64, color: Color, depth: i64, vertex_position: Vec3i) -> (f: Fragment)
        ensures
            f.position == (Vec3i { x, y, z: depth }),
            f.color == color,
            f.depth == depth,
            f.vertex_position == vertex_position,
    {
        Fragment { position: Vec3i { x, y, z: depth }, color, depth, vertex_position }
    }
}

} // verus!
