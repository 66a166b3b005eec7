//! Vertices and the integer vector types they are built from.
//!
//! A vertex carries its object-space attributes (position, normal, texture
//! coordinates, base color) and the outputs of the host's transform stage:
//! the screen-space position, whose `x` and `y` are pixel coordinates and
//! whose `z` is the depth, and the transformed normal. All components are
//! integers; a floating-point host quantizes to a fixed-point scale of its
//! choice before constructing a vertex.

use vstd::prelude::*;
use crate::color::Color;
use crate::geometry::in_coord;

verus! {

/// A triple of integer coordinates.
#[derive(Clone, Copy, PartialEq, Eq, Structural, Debug)]
pub struct Vec3i {
    pub x: i64,
    pub y: i64,
    pub z: i64,
}

/// A pair of integer coordinates.
#[derive(Clone, Copy, PartialEq, Eq, Structural, Debug)]
pub struct Vec2i {
    pub x: i64,
    pub y: i64,
}

/// One mesh vertex with its per-frame transform outputs.
#[derive(Clone, Copy, PartialEq, Eq, Structural, Debug)]
pub struct Vertex {
    /// Object-space position; rasterization interpolates it into each
    /// fragment's shading position, so procedural patterns stay stable under
    /// rotation of the transformed mesh.
    pub position: Vec3i,
    /// Object-space normal; passes through the pipeline unchanged.
    pub normal: Vec3i,
    /// Texture coordinates; pass through the pipeline unchanged.
    pub tex_coords: Vec2i,
    /// Base color, interpolated across rasterized triangles.
    pub color: Color,
    /// Screen-space position after the host's transform and perspective
    /// divide: `x` and `y` are pixel coordinates, `z` is the depth.
    pub transformed_position: Vec3i,
    /// Normal after the host's normal-matrix transform; passes through.
    pub transformed_normal: Vec3i,
}

/// Whether every coordinate that rasterization reads or interpolates is
/// within the grid bound, so that edge functions and interpolation
/// numerators cannot overflow.
pub open spec fn vertex_in_range(v: Vertex) -> bool {
    &&& in_coord(v.transformed_position.x as int)
    &&& in_coord(v.transformed_position.y as int)
    &&& in_coord(v.transformed_position.z as int)
    &&& in_coord(v.position.x as int)
    &&& in_coord(v.position.y as int)
    &&& in_coord(v.position.z as int)
}

} // verus!
