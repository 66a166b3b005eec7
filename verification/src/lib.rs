//! A verified software 3D rendering core.
//!
//! The crate holds the stages of a small rasterizing renderer that work on
//! plain integer values: packed colors, the vertex and fragment records, the
//! triangle rasterizer with its barycentric coverage test, the depth-tested
//! framebuffer, and the per-mesh render walk over an index buffer.
//!
//! All screen coordinates, depths and carried vertex positions are integers;
//! a host that works in floating point quantizes its values (for example to a
//! fixed-point scale of its choice) before handing them to this crate. The
//! floating-point stages around the core — the model-matrix transform and the
//! procedural material shaders — live with the host, since this crate's
//! arithmetic is exact.

pub mod color;
pub mod geometry;
pub mod vertex;
pub mod fragment;
pub mod raster;
pub mod framebuffer;
pub mod render;
