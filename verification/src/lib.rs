//! Core of a small 3D engine: integer linear algebra, a polygon mesh
//! builder, a Wavefront OBJ importer, and an octree spatial partition.
//!
//! Coordinates are fixed-point: a `Scalar` is an `i64` holding the value
//! times one million, so the geometry and the importer stay exact.

pub mod color;
pub mod geom;
pub mod gfx;
pub mod math;
pub mod net;
pub mod num;
