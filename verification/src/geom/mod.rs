//! Geometry: primitives, mesh assembly, the Wavefront importer and the
//! octree spatial partition.

pub mod aabb;
pub mod formats;
pub mod mesh;
pub mod octree;
pub mod stat;
pub mod triangle;
pub mod util;
pub mod wavefront;

pub use self::aabb::Aabb;
pub use self::formats::Format;
pub use self::octree::Octree;
pub use self::triangle::Triangle;

use vstd::prelude::*;

use crate::math::Vector3;

verus! {

/// A vertex: anything with a position in space.
pub trait Vertex: Copy + Sized {
    /// The position, as seen by contracts.
    spec fn spec_coords(self) -> Vector3;

    /// Gets the position of the vertex.
    fn coords(self) -> (r: Vector3)
        ensures
            r == self.spec_coords(),
    ;
}

impl Vertex for Vector3 {
    open spec fn spec_coords(self) -> Vector3 {
        self
    }

    fn coords(self) -> Vector3 {
        self
    }
}

/// A polygon face: an ordered list of corners.
pub trait Face {
    /// The number of corners, as seen by contracts.
    spec fn spec_vertex_count(&self) -> nat;

    /// The number of corners.
    fn vertex_count(&self) -> (n: usize)
        ensures
            n == self.spec_vertex_count(),
    ;

    /// True iff the face is already a triangle.
    fn is_triangular(&self) -> (r: bool)
        ensures
            r == (self.spec_vertex_count() == 3),
    ;
}

impl<T> Face for Vec<T> {
    open spec fn spec_vertex_count(&self) -> nat {
        self@.len()
    }

    fn vertex_count(&self) -> usize {
        self.len()
    }

    fn is_triangular(&self) -> bool {
        self.len() == 3
    }
}

} // verus!
