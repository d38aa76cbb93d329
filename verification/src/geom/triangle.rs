use vstd::prelude::*;

use crate::geom::Vertex;

verus! {

/// A triangle: three vertices.
#[derive(Copy, Clone, Debug, PartialEq, Eq, Structural)]
pub struct Triangle<V> {
    pub points: [V; 3],
}

impl<V: Vertex> Triangle<V> {
    pub fn new(p1: V, p2: V, p3: V) -> (r: Self)
        ensures
            r.points@ =~= seq![p1, p2, p3],
    {
        Triangle { points: [p1, p2, p3] }
    }

    /// The corners of the triangle.
    pub fn points(&self) -> (r: &[V; 3])
        ensures
            r@ == self.points@,
    {
        &self.points
    }

    /// The corners of the triangle, by value.
    pub fn into_points(self) -> (r: [V; 3])
        ensures
            r@ == self.points@,
    {
        self.points
    }
}

} // verus!
