use vstd::prelude::*;

use crate::geom::mesh::{Builder, Data};
use crate::geom::wavefront::{Error, Vertex};

verus! {

/// A geometry format that loads a byte stream into mesh data.
pub trait Format {
    /// Loads the geometry into a mesh builder.
    fn load_with_builder(input: &[u8], builder: &mut Builder<usize, Vertex>) -> Result<(), Error>;

    /// Loads the geometry and returns it as a mesh.
    fn load(input: &[u8]) -> Result<Data<usize, Vertex>, Error>;
}

impl Format for crate::geom::wavefront::Wavefront {
    fn load_with_builder(input: &[u8], builder: &mut Builder<usize, Vertex>) -> Result<(), Error> {
        crate::geom::wavefront::Wavefront::load_with_builder(input, builder)
    }

    fn load(input: &[u8]) -> Result<Data<usize, Vertex>, Error> {
        crate::geom::wavefront::Wavefront::load(input)
    }
}

} // verus!
