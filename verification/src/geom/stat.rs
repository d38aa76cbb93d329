use vstd::prelude::*;

use crate::geom::mesh::{Buffer, DEFAULT_BUFFER_SIZE};

verus! {

/// The earlier static-mesh interface, kept beside `mesh::Data` and
/// `mesh::Builder`: a set of buffers holding a mesh that never
/// changes after it is built.
#[derive(Debug)]
pub struct StaticData<I, V> {
    pub data: Vec<Buffer<I, V>>,
}

impl<I, V> StaticData<I, V> {
    pub fn new(data: Vec<Buffer<I, V>>) -> (r: Self)
        ensures
            r.data@ == data@,
    {
        StaticData { data }
    }

    pub fn empty() -> (r: Self)
        ensures
            r.data@.len() == 0,
    {
        StaticData::new(Vec::new())
    }

    /// The buffers of the mesh.
    pub fn buffers(&self) -> (r: &Vec<Buffer<I, V>>)
        ensures
            r == &self.data,
    {
        &self.data
    }
}

impl<I, V> Default for StaticData<I, V> {
    fn default() -> (r: Self)
        ensures
            r.data@.len() == 0,
    {
        StaticData::empty()
    }
}

/// The earlier builder for static meshes: indices and vertices are
/// accumulated exactly as given and wrapped into one buffer.
pub struct StaticBuilder<I, V> {
    buffer_size: usize,
    indices: Vec<I>,
    vertices: Vec<V>,
}

impl<I, V> StaticBuilder<I, V> {
    /// The indices fed so far, in order.
    pub closed spec fn spec_indices(&self) -> Seq<I> {
        self.indices@
    }

    /// The vertices fed so far, in order.
    pub closed spec fn spec_vertices(&self) -> Seq<V> {
        self.vertices@
    }

    /// Creates an empty builder.
    pub fn new() -> (r: Self)
        ensures
            r.spec_indices() =~= Seq::<I>::empty(),
            r.spec_vertices() =~= Seq::<V>::empty(),
    {
        StaticBuilder {
            buffer_size: DEFAULT_BUFFER_SIZE,
            indices: Vec::new(),
            vertices: Vec::new(),
        }
    }

    /// Appends indices, unchanged and unchecked.
    pub fn feed_indices(&mut self, items: Vec<I>)
        ensures
            final (self).spec_indices() == old(self).spec_indices() + items@,
            final (self).spec_vertices() == old(self).spec_vertices(),
    {
        let mut items = items;
        self.indices.append(&mut items);
    }

    /// Appends vertices, unchanged.
    pub fn feed_vertices(&mut self, items: Vec<V>)
        ensures
            final (self).spec_indices() == old(self).spec_indices(),
            final (self).spec_vertices() == old(self).spec_vertices() + items@,
    {
        let mut items = items;
        self.vertices.append(&mut items);
    }

    /// Consumes the builder into static mesh data holding exactly one
    /// buffer with everything that was fed.
    pub fn build(self) -> (r: StaticData<I, V>)
        ensures
            r.data@.len() == 1,
            r.data@[0].indices@ == self.spec_indices(),
            r.data@[0].vertices@ == self.spec_vertices(),
    {
        let buffer = Buffer::new(self.indices, self.vertices);
        let mut list: Vec<Buffer<I, V>> = Vec::new();
        list.push(buffer);
        StaticData::new(list)
    }
}

} // verus!
