use vstd::prelude::*;

verus! {

/// Size hint for one hardware buffer; kept for the planned splitting of
/// large meshes over several buffers.
pub const DEFAULT_BUFFER_SIZE: usize = 4096;

/// A mesh buffer: one index list and one vertex list, intended for a
/// single draw call. Indices are kept exactly as fed; the builder is
/// the sole guarantor that they stay in range of the vertex list.
#[derive(Debug)]
pub struct Buffer<I, V> {
    pub indices: Vec<I>,
    pub vertices: Vec<V>,
}

impl<I, V> Buffer<I, V> {
    pub fn new(indices: Vec<I>, vertices: Vec<V>) -> (r: Self)
        ensures
            r.indices@ == indices@,
            r.vertices@ == vertices@,
    {
        Buffer { indices, vertices }
    }

    pub fn empty() -> (r: Self)
        ensures
            r.indices@ =~= Seq::<I>::empty(),
            r.vertices@ =~= Seq::<V>::empty(),
    {
        Buffer::new(Vec::new(), Vec::new())
    }
}

impl<I, V> Default for Buffer<I, V> {
    fn default() -> (r: Self)
        ensures
            r.indices@ =~= Seq::<I>::empty(),
            r.vertices@ =~= Seq::<V>::empty(),
    {
        Buffer::empty()
    }
}

/// A set of mesh buffers: one finished mesh.
#[derive(Debug)]
pub struct Data<I, V> {
    pub data: Vec<Buffer<I, V>>,
}

impl<I, V> Data<I, V> {
    pub fn new(data: Vec<Buffer<I, V>>) -> (r: Self)
        ensures
            r.data@ == data@,
    {
        Data { data }
    }

    pub fn empty() -> (r: Self)
        ensures
            r.data@.len() == 0,
    {
        Data::new(Vec::new())
    }

    /// The buffers of the mesh.
    pub fn buffers(&self) -> (r: &Vec<Buffer<I, V>>)
        ensures
            r == &self.data,
    {
        &self.data
    }
}

impl<I, V> Default for Data<I, V> {
    fn default() -> (r: Self)
        ensures
            r.data@.len() == 0,
    {
        Data::empty()
    }
}

/// A mesh builder: it accumulates index and vertex data and is consumed
/// once into an immutable mesh. Indices are stored exactly as they are
/// given; they would only be adjusted if a mesh were split over several
/// buffers, which `build` does not yet do.
pub struct Builder<I, V> {
    buffer_size: usize,
    indices: Vec<I>,
    vertices: Vec<V>,
}

impl<I, V> Builder<I, V> {
    /// The indices fed so far, in order.
    pub closed spec fn spec_indices(&self) -> Seq<I> {
        self.indices@
    }

    /// The vertices fed so far, in order.
    pub closed spec fn spec_vertices(&self) -> Seq<V> {
        self.vertices@
    }

    /// Creates an empty builder.
    pub fn new() -> (r: Self)
        ensures
            r.spec_indices() =~= Seq::<I>::empty(),
            r.spec_vertices() =~= Seq::<V>::empty(),
    {
        Builder { buffer_size: DEFAULT_BUFFER_SIZE, indices: Vec::new(), vertices: Vec::new() }
    }

    /// Appends indices, unchanged and unchecked.
    pub fn feed_indices(&mut self, items: Vec<I>)
        ensures
            final (self).spec_indices() == old(self).spec_indices() + items@,
            final (self).spec_vertices() == old(self).spec_vertices(),
    {
        let mut items = items;
        self.indices.append(&mut items);
    }

    /// Appends vertices, unchanged.
    pub fn feed_vertices(&mut self, items: Vec<V>)
        ensures
            final (self).spec_indices() == old(self).spec_indices(),
            final (self).spec_vertices() == old(self).spec_vertices() + items@,
    {
        let mut items = items;
        self.vertices.append(&mut items);
    }

    /// Consumes the builder into mesh data holding exactly one buffer
    /// with everything that was fed.
    pub fn build(self) -> (r: Data<I, V>)
        ensures
            r.data@.len() == 1,
            r.data@[0].indices@ == self.spec_indices(),
            r.data@[0].vertices@ == self.spec_vertices(),
    {
        let buffer = Buffer::new(self.indices, self.vertices);
        let mut list: Vec<Buffer<I, V>> = Vec::new();
        list.push(buffer);
        Data::new(list)
    }
}

} // verus!
