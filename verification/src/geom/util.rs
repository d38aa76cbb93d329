use vstd::prelude::*;

verus! {

/// The fan triangulation of a face: triangle `i` is made of the face's
/// first corner and corners `i + 1` and `i + 2`, so a face of `n`
/// corners yields `n - 2` triangles and winding is preserved.
pub open spec fn fan_triangles<T>(face: Seq<T>) -> Seq<Seq<T>> {
    if face.len() < 3 {
        Seq::empty()
    } else {
        Seq::new((face.len() - 2) as nat, |i: int| seq![face[0], face[i + 1], face[i + 2]])
    }
}

/// True iff the triangle (a 3-corner face) walks the edge `u -> v`.
pub open spec fn tri_has_edge<T>(t: Seq<T>, u: T, v: T) -> bool {
    ||| (t[0] == u && t[1] == v)
    ||| (t[1] == u && t[2] == v)
    ||| (t[2] == u && t[0] == v)
}

/// True iff the face's boundary edge leaving corner `j` — to the next
/// corner, or back to the first from the last — is walked by some fan
/// triangle of the face.
pub open spec fn edge_covered<T>(face: Seq<T>, j: int) -> bool {
    exists|i: int|
        0 <= i < face.len() - 2 && tri_has_edge(
            #[trigger] fan_triangles(face)[i],
            face[j],
            face[(j + 1) % (face.len() as int)],
        )
}

/// The fan law: a face of `n >= 3` corners triangulates into exactly
/// `n - 2` triangles; each is a triangle that keeps the face's first
/// corner as its own first corner; and the face's boundary — every edge
/// between consecutive corners, and the closing edge back to the first
/// corner — reappears as an edge of some triangle.
#[verifier::rlimit(50)]
pub proof fn lemma_fan_triangulation<T>(face: Seq<T>)
    requires
        face.len() >= 3,
    ensures
        fan_triangles(face).len() == face.len() - 2,
        forall|i: int|
            0 <= i < face.len() - 2 ==> {
                let t = #[trigger] fan_triangles(face)[i];
                t.len() == 3 && t[0] == face[0] && t[1] == face[i + 1] && t[2] == face[i + 2]
            },
        forall|j: int| 0 <= j < face.len() ==> #[trigger] edge_covered(face, j),
{
    let fan = fan_triangles(face);
    let n = face.len() as int;
    assert forall|j: int| 0 <= j < n implies #[trigger] edge_covered(face, j) by {
        if j < n - 1 {
            vstd::arithmetic::div_mod::lemma_small_mod((j + 1) as nat, n as nat);
            assert((j + 1) % n == j + 1);
        } else {
            vstd::arithmetic::div_mod::lemma_mod_self_0(n);
            assert((j + 1) % n == 0);
        }
        if j == 0 {
            assert(fan[0] =~= seq![face[0], face[1], face[2]]);
            assert(tri_has_edge(fan[0], face[0], face[(j + 1) % n]));
        } else if j < n - 1 {
            assert(fan[j - 1] =~= seq![face[0], face[j], face[j + 1]]);
            assert(tri_has_edge(fan[j - 1], face[j], face[(j + 1) % n]));
        } else {
            assert(fan[n - 3] =~= seq![face[0], face[n - 2], face[n - 1]]);
            assert(tri_has_edge(fan[n - 3], face[n - 1], face[(j + 1) % n]));
        }
    }
}

/// A face triangulator: hands out the fan triangles of a face one at a
/// time, in order.
pub struct Triangulate<T> {
    face: Vec<T>,
    cur_idx: usize,
    vert_count: usize,
    first_vert: T,
}

impl<T: Copy> Triangulate<T> {
    /// The face being triangulated.
    pub closed spec fn spec_face(&self) -> Seq<T> {
        self.face@
    }

    /// How many triangles were handed out so far.
    pub closed spec fn spec_emitted(&self) -> int {
        self.cur_idx as int
    }

    /// The cached corner count and first corner agree with the face,
    /// which is large enough to triangulate.
    pub closed spec fn wf(&self) -> bool {
        &&& self.face@.len() >= 3
        &&& self.vert_count == self.face@.len()
        &&& self.first_vert == self.face@[0]
        &&& 0 <= self.cur_idx <= self.face@.len() - 2
    }

    /// The next triangle of the fan, or `None` when all `n - 2` have
    /// been handed out.
    pub fn next(&mut self) -> (r: Option<Vec<T>>)
        requires
            old(self).wf(),
        ensures
            final (self).wf(),
            final (self).spec_face() == old(self).spec_face(),
            old(self).spec_emitted() < old(self).spec_face().len() - 2 ==> {
                &&& r matches Some(t) && t@ =~= fan_triangles(old(self).spec_face())[old(
                    self,
                ).spec_emitted()]
                &&& final (self).spec_emitted() == old(self).spec_emitted() + 1
            },
            old(self).spec_emitted() >= old(self).spec_face().len() - 2 ==> {
                &&& r is None
                &&& final (self).spec_emitted() == old(self).spec_emitted()
            },
    {
        if self.cur_idx >= self.vert_count - 2 {
            return None;
        }
        let mut t: Vec<T> = Vec::new();
        t.push(self.first_vert);
        t.push(self.face[self.cur_idx + 1]);
        t.push(self.face[self.cur_idx + 2]);
        self.cur_idx = self.cur_idx + 1;
        Some(t)
    }
}

/// Starts triangulating a face. A face needs at least 3 corners; the
/// fan of a triangle is the triangle itself.
pub fn triangulate<T: Copy>(face: Vec<T>) -> (r: Triangulate<T>)
    requires
        face@.len() >= 3,
    ensures
        r.wf(),
        r.spec_face() == face@,
        r.spec_emitted() == 0,
{
    let first_vert = face[0];
    let vert_count = face.len();
    Triangulate { face, cur_idx: 0, vert_count, first_vert }
}

/// Triangulates a whole face at once: all `n - 2` fan triangles in
/// order.
pub fn triangulate_all<T: Copy>(face: &Vec<T>) -> (r: Vec<Vec<T>>)
    requires
        face@.len() >= 3,
    ensures
        r@.len() == face@.len() - 2,
        forall|i: int| 0 <= i < r@.len() ==> (#[trigger] r@[i])@ =~= fan_triangles(face@)[i],
{
    let n = face.len();
    let first: T = face[0];
    let mut r: Vec<Vec<T>> = Vec::new();
    let mut i: usize = 0;
    #[verifier::loop_isolation(false)]
    while i < n - 2
        invariant
            0 <= i <= n - 2,
            r@.len() == i,
            forall|j: int| 0 <= j < i ==> (#[trigger] r@[j])@ =~= fan_triangles(face@)[j],
        decreases n - 2 - i,
    {
        let mut t: Vec<T> = Vec::new();
        t.push(first);
        t.push(face[i + 1]);
        t.push(face[i + 2]);
        r.push(t);
        i = i + 1;
    }
    r
}

} // verus!
