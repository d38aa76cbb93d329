use vstd::prelude::*;

use crate::geom::aabb::{in_coord_range, spec_max_dev, spec_mean, Aabb};
use crate::geom::aabb::axis_of;
use crate::geom::Triangle;
use crate::math::Vector3;

verus! {

broadcast use vstd::seq_lib::group_seq_properties;

/// Default largest number of triangles a leaf may keep before it splits.
pub const DEFAULT_THRESHOLD: usize = 40;

/// Default depth budget for the recursive build.
pub const MAXIMUM_DEPTH: usize = 12;

/// One triangle of the octree: its corners are plain points.
pub type OctreeTriangle = Triangle<Vector3>;

/// True iff at least one corner of `t` lies inside `aabb`.
pub open spec fn spec_touches(aabb: Aabb, t: OctreeTriangle) -> bool {
    exists|k: int| 0 <= k < 3 && aabb.spec_contains(#[trigger] t.points@[k])
}

/// The corners of a sequence of triangles, in order.
pub open spec fn corners_of(ts: Seq<OctreeTriangle>) -> Seq<Vector3>
    decreases ts.len(),
{
    if ts.len() == 0 {
        Seq::empty()
    } else {
        corners_of(ts.drop_last()) + ts.last().points@
    }
}

/// An octree: a spatial partition of a set of triangles. Each node
/// carries its bounding box; a leaf keeps triangles, an inner node its
/// 8 octant subtrees.
pub enum Octree {
    Node { aabb: Aabb, subtrees: Vec<Octree> },
    Leaf { aabb: Aabb, triangles: Vec<OctreeTriangle> },
}

impl Octree {
    /// The bounding box of the node, whatever its variant.
    pub open spec fn spec_aabb(self) -> Aabb {
        match self {
            Octree::Node { aabb, .. } => aabb,
            Octree::Leaf { aabb, .. } => aabb,
        }
    }

    /// True iff `t` is stored in some leaf of the tree.
    pub open spec fn has_triangle(self, t: OctreeTriangle) -> bool
        decreases self,
    {
        match self {
            Octree::Leaf { triangles, .. } => triangles@.contains(t),
            Octree::Node { subtrees, .. } => exists|i: int|
                0 <= i < subtrees@.len() && (#[trigger] subtrees@[i]).has_triangle(t),
        }
    }

    /// Structural soundness: every node's box is well formed; a leaf
    /// holds only triangles touching its box; an inner node's 8
    /// subtrees carry exactly the octant boxes of `Aabb::subdivide`.
    pub open spec fn boxes_wf(self) -> bool
        decreases self,
    {
        match self {
            Octree::Leaf { aabb, triangles } => aabb.wf() && forall|t: OctreeTriangle|
                #[trigger] triangles@.contains(t) ==> spec_touches(aabb, t),
            Octree::Node { aabb, subtrees } => {
                &&& aabb.wf()
                &&& subtrees@.len() == 8
                &&& forall|i: int, a: int|
                    0 <= i < 8 && 0 <= a < 3 ==> #[trigger] axis_of(
                        subtrees@[i].spec_aabb().center,
                        a,
                    ) == aabb.child_center(i, a) && axis_of(
                        subtrees@[i].spec_aabb().half_extents,
                        a,
                    ) == aabb.child_half(a)
                &&& forall|i: int| 0 <= i < 8 ==> (#[trigger] subtrees@[i]).boxes_wf()
            },
        }
    }

    /// The stopping rule, relative to a depth budget: every leaf holds
    /// fewer than `threshold` triangles unless its budget was used up,
    /// and inner nodes appear only while budget is left, with exactly 8
    /// subtrees one level further down.
    pub open spec fn respects_limits(self, depth: int, threshold: int) -> bool
        decreases self,
    {
        match self {
            Octree::Leaf { triangles, .. } => triangles@.len() < threshold || depth <= 0,
            Octree::Node { subtrees, .. } => depth > 0 && subtrees@.len() == 8 && forall|i: int|
                0 <= i < 8 ==> #[trigger] subtrees@[i].respects_limits(depth - 1, threshold),
        }
    }

    /// Gets the AABB of the octree.
    pub fn aabb(&self) -> (r: Aabb)
        ensures
            r == self.spec_aabb(),
    {
        match self {
            Octree::Node { aabb, .. } => *aabb,
            Octree::Leaf { aabb, .. } => *aabb,
        }
    }

    /// Checks if any corner of the triangle is contained by the AABB of
    /// this node; it does not descend into subtrees.
    pub fn contains(&self, triangle: OctreeTriangle) -> (r: bool)
        requires
            self.spec_aabb().wf(),
        ensures
            r == spec_touches(self.spec_aabb(), triangle),
    {
        let aabb = self.aabb();
        let r = aabb.contains(triangle.points[0]) || aabb.contains(triangle.points[1])
            || aabb.contains(triangle.points[2]);
        proof {
            if r {
                if aabb.spec_contains(triangle.points@[0]) {
                    assert(spec_touches(self.spec_aabb(), triangle));
                } else if aabb.spec_contains(triangle.points@[1]) {
                    assert(spec_touches(self.spec_aabb(), triangle));
                } else {
                    assert(spec_touches(self.spec_aabb(), triangle));
                }
            }
        }
        r
    }

    /// Builds an octree over the given triangles with the default depth
    /// budget and leaf threshold. The root box is centered on the mean
    /// of all corners and spans their largest deviation from it, so it
    /// contains every corner; no triangle is dropped or invented.
    #[verifier::loop_isolation(false)]
    pub fn build(triangles: Vec<OctreeTriangle>) -> (r: Octree)
        requires
            forall|i: int, k: int|
                0 <= i < triangles@.len() && 0 <= k < 3 ==> in_coord_range(
                    #[trigger] triangles@[i].points@[k],
                ),
        ensures
            r.respects_limits(MAXIMUM_DEPTH as int, DEFAULT_THRESHOLD as int),
            r.boxes_wf(),
            forall|t: OctreeTriangle| #[trigger] triangles@.contains(t) ==> r.has_triangle(t),
            forall|t: OctreeTriangle| #[trigger] r.has_triangle(t) ==> triangles@.contains(t),
            axis_of(r.spec_aabb().center, 0) == spec_mean(corners_of(triangles@), 0),
            axis_of(r.spec_aabb().center, 1) == spec_mean(corners_of(triangles@), 1),
            axis_of(r.spec_aabb().center, 2) == spec_mean(corners_of(triangles@), 2),
            axis_of(r.spec_aabb().half_extents, 0) == spec_max_dev(
                corners_of(triangles@),
                0,
                spec_mean(corners_of(triangles@), 0),
            ),
            axis_of(r.spec_aabb().half_extents, 1) == spec_max_dev(
                corners_of(triangles@),
                1,
                spec_mean(corners_of(triangles@), 1),
            ),
            axis_of(r.spec_aabb().half_extents, 2) == spec_max_dev(
                corners_of(triangles@),
                2,
                spec_mean(corners_of(triangles@), 2),
            ),
    {
        let mut points: Vec<Vector3> = Vec::new();
        let mut i: usize = 0;
        while i < triangles.len()
            invariant
                0 <= i <= triangles@.len(),
                points@ =~= corners_of(triangles@.take(i as int)),
            decreases triangles@.len() - i,
        {
            let t = triangles[i];
            proof {
                assert(triangles@.take(i + 1 as int).drop_last() =~= triangles@.take(i as int));
                assert(triangles@.take(i + 1 as int).last() == triangles@[i as int]);
            }
            points.push(t.points[0]);
            points.push(t.points[1]);
            points.push(t.points[2]);
            proof {
                assert(points@ =~= corners_of(triangles@.take(i as int)) + triangles@[i as int].points@);
            }
            i = i + 1;
        }
        proof {
            assert(triangles@.take(triangles@.len() as int) =~= triangles@);
            lemma_corners_in_range(triangles@);
        }
        let aabb = Aabb::containing(&points);
        proof {
            lemma_corner_index(triangles@);
            assert forall|j: int| 0 <= j < triangles@.len() implies spec_touches(
                aabb,
                #[trigger] triangles@[j],
            ) by {
                assert(corners_of(triangles@)[3 * j] == triangles@[j].points@[0]);
                assert(aabb.spec_contains(corners_of(triangles@)[3 * j]));
                assert(aabb.spec_contains(triangles@[j].points@[0]));
            }
            assert forall|t: OctreeTriangle| triangles@.contains(t) implies spec_touches(
                aabb,
                t,
            ) by {
                let j = choose|j: int| 0 <= j < triangles@.len() && triangles@[j] == t;
                assert(spec_touches(aabb, triangles@[j]));
            }
        }
        Octree::build_advanced(triangles, aabb, MAXIMUM_DEPTH, DEFAULT_THRESHOLD)
    }

    /// Builds an octree over `triangles` inside `aabb`, splitting while
    /// a node holds at least `threshold` triangles and budget remains.
    /// A triangle goes to every octant that contains one of its corners,
    /// so nothing is dropped; leaves hold only triangles of the input.
    #[verifier::loop_isolation(false)]
    pub fn build_advanced(
        triangles: Vec<OctreeTriangle>,
        aabb: Aabb,
        depth: usize,
        threshold: usize,
    ) -> (r: Octree)
        requires
            aabb.wf(),
            forall|t: OctreeTriangle| #[trigger] triangles@.contains(t) ==> spec_touches(aabb, t),
        ensures
            r.spec_aabb() == aabb,
            r.respects_limits(depth as int, threshold as int),
            r.boxes_wf(),
            forall|t: OctreeTriangle| #[trigger] triangles@.contains(t) ==> r.has_triangle(t),
            forall|t: OctreeTriangle| #[trigger] r.has_triangle(t) ==> triangles@.contains(t),
        decreases depth,
    {
        if triangles.len() < threshold || depth == 0 {
            return Octree::Leaf { aabb, triangles };
        }
        let boxes = aabb.subdivide();
        let mut subtrees: Vec<Octree> = Vec::new();
        let mut i: usize = 0;
        while i < 8
            invariant
                subtrees@.len() == i,
                0 <= i <= 8,
                forall|j: int|
                    0 <= j < i ==> (#[trigger] subtrees@[j]).spec_aabb() == boxes@[j],
                forall|j: int|
                    0 <= j < i ==> (#[trigger] subtrees@[j]).respects_limits(
                        depth - 1,
                        threshold as int,
                    ),
                forall|j: int| 0 <= j < i ==> (#[trigger] subtrees@[j]).boxes_wf(),
                forall|j: int, t: OctreeTriangle|
                    0 <= j < i && #[trigger] subtrees@[j].has_triangle(t) ==> triangles@.contains(
                        t,
                    ),
                forall|j: int, t: OctreeTriangle|
                    0 <= j < i && triangles@.contains(t) && spec_touches(boxes@[j], t)
                        ==> #[trigger] subtrees@[j].has_triangle(t),
            decreases 8 - i,
        {
            let sub_aabb = boxes[i];
            let mut kept: Vec<OctreeTriangle> = Vec::new();
            let mut k: usize = 0;
            while k < triangles.len()
                invariant
                    0 <= k <= triangles@.len(),
                    forall|t: OctreeTriangle|
                        #[trigger] kept@.contains(t) ==> triangles@.contains(t) && spec_touches(
                            sub_aabb,
                            t,
                        ),
                    forall|m: int|
                        0 <= m < k && spec_touches(sub_aabb, #[trigger] triangles@[m])
                            ==> kept@.contains(triangles@[m]),
                decreases triangles@.len() - k,
            {
                let t = triangles[k];
                let touched = sub_aabb.contains(t.points[0]) || sub_aabb.contains(t.points[1])
                    || sub_aabb.contains(t.points[2]);
                proof {
                    if touched {
                        if sub_aabb.spec_contains(t.points@[0]) {
                            assert(spec_touches(sub_aabb, t));
                        } else if sub_aabb.spec_contains(t.points@[1]) {
                            assert(spec_touches(sub_aabb, t));
                        } else {
                            assert(spec_touches(sub_aabb, t));
                        }
                    } else {
                        assert(!spec_touches(sub_aabb, t));
                    }
                    assert(triangles@.contains(triangles@[k as int]));
                }
                if touched {
                    kept.push(t);
                }
                k = k + 1;
            }
            let sub = Octree::build_advanced(kept, sub_aabb, depth - 1, threshold);
            subtrees.push(sub);
            i = i + 1;
        }
        let r = Octree::Node { aabb, subtrees };
        proof {
            assert(r is Node && r->Node_subtrees == subtrees);
            assert forall|t: OctreeTriangle| triangles@.contains(t) implies r.has_triangle(t) by {
                assert(spec_touches(aabb, t));
                let c = choose|c: int| 0 <= c < 3 && aabb.spec_contains(t.points@[c]);
                let p = t.points@[c];
                assert(aabb.spec_contains(p));
                assert(exists|w: int| 0 <= w < 8 && #[trigger] boxes@[w].spec_contains(p));
                let w = choose|w: int| 0 <= w < 8 && #[trigger] boxes@[w].spec_contains(p);
                assert(spec_touches(boxes@[w], t));
                assert(subtrees@[w].has_triangle(t));
                assert(exists|j: int|
                    0 <= j < r->Node_subtrees@.len() && (#[trigger] r->Node_subtrees@[j]).has_triangle(
                        t,
                    ));
            }
            assert forall|t: OctreeTriangle| r.has_triangle(t) implies triangles@.contains(t) by {
                let w = choose|w: int|
                    0 <= w < subtrees@.len() && (#[trigger] subtrees@[w]).has_triangle(t);
                assert(subtrees@[w].has_triangle(t));
            }
        }
        r
    }
}

/// Every corner of every triangle of an in-range set is in range.
proof fn lemma_corners_in_range(ts: Seq<OctreeTriangle>)
    requires
        forall|i: int, k: int|
            0 <= i < ts.len() && 0 <= k < 3 ==> in_coord_range(#[trigger] ts[i].points@[k]),
    ensures
        forall|j: int| 0 <= j < corners_of(ts).len() ==> in_coord_range(#[trigger] corners_of(ts)[j]),
    decreases ts.len(),
{
    if ts.len() > 0 {
        lemma_corners_in_range(ts.drop_last());
        assert(corners_of(ts) == corners_of(ts.drop_last()) + ts.last().points@);
        assert forall|j: int| 0 <= j < corners_of(ts).len() implies in_coord_range(
            #[trigger] corners_of(ts)[j],
        ) by {
            if j < corners_of(ts.drop_last()).len() {
                assert(corners_of(ts)[j] == corners_of(ts.drop_last())[j]);
            } else {
                let k = j - corners_of(ts.drop_last()).len();
                assert(corners_of(ts)[j] == ts.last().points@[k]);
                assert(ts.last() == ts[ts.len() - 1]);
            }
        }
    }
}

/// The corner list has 3 entries per triangle, laid out in order.
proof fn lemma_corner_index(ts: Seq<OctreeTriangle>)
    ensures
        corners_of(ts).len() == 3 * ts.len(),
        forall|j: int, k: int|
            0 <= j < ts.len() && 0 <= k < 3 ==> corners_of(ts)[3 * j + k] == #[trigger] ts[j].points@[k],
    decreases ts.len(),
{
    if ts.len() > 0 {
        lemma_corner_index(ts.drop_last());
        assert(corners_of(ts) == corners_of(ts.drop_last()) + ts.last().points@);
        assert forall|j: int, k: int|
            0 <= j < ts.len() && 0 <= k < 3 implies corners_of(ts)[3 * j + k]
            == #[trigger] ts[j].points@[k] by {
            if j < ts.len() - 1 {
                assert(corners_of(ts)[3 * j + k] == corners_of(ts.drop_last())[3 * j + k]);
                assert(ts.drop_last()[j] == ts[j]);
            } else {
                assert(3 * j + k - corners_of(ts.drop_last()).len() == k);
                assert(corners_of(ts)[3 * j + k] == ts.last().points@[k]);
                assert(ts.last() == ts[j]);
            }
        }
    }
}

} // verus!
