use vstd::prelude::*;

use crate::math::Vector3;

verus! {

/// Largest coordinate magnitude accepted by `Aabb::containing` and
/// `Aabb::grow`; it keeps every intermediate difference inside `i64`.
pub const COORD_LIMIT: i64 = 0x2000_0000_0000_0000;

/// Largest magnitude a box edge (`center ± half_extents`) may reach.
/// Three times `COORD_LIMIT`, so a box built from in-range points is
/// always well formed.
pub const BOX_BOUND: i64 = 0x6000_0000_0000_0000;

/// The component of a vector along axis `a` (0, 1 or 2).
pub open spec fn axis_of(v: Vector3, a: int) -> int {
    if a == 0 {
        v.0 as int
    } else if a == 1 {
        v.1 as int
    } else {
        v.2 as int
    }
}

/// True iff every component of `v` has magnitude at most `COORD_LIMIT`.
pub open spec fn in_coord_range(v: Vector3) -> bool {
    &&& -COORD_LIMIT <= v.0 <= COORD_LIMIT
    &&& -COORD_LIMIT <= v.1 <= COORD_LIMIT
    &&& -COORD_LIMIT <= v.2 <= COORD_LIMIT
}

/// Division truncating towards zero (for a positive divisor), as the
/// machine divides.
pub open spec fn trunc_div(a: int, b: int) -> int {
    if a >= 0 {
        a / b
    } else {
        -((-a) / b)
    }
}

/// The sum of the components along axis `a` of a sequence of points.
pub open spec fn spec_sum(s: Seq<Vector3>, a: int) -> int
    decreases s.len(),
{
    if s.len() == 0 {
        0
    } else {
        spec_sum(s.drop_last(), a) + axis_of(s.last(), a)
    }
}

/// The truncated mean of the components along axis `a`; 0 for no points.
pub open spec fn spec_mean(s: Seq<Vector3>, a: int) -> int {
    if s.len() == 0 {
        0
    } else {
        trunc_div(spec_sum(s, a), s.len() as int)
    }
}

/// The largest absolute deviation from `c` along axis `a`; 0 for no points.
pub open spec fn spec_max_dev(s: Seq<Vector3>, a: int, c: int) -> int
    decreases s.len(),
{
    if s.len() == 0 {
        0
    } else {
        let d = vstd::math::abs(axis_of(s.last(), a) - c) as int;
        let m = spec_max_dev(s.drop_last(), a, c);
        if d > m {
            d
        } else {
            m
        }
    }
}

/// An axis-aligned bounding box: a center and non-negative half-extents.
#[derive(Copy, Clone, Debug, PartialEq, Eq, Structural)]
pub struct Aabb {
    pub center: Vector3,
    pub half_extents: Vector3,
}

impl Aabb {
    /// Well-formedness on one axis: the half-extent is non-negative and
    /// both edges stay within `BOX_BOUND`, so they fit in an `i64`.
    pub open spec fn axis_wf(self, a: int) -> bool {
        &&& axis_of(self.half_extents, a) >= 0
        &&& axis_of(self.center, a) - axis_of(self.half_extents, a) >= -BOX_BOUND
        &&& axis_of(self.center, a) + axis_of(self.half_extents, a) <= BOX_BOUND
    }

    /// Well-formed: every axis is.
    pub open spec fn wf(self) -> bool {
        self.axis_wf(0) && self.axis_wf(1) && self.axis_wf(2)
    }

    /// Containment on one axis: `p` deviates from the center by at most
    /// the half-extent.
    pub open spec fn axis_contains(self, p: Vector3, a: int) -> bool {
        &&& axis_of(self.center, a) - axis_of(self.half_extents, a) <= axis_of(p, a)
        &&& axis_of(p, a) <= axis_of(self.center, a) + axis_of(self.half_extents, a)
    }

    /// The box contains `p` iff `p` deviates from the center by at most
    /// the half-extent on every axis.
    pub open spec fn spec_contains(self, p: Vector3) -> bool {
        self.axis_contains(p, 0) && self.axis_contains(p, 1) && self.axis_contains(p, 2)
    }

    /// Creates a box from its center and half-extents.
    pub fn new(center: Vector3, half_extents: Vector3) -> (r: Self)
        requires
            (Aabb { center, half_extents }).wf(),
        ensures
            r == (Aabb { center, half_extents }),
            r.wf(),
    {
        Aabb { center, half_extents }
    }

    pub fn center(&self) -> (r: Vector3)
        ensures
            r == self.center,
    {
        self.center
    }

    pub fn half_extents(&self) -> (r: Vector3)
        ensures
            r == self.half_extents,
    {
        self.half_extents
    }

    /// Checks if the box contains a point.
    pub fn contains(&self, point: Vector3) -> (r: bool)
        requires
            self.wf(),
        ensures
            r == self.spec_contains(point),
    {
        let c = self.center;
        let h = self.half_extents;
        (c.0 - h.0 <= point.0 && point.0 <= c.0 + h.0) && (c.1 - h.1 <= point.1 && point.1 <= c.1
            + h.1) && (c.2 - h.2 <= point.2 && point.2 <= c.2 + h.2)
    }

    /// Checks if the box contains any of the given points.
    pub fn contains_any(&self, points: &Vec<Vector3>) -> (r: bool)
        requires
            self.wf(),
        ensures
            r == exists|i: int| 0 <= i < points@.len() && self.spec_contains(points@[i]),
    {
        let mut i: usize = 0;
        while i < points.len()
            invariant
                self.wf(),
                0 <= i <= points@.len(),
                forall|j: int| 0 <= j < i ==> !self.spec_contains(points@[j]),
            decreases points@.len() - i,
        {
            if self.contains(points[i]) {
                return true;
            }
            i = i + 1;
        }
        false
    }

    /// Creates a bounding box containing a set of points: its center is
    /// the (truncated) mean of the points, its half-extent on each axis
    /// the largest absolute deviation from that center.
    pub fn containing(points: &Vec<Vector3>) -> (r: Self)
        requires
            forall|i: int| 0 <= i < points@.len() ==> in_coord_range(#[trigger] points@[i]),
        ensures
            r.wf(),
            axis_of(r.center, 0) == spec_mean(points@, 0),
            axis_of(r.center, 1) == spec_mean(points@, 1),
            axis_of(r.center, 2) == spec_mean(points@, 2),
            axis_of(r.half_extents, 0) == spec_max_dev(points@, 0, spec_mean(points@, 0)),
            axis_of(r.half_extents, 1) == spec_max_dev(points@, 1, spec_mean(points@, 1)),
            axis_of(r.half_extents, 2) == spec_max_dev(points@, 2, spec_mean(points@, 2)),
            forall|i: int| 0 <= i < points@.len() ==> r.spec_contains(#[trigger] points@[i]),
    {
        let n = points.len();
        if n == 0 {
            let zero = Vector3(0, 0, 0);
            return Aabb::new(zero, zero);
        }
        let mut sx: i128 = 0;
        let mut sy: i128 = 0;
        let mut sz: i128 = 0;
        let mut i: usize = 0;
        while i < n
            invariant
                n == points@.len(),
                forall|k: int| 0 <= k < points@.len() ==> in_coord_range(#[trigger] points@[k]),
                0 <= i <= n,
                sx == spec_sum(points@.take(i as int), 0),
                sy == spec_sum(points@.take(i as int), 1),
                sz == spec_sum(points@.take(i as int), 2),
                -(i as int) * (COORD_LIMIT as int) <= sx <= (i as int) * (COORD_LIMIT as int),
                -(i as int) * (COORD_LIMIT as int) <= sy <= (i as int) * (COORD_LIMIT as int),
                -(i as int) * (COORD_LIMIT as int) <= sz <= (i as int) * (COORD_LIMIT as int),
            decreases n - i,
        {
            let p = points[i];
            proof {
                assert(points@.take(i + 1 as int).drop_last() =~= points@.take(i as int));
                assert(points@.take(i + 1 as int).last() == points@[i as int]);
                lemma_sum_bound_step(i as int, sx as int, p.0 as int);
                lemma_sum_bound_step(i as int, sy as int, p.1 as int);
                lemma_sum_bound_step(i as int, sz as int, p.2 as int);
            }
            sx = sx + p.0 as i128;
            sy = sy + p.1 as i128;
            sz = sz + p.2 as i128;
            i = i + 1;
        }
        proof {
            assert(points@.take(n as int) =~= points@);
        }
        let cx = mean_axis(sx, n);
        let cy = mean_axis(sy, n);
        let cz = mean_axis(sz, n);
        let center = Vector3(cx, cy, cz);
        let mut hx: i64 = 0;
        let mut hy: i64 = 0;
        let mut hz: i64 = 0;
        let mut j: usize = 0;
        while j < n
            invariant
                n == points@.len(),
                forall|k: int| 0 <= k < points@.len() ==> in_coord_range(#[trigger] points@[k]),
                0 <= j <= n,
                -COORD_LIMIT <= cx <= COORD_LIMIT,
                -COORD_LIMIT <= cy <= COORD_LIMIT,
                -COORD_LIMIT <= cz <= COORD_LIMIT,
                hx == spec_max_dev(points@.take(j as int), 0, cx as int),
                hy == spec_max_dev(points@.take(j as int), 1, cy as int),
                hz == spec_max_dev(points@.take(j as int), 2, cz as int),
                0 <= hx <= 2 * (COORD_LIMIT as int),
                0 <= hy <= 2 * (COORD_LIMIT as int),
                0 <= hz <= 2 * (COORD_LIMIT as int),
            decreases n - j,
        {
            let p = points[j];
            proof {
                assert(points@.take(j + 1 as int).drop_last() =~= points@.take(j as int));
                assert(points@.take(j + 1 as int).last() == points@[j as int]);
            }
            let dx = abs_i64(p.0 - cx);
            let dy = abs_i64(p.1 - cy);
            let dz = abs_i64(p.2 - cz);
            if dx > hx {
                hx = dx;
            }
            if dy > hy {
                hy = dy;
            }
            if dz > hz {
                hz = dz;
            }
            j = j + 1;
        }
        proof {
            assert(points@.take(n as int) =~= points@);
        }
        let half = Vector3(hx, hy, hz);
        let r = Aabb::new(center, half);
        proof {
            lemma_max_dev_bounds(points@, 0, cx as int);
            lemma_max_dev_bounds(points@, 1, cy as int);
            lemma_max_dev_bounds(points@, 2, cz as int);
            assert forall|i2: int| 0 <= i2 < points@.len() implies r.spec_contains(
                #[trigger] points@[i2],
            ) by {
                assert(vstd::math::abs(axis_of(points@[i2], 0) - cx) <= hx);
                assert(vstd::math::abs(axis_of(points@[i2], 1) - cy) <= hy);
                assert(vstd::math::abs(axis_of(points@[i2], 2) - cz) <= hz);
            }
        }
        r
    }

    /// Grows the bounding box to include a point if necessary: the center
    /// stays, each half-extent becomes the larger of itself and the
    /// point's deviation.
    pub fn grow(self, point: Vector3) -> (r: Self)
        requires
            self.wf(),
            in_coord_range(self.center),
            in_coord_range(point),
        ensures
            r.wf(),
            r.center == self.center,
            axis_of(r.half_extents, 0) == vstd::math::max(
                axis_of(self.half_extents, 0),
                vstd::math::abs(axis_of(point, 0) - axis_of(self.center, 0)) as int,
            ),
            axis_of(r.half_extents, 1) == vstd::math::max(
                axis_of(self.half_extents, 1),
                vstd::math::abs(axis_of(point, 1) - axis_of(self.center, 1)) as int,
            ),
            axis_of(r.half_extents, 2) == vstd::math::max(
                axis_of(self.half_extents, 2),
                vstd::math::abs(axis_of(point, 2) - axis_of(self.center, 2)) as int,
            ),
            r.spec_contains(point),
            forall|q: Vector3| self.spec_contains(q) ==> r.spec_contains(q),
    {
        let c = self.center;
        let dx = abs_i64(point.0 - c.0);
        let dy = abs_i64(point.1 - c.1);
        let dz = abs_i64(point.2 - c.2);
        let hx = if dx > self.half_extents.0 {
            dx
        } else {
            self.half_extents.0
        };
        let hy = if dy > self.half_extents.1 {
            dy
        } else {
            self.half_extents.1
        };
        let hz = if dz > self.half_extents.2 {
            dz
        } else {
            self.half_extents.2
        };
        let r = Aabb { center: c, half_extents: Vector3(hx, hy, hz) };
        proof {
            assert(axis_of(r.half_extents, 0) == hx as int);
            assert(axis_of(r.half_extents, 1) == hy as int);
            assert(axis_of(r.half_extents, 2) == hz as int);
        }
        r
    }
}

/// Half of `h`, rounded up.
pub open spec fn ceil_half(h: int) -> int {
    h / 2 + h % 2
}

impl Aabb {
    /// The half-extent a child box has on axis `a`: half the parent's,
    /// rounded up, so that the two sides together cover the parent.
    pub open spec fn child_half(self, a: int) -> int {
        ceil_half(axis_of(self.half_extents, a))
    }

    /// True iff child `i` (0 to 7) lies on the low side of axis `a`.
    /// The fixed octant order is (front/back, top/bottom, left/right):
    /// bit 0 picks right (high x), bit 1 picks bottom (low y), bit 2
    /// picks back (low z).
    pub open spec fn child_is_low(i: int, a: int) -> bool {
        if a == 0 {
            i % 2 == 0
        } else if a == 1 {
            (i / 2) % 2 == 1
        } else {
            i >= 4
        }
    }

    /// The center a child box has on axis `a`: anchored at the parent's
    /// edge, a child half-extent inwards.
    pub open spec fn child_center(self, i: int, a: int) -> int {
        if Self::child_is_low(i, a) {
            axis_of(self.center, a) - axis_of(self.half_extents, a) + self.child_half(a)
        } else {
            axis_of(self.center, a) + axis_of(self.half_extents, a) - self.child_half(a)
        }
    }

    /// The half-extents a child box gets under `subdivide`: half the
    /// parent's, rounded up.
    pub fn quarter_extents(&self) -> (r: Vector3)
        requires
            self.wf(),
        ensures
            axis_of(r, 0) == self.child_half(0),
            axis_of(r, 1) == self.child_half(1),
            axis_of(r, 2) == self.child_half(2),
    {
        Vector3(
            ceil_half_i64(self.half_extents.0),
            ceil_half_i64(self.half_extents.1),
            ceil_half_i64(self.half_extents.2),
        )
    }

    /// Splits the box into its 8 octants. The octants cover the parent
    /// exactly: every point of the parent lies in at least one child,
    /// and every child lies within the parent.
    pub fn subdivide(&self) -> (r: Vec<Aabb>)
        requires
            self.wf(),
        ensures
            r@.len() == 8,
            forall|i: int| 0 <= i < 8 ==> (#[trigger] r@[i]).wf(),
            forall|i: int, a: int|
                0 <= i < 8 && 0 <= a < 3 ==> #[trigger] axis_of(r@[i].center, a)
                    == self.child_center(i, a) && axis_of(r@[i].half_extents, a)
                    == self.child_half(a),
            forall|i: int, p: Vector3|
                0 <= i < 8 && #[trigger] r@[i].spec_contains(p) ==> self.spec_contains(p),
            forall|p: Vector3|
                #[trigger] self.spec_contains(p) ==> exists|i: int|
                    0 <= i < 8 && (#[trigger] r@[i]).spec_contains(p),
    {
        let Vector3(cx, cy, cz) = self.center;
        let Vector3(hx, hy, hz) = self.half_extents;
        let qx = ceil_half_i64(hx);
        let qy = ceil_half_i64(hy);
        let qz = ceil_half_i64(hz);
        let quarters = Vector3(qx, qy, qz);
        let xl = cx - hx + qx;
        let xh = cx + hx - qx;
        let yl = cy - hy + qy;
        let yh = cy + hy - qy;
        let zl = cz - hz + qz;
        let zh = cz + hz - qz;
        let mut r: Vec<Aabb> = Vec::new();
        r.push(Aabb::new(Vector3(xl, yh, zh), quarters));
        r.push(Aabb::new(Vector3(xh, yh, zh), quarters));
        r.push(Aabb::new(Vector3(xl, yl, zh), quarters));
        r.push(Aabb::new(Vector3(xh, yl, zh), quarters));
        r.push(Aabb::new(Vector3(xl, yh, zl), quarters));
        r.push(Aabb::new(Vector3(xh, yh, zl), quarters));
        r.push(Aabb::new(Vector3(xl, yl, zl), quarters));
        r.push(Aabb::new(Vector3(xh, yl, zl), quarters));
        proof {
            assert forall|i: int, a: int|
                0 <= i < 8 && 0 <= a < 3 implies #[trigger] axis_of(r@[i].center, a)
                == self.child_center(i, a) && axis_of(r@[i].half_extents, a) == self.child_half(
                a,
            ) by {
                if i == 0 {
                } else if i == 1 {
                } else if i == 2 {
                } else if i == 3 {
                } else if i == 4 {
                } else if i == 5 {
                } else if i == 6 {
                } else {
                }
            }
            assert forall|i: int, p: Vector3|
                0 <= i < 8 && #[trigger] r@[i].spec_contains(p) implies self.spec_contains(
                p,
            ) by {
                if i == 0 {
                } else if i == 1 {
                } else if i == 2 {
                } else if i == 3 {
                } else if i == 4 {
                } else if i == 5 {
                } else if i == 6 {
                } else {
                }
            }
            assert forall|p: Vector3| #[trigger] self.spec_contains(p) implies exists|i: int|
                0 <= i < 8 && (#[trigger] r@[i]).spec_contains(p) by {
                let x_low = p.0 <= xl + qx;
                let y_low = p.1 <= yl + qy;
                let z_low = p.2 <= zl + qz;
                if x_low {
                    if y_low {
                        if z_low {
                            assert(r@[6].spec_contains(p));
                        } else {
                            assert(r@[2].spec_contains(p));
                        }
                    } else {
                        if z_low {
                            assert(r@[4].spec_contains(p));
                        } else {
                            assert(r@[0].spec_contains(p));
                        }
                    }
                } else {
                    if y_low {
                        if z_low {
                            assert(r@[7].spec_contains(p));
                        } else {
                            assert(r@[3].spec_contains(p));
                        }
                    } else {
                        if z_low {
                            assert(r@[5].spec_contains(p));
                        } else {
                            assert(r@[1].spec_contains(p));
                        }
                    }
                }
            }
        }
        r
    }
}

/// Half of `h`, rounded up, computed without overflow.
fn ceil_half_i64(h: i64) -> (r: i64)
    requires
        h >= 0,
    ensures
        r == ceil_half(h as int),
        0 <= r <= h,
        2 * r >= h,
{
    let hu = h as u64;
    let q = hu / 2 + hu % 2;
    proof {
        vstd::arithmetic::div_mod::lemma_fundamental_div_mod(h as int, 2);
    }
    q as i64
}

/// `|v|`, for any value but `i64::MIN`.
fn abs_i64(v: i64) -> (r: i64)
    requires
        v != i64::MIN,
    ensures
        r == vstd::math::abs(v as int),
{
    if v < 0 {
        -v
    } else {
        v
    }
}

/// The truncated mean of a sum of `n` components, each within
/// `COORD_LIMIT`.
fn mean_axis(sum: i128, n: usize) -> (r: i64)
    requires
        n > 0,
        -(n as int) * (COORD_LIMIT as int) <= sum <= (n as int) * (COORD_LIMIT as int),
    ensures
        r == trunc_div(sum as int, n as int),
        -COORD_LIMIT <= r <= COORD_LIMIT,
{
    if sum >= 0 {
        let q = (sum as u128) / (n as u128);
        proof {
            vstd::arithmetic::div_mod::lemma_div_is_ordered(
                sum as int,
                (n as int) * (COORD_LIMIT as int),
                n as int,
            );
            vstd::arithmetic::div_mod::lemma_div_by_multiple(COORD_LIMIT as int, n as int);
            vstd::arithmetic::mul::lemma_mul_is_commutative(n as int, COORD_LIMIT as int);
        }
        q as i64
    } else {
        let mag = (-sum) as u128;
        let q = mag / (n as u128);
        proof {
            vstd::arithmetic::div_mod::lemma_div_is_ordered(
                -sum,
                (n as int) * (COORD_LIMIT as int),
                n as int,
            );
            vstd::arithmetic::div_mod::lemma_div_by_multiple(COORD_LIMIT as int, n as int);
            vstd::arithmetic::mul::lemma_mul_is_commutative(n as int, COORD_LIMIT as int);
        }
        -(q as i64)
    }
}

/// One step of the sum bound: appending a component within `COORD_LIMIT`
/// keeps the running sum within `(i + 1) * COORD_LIMIT`.
proof fn lemma_sum_bound_step(i: int, s: int, x: int)
    requires
        i >= 0,
        -i * (COORD_LIMIT as int) <= s <= i * (COORD_LIMIT as int),
        -COORD_LIMIT <= x <= COORD_LIMIT,
    ensures
        -(i + 1) * (COORD_LIMIT as int) <= s + x <= (i + 1) * (COORD_LIMIT as int),
{
    assert((i + 1) * (COORD_LIMIT as int) == i * (COORD_LIMIT as int) + COORD_LIMIT)
        by (nonlinear_arith);
}

/// Every point of a sequence deviates from `c` by at most the sequence's
/// largest deviation.
proof fn lemma_max_dev_bounds(s: Seq<Vector3>, a: int, c: int)
    ensures
        forall|i: int|
            0 <= i < s.len() ==> vstd::math::abs(axis_of(#[trigger] s[i], a) - c) <= spec_max_dev(
                s,
                a,
                c,
            ),
    decreases s.len(),
{
    if s.len() > 0 {
        lemma_max_dev_bounds(s.drop_last(), a, c);
        assert forall|i: int|
            0 <= i < s.len() implies vstd::math::abs(axis_of(#[trigger] s[i], a) - c)
            <= spec_max_dev(s, a, c) by {
            if i < s.len() - 1 {
                assert(s.drop_last()[i] == s[i]);
            } else {
                assert(s[i] == s.last());
            }
        }
    }
}

} // verus!
