//! Axis-aligned bounding boxes and the slab test.

use vstd::prelude::*;
use crate::scalar::{Scalar, MAX_FINITE_BITS};
use crate::vec3::{Point3, Vec3};

verus! {

/// A box with faces parallel to the axes, by its two extreme corners. A box
/// may be flat on an axis.
#[derive(Clone, Copy, Debug)]
pub struct AABB {
    pub min: Point3,
    pub max: Point3,
}

/// Where a ray crosses the two planes that bound a box on one axis:
/// `inv_d` is the reciprocal of the ray's direction on that axis, `t0` and
/// `t1` are the ray parameters at the box's minimum and maximum.
#[derive(Clone, Copy, Debug)]
pub struct Slab {
    pub inv_d: Scalar,
    pub t0: Scalar,
    pub t1: Scalar,
}

impl Slab {
    /// The parameter at which the ray enters the slab: the crossings swap
    /// when the ray runs against the axis.
    pub open spec fn near(self) -> Scalar {
        if self.inv_d.spec_lt(Scalar::spec_zero()) {
            self.t1
        } else {
            self.t0
        }
    }

    /// The parameter at which the ray leaves the slab.
    pub open spec fn far(self) -> Scalar {
        if self.inv_d.spec_lt(Scalar::spec_zero()) {
            self.t0
        } else {
            self.t1
        }
    }

    /// The interval `[t_min, t_max]` cut down to the part inside the slab.
    pub open spec fn cut(self, t_min: Scalar, t_max: Scalar) -> (Scalar, Scalar) {
        (t_min.spec_max(self.near()), t_max.spec_min(self.far()))
    }

    /// Whether nothing of `[t_min, t_max]` is left inside the slab.
    pub open spec fn misses(self, t_min: Scalar, t_max: Scalar) -> bool {
        self.cut(t_min, t_max).1.spec_le(self.cut(t_min, t_max).0)
    }

    pub fn new(inv_d: Scalar, t0: Scalar, t1: Scalar) -> (s: Slab)
        ensures
            s == (Slab { inv_d, t0, t1 }),
    {
        Slab { inv_d, t0, t1 }
    }

    /// Cuts `[t_min, t_max]` down to the part inside the slab; `None` when
    /// nothing is left.
    pub fn narrow(&self, t_min: Scalar, t_max: Scalar) -> (cut: Option<(Scalar, Scalar)>)
        ensures
            cut is None <==> self.misses(t_min, t_max),
            cut is Some ==> cut->0 == self.cut(t_min, t_max),
    {
        let backwards = self.inv_d.lt(Scalar::zero());
        let near = if backwards { self.t1 } else { self.t0 };
        let far = if backwards { self.t0 } else { self.t1 };
        let lo = t_min.max(near);
        let hi = t_max.min(far);
        if hi.le(lo) {
            None
        } else {
            Some((lo, hi))
        }
    }
}

impl AABB {
    /// Whether no coordinate of the box is a NaN.
    pub open spec fn numeric(self) -> bool {
        self.min.numeric() && self.max.numeric()
    }

    /// Whether the point lies in the box, faces included.
    pub open spec fn contains(self, p: Point3) -> bool {
        self.min.all_le(p) && p.all_le(self.max)
    }

    /// Whether the other box lies in this one.
    pub open spec fn encloses(self, other: AABB) -> bool {
        self.min.all_le(other.min) && other.max.all_le(self.max)
    }

    /// The box around two boxes: the smaller of the minimums and the larger
    /// of the maximums on every axis.
    pub open spec fn union(self, other: AABB) -> AABB {
        AABB { min: self.min.spec_min(other.min), max: self.max.spec_max(other.max) }
    }

    /// The slab test: the interval is cut by the x, y and z slabs in turn,
    /// and the ray crosses the box when something is left after each cut.
    pub open spec fn crosses(x: Slab, y: Slab, z: Slab, t_min: Scalar, t_max: Scalar) -> bool {
        let a = x.cut(t_min, t_max);
        let b = y.cut(a.0, a.1);
        !x.misses(t_min, t_max) && !y.misses(a.0, a.1) && !z.misses(b.0, b.1)
    }

    pub fn new(min: Point3, max: Point3) -> (b: AABB)
        ensures
            b == (AABB { min, max }),
    {
        AABB { min, max }
    }

    /// The box around two boxes.
    pub fn surrounding_box(box0: &AABB, box1: &AABB) -> (b: AABB)
        ensures
            b == box0.union(*box1),
    {
        let small = Vec3::new(
            box0.min().x().min(box1.min().x()),
            box0.min().y().min(box1.min().y()),
            box0.min().z().min(box1.min().z()),
        );
        let big = Vec3::new(
            box0.max().x().max(box1.max().x()),
            box0.max().y().max(box1.max().y()),
            box0.max().z().max(box1.max().z()),
        );
        AABB { min: small, max: big }
    }

    pub fn min(&self) -> (p: Point3)
        ensures
            p == self.min,
    {
        self.min
    }

    pub fn max(&self) -> (p: Point3)
        ensures
            p == self.max,
    {
        self.max
    }

    /// The box around the given points.
    pub fn around(points: &Vec<Point3>) -> (b: AABB)
        ensures
            b == hull(points@),
    {
        let mut min = Vec3::new(Scalar::max_finite(), Scalar::max_finite(), Scalar::max_finite());
        let mut max = Vec3::new(Scalar::min_finite(), Scalar::min_finite(), Scalar::min_finite());
        let mut i: usize = 0;
        while i < points.len()
            invariant
                i <= points.len(),
                (AABB { min, max }) == hull(points@.take(i as int)),
            decreases points.len() - i,
        {
            proof {
                assert(points@.take(i + 1).drop_last() =~= points@.take(i as int));
            }
            min = min.min(&points[i]);
            max = max.max(&points[i]);
            i += 1;
        }
        assert(points@.take(i as int) =~= points@);
        AABB { min, max }
    }

    /// Whether a ray crosses the box within `[t_min, t_max]`, from its
    /// crossings of the three slabs. The test stops at the first slab that
    /// leaves nothing of the interval.
    pub fn hit(x: &Slab, y: &Slab, z: &Slab, t_min: Scalar, t_max: Scalar) -> (b: bool)
        ensures
            b == AABB::crosses(*x, *y, *z, t_min, t_max),
    {
        match x.narrow(t_min, t_max) {
            None => false,
            Some((lo, hi)) => match y.narrow(lo, hi) {
                None => false,
                Some((lo, hi)) => z.narrow(lo, hi).is_some(),
            },
        }
    }
}

/// The box around a row of boxes, taken from the first to the last.
/// Meaningless for an empty row.
pub open spec fn union_all(boxes: Seq<AABB>) -> AABB
    decreases boxes.len(),
{
    if boxes.len() <= 1 {
        boxes[0]
    } else {
        union_all(boxes.drop_last()).union(boxes.last())
    }
}

/// The box that holds nothing yet: its minimum is the largest finite number
/// on every axis and its maximum the smallest.
pub open spec fn nothing() -> AABB {
    let top = Scalar { bits: MAX_FINITE_BITS };
    AABB {
        min: Vec3 { x: top, y: top, z: top },
        max: Vec3 { x: top.spec_neg(), y: top.spec_neg(), z: top.spec_neg() },
    }
}

/// The box around a row of points: from the box that holds nothing, each
/// point in turn draws the minimum down and the maximum up to itself.
pub open spec fn hull(points: Seq<Point3>) -> AABB
    decreases points.len(),
{
    if points.len() == 0 {
        nothing()
    } else {
        let rest = hull(points.drop_last());
        AABB { min: rest.min.spec_min(points.last()), max: rest.max.spec_max(points.last()) }
    }
}

/// Whether every coordinate of the point is a finite number.
pub open spec fn finite(p: Point3) -> bool {
    &&& p.numeric()
    &&& p.x.magnitude() <= MAX_FINITE_BITS
    &&& p.y.magnitude() <= MAX_FINITE_BITS
    &&& p.z.magnitude() <= MAX_FINITE_BITS
}

/// The box around two boxes encloses both, and holds every point of either.
pub proof fn lemma_union_encloses(a: AABB, b: AABB)
    requires
        a.numeric(),
        b.numeric(),
    ensures
        a.union(b).numeric(),
        a.union(b).encloses(a),
        a.union(b).encloses(b),
        forall|p: Point3| a.contains(p) || b.contains(p) ==> #[trigger] a.union(b).contains(p),
{
}

/// The box around two boxes is the least one: a box that encloses both
/// encloses it.
pub proof fn lemma_union_least(a: AABB, b: AABB, c: AABB)
    requires
        c.encloses(a),
        c.encloses(b),
    ensures
        c.encloses(a.union(b)),
{
}

/// The box around points with finite coordinates holds every one of them.
pub proof fn lemma_hull_contains(points: Seq<Point3>)
    requires
        forall|i: int| 0 <= i < points.len() ==> finite(#[trigger] points[i]),
    ensures
        hull(points).numeric(),
        forall|i: int| 0 <= i < points.len() ==> hull(points).contains(#[trigger] points[i]),
        points.len() > 0 ==> finite(hull(points).min) && finite(hull(points).max),
    decreases points.len(),
{
    if points.len() > 0 {
        let front = points.drop_last();
        assert forall|i: int| 0 <= i < front.len() implies finite(#[trigger] front[i]) by {
            assert(front[i] == points[i]);
        }
        lemma_hull_contains(front);
        assert(finite(points[points.len() - 1]));
        assert forall|i: int| 0 <= i < points.len() implies hull(points).contains(#[trigger] points[i]) by {
            if i < front.len() {
                assert(hull(front).contains(front[i]));
            }
        }
    }
}

/// A slab cut never widens the interval: what is left lies between the old
/// bounds.
pub proof fn lemma_cut_narrows(s: Slab, t_min: Scalar, t_max: Scalar)
    requires
        !t_min.nan(),
        !t_max.nan(),
    ensures
        t_min.spec_le(s.cut(t_min, t_max).0),
        s.cut(t_min, t_max).1.spec_le(t_max),
{
}

/// The box around a row of boxes is their exact union: where no box holds
/// a NaN, it encloses every one of them, and every box that encloses them
/// all encloses it.
pub proof fn lemma_union_all_exact(boxes: Seq<AABB>)
    requires
        boxes.len() > 0,
        forall|i: int| 0 <= i < boxes.len() ==> (#[trigger] boxes[i]).numeric(),
    ensures
        union_all(boxes).numeric(),
        forall|i: int| 0 <= i < boxes.len() ==> union_all(boxes).encloses(#[trigger] boxes[i]),
        forall|c: AABB|
            (forall|i: int| 0 <= i < boxes.len() ==> c.encloses(#[trigger] boxes[i]))
                ==> #[trigger] c.encloses(union_all(boxes)),
    decreases boxes.len(),
{
    if boxes.len() == 1 {
        assert(boxes[0].numeric());
        assert(boxes[0].encloses(boxes[0]));
        assert forall|c: AABB|
            (forall|i: int| 0 <= i < boxes.len() ==> c.encloses(#[trigger] boxes[i]))
                implies #[trigger] c.encloses(union_all(boxes)) by {
            assert(c.encloses(boxes[0]));
        }
    } else {
        let front = boxes.drop_last();
        let last = boxes.last();
        assert forall|i: int| 0 <= i < front.len() implies (#[trigger] front[i]).numeric() by {
            assert(front[i] == boxes[i]);
        }
        lemma_union_all_exact(front);
        let a = union_all(front);
        assert(boxes[boxes.len() - 1].numeric());
        lemma_union_encloses(a, last);
        assert forall|i: int| 0 <= i < boxes.len() implies union_all(boxes).encloses(
            #[trigger] boxes[i],
        ) by {
            if i < front.len() {
                assert(a.encloses(front[i]));
            }
        }
        assert forall|c: AABB|
            (forall|i: int| 0 <= i < boxes.len() ==> c.encloses(#[trigger] boxes[i]))
                implies #[trigger] c.encloses(union_all(boxes)) by {
            assert forall|i: int| 0 <= i < front.len() implies c.encloses(#[trigger] front[i]) by {
                assert(c.encloses(boxes[i]));
            }
            assert(c.encloses(a));
            assert(c.encloses(boxes[boxes.len() - 1]));
            lemma_union_least(a, last, c);
        }
    }
}

impl Slab {
    /// Whether the entry and the exit of the slab are numbers.
    pub open spec fn numeric(self) -> bool {
        !self.t0.nan() && !self.t1.nan()
    }

    /// Whether the parameter lies strictly between the entry and the exit.
    pub open spec fn holds(self, c: Scalar) -> bool {
        self.near().spec_lt(c) && c.spec_lt(self.far())
    }

    /// Whether the slab has nothing in common with `[t_min, t_max]` but
    /// perhaps a single parameter: it ends where it starts or before, it
    /// ends by `t_min`, or it starts at `t_max` or later.
    pub open spec fn clear_of(self, t_min: Scalar, t_max: Scalar) -> bool {
        self.far().spec_le(self.near()) || self.far().spec_le(t_min) || t_max.spec_le(self.near())
    }
}

/// A ray is found to cross the box wherever some parameter strictly inside
/// `[t_min, t_max]` lies strictly inside all three slabs: so it is for a
/// ray whose point at that parameter lies inside the box.
pub proof fn lemma_crosses_through(x: Slab, y: Slab, z: Slab, t_min: Scalar, t_max: Scalar, c: Scalar)
    requires
        t_min.spec_lt(c),
        c.spec_lt(t_max),
        x.holds(c),
        y.holds(c),
        z.holds(c),
    ensures
        AABB::crosses(x, y, z, t_min, t_max),
{
}

/// A ray is found to miss the box wherever one slab is clear of
/// `[t_min, t_max]`: so it is for a ray that passes beside the box on one
/// axis, and for one that runs along an axis beside the box, whose entry
/// and exit on that axis are the same infinity.
pub proof fn lemma_misses_beside(x: Slab, y: Slab, z: Slab, t_min: Scalar, t_max: Scalar)
    requires
        !t_min.nan(),
        !t_max.nan(),
        x.numeric(),
        y.numeric(),
        z.numeric(),
        x.clear_of(t_min, t_max) || y.clear_of(t_min, t_max) || z.clear_of(t_min, t_max),
    ensures
        !AABB::crosses(x, y, z, t_min, t_max),
{
}

} // verus!
