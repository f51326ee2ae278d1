//! The bounding volume hierarchy: a binary tree over the objects of a
//! scene in which every node carries the box around what is below it.

use vstd::prelude::*;
use vstd::seq_lib::lemma_multiset_commutative;
use crate::aabb::{lemma_union_encloses, lemma_union_least, AABB};
use crate::hit::{HitRecord, Hitable};
use crate::ray::Ray;
use crate::random::random_index;
use crate::scalar::Scalar;
use crate::vec3::Vec3;
use crate::world::never_hit;

verus! {

/// An object made ready for the hierarchy: the object, the box around it,
/// and for each axis the sum of the box's minimum and maximum, by which the
/// objects are put in order. `H` is the handle by which the object is held.
pub struct BvhItem<H> {
    pub object: H,
    pub bbox: AABB,
    pub center: Vec3,
}

/// What a node holds: two smaller hierarchies, or one object.
pub enum BVHNode<H> {
    Branch { left: Box<BVH<H>>, right: Box<BVH<H>> },
    Leaf(H),
}

/// A node of the hierarchy with the box around everything below it.
pub struct BVH<H> {
    pub tree: BVHNode<H>,
    pub bbox: AABB,
}

impl<H> BvhItem<H> {
    /// The place of the object along an axis.
    pub open spec fn key(self, axis: int) -> int {
        self.center.component(axis).rank()
    }

    /// Whether the object can be put in order along the axes that the
    /// hierarchy splits on: its sums on the x and the y axis are numbers.
    pub open spec fn sortable(self) -> bool {
        !self.center.x.nan() && !self.center.y.nan()
    }

    pub fn new(object: H, bbox: AABB, center: Vec3) -> (item: Self)
        ensures
            item.object == object,
            item.bbox == bbox,
            item.center == center,
    {
        BvhItem { object, bbox, center }
    }

    /// The place of the object along an axis, as a machine integer.
    pub fn sort_key(&self, axis: usize) -> (k: i64)
        requires
            axis < 3,
        ensures
            k == self.key(axis as int),
    {
        self.center.get(axis).key()
    }
}

/// Whether the front half of `order` lies before the back half along the
/// axis: no object of the first `order.len() / 2` has a greater key than
/// one of the others.
pub open spec fn split_on<H>(order: Seq<BvhItem<H>>, axis: int) -> bool {
    forall|i: int, j: int|
        0 <= i < order.len() / 2 && order.len() / 2 <= j < order.len() ==> (#[trigger] order[i]).key(axis)
            <= (#[trigger] order[j]).key(axis)
}

/// `<[T]>::sort_unstable_by_key` on the items, with the key of each along
/// `axis`: afterwards the items are those of before and their keys ascend.
/// Which of two items with one key comes first is not known.
#[verifier::external_body]
fn sort_along<H>(items: &mut Vec<BvhItem<H>>, axis: usize)
    requires
        axis < 3,
    ensures
        final(items)@.to_multiset() == old(items)@.to_multiset(),
        forall|i: int, j: int|
            0 <= i <= j < final(items)@.len() ==> (#[trigger] final(items)@[i]).key(axis as int) <= (
            #[trigger] final(items)@[j]).key(axis as int),
{
    items.sort_unstable_by_key(|item| item.sort_key(axis));
}

impl<H> BVH<H> {
    /// Whether the hierarchy is the one over the objects in `order`: one
    /// object makes a leaf with the object's box; more are split in the
    /// middle, the halves make the two children, the node's box is the box
    /// around the children's, and along the x or the y axis the front half
    /// lies before the back half.
    pub open spec fn built_from(self, order: Seq<BvhItem<H>>) -> bool
        decreases order.len(),
    {
        if order.len() <= 1 {
            &&& order.len() == 1
            &&& self.tree matches BVHNode::Leaf(object)
            &&& object == order[0].object
            &&& self.bbox == order[0].bbox
        } else {
            let mid = (order.len() / 2) as int;
            &&& self.tree matches BVHNode::Branch { left, right }
            &&& left.built_from(order.subrange(0, mid))
            &&& right.built_from(order.subrange(mid, order.len() as int))
            &&& self.bbox == left.bbox.union(right.bbox)
            &&& exists|axis: int| 0 <= axis < 2 && #[trigger] split_on(order, axis)
        }
    }

    /// The objects in the leaves, from left to right.
    pub open spec fn objects(self) -> Seq<H>
        decreases self,
    {
        match self.tree {
            BVHNode::Leaf(object) => seq![object],
            BVHNode::Branch { left, right } => left.objects() + right.objects(),
        }
    }

    /// The hierarchy over the given objects. The objects are put in order
    /// along an axis drawn from x and y, split in the middle, and each half
    /// is built in the same way.
    pub fn new(items: Vec<BvhItem<H>>) -> (bvh: Self)
        requires
            items@.len() > 0,
            items@.len() >= 2 ==> forall|i: int| 0 <= i < items@.len() ==> (#[trigger] items@[i]).sortable(),
        ensures
            exists|order: Seq<BvhItem<H>>| #[trigger]
                bvh.built_from(order) && order.to_multiset() == items@.to_multiset(),
        decreases items@.len(),
    {
        let mut items = items;
        let ghost given = items@;
        if items.len() == 1 {
            let BvhItem { object, bbox, center } = items.remove(0);
            let bvh = BVH { tree: BVHNode::Leaf(object), bbox };
            proof {
                assert(bvh.built_from(given));
            }
            bvh
        } else {
            let axis = random_index(1);
            sort_along(&mut items, axis);
            let ghost sorted = items@;
            proof {
                sorted.to_multiset_ensures();
                given.to_multiset_ensures();
                assert forall|i: int| 0 <= i < sorted.len() implies (#[trigger] sorted[i]).sortable() by {
                    lemma_member(sorted, given, i);
                }
            }
            let mid = items.len() / 2;
            let back = items.split_off(mid);
            let ghost front_items = items@;
            let ghost back_items = back@;
            proof {
                assert(sorted =~= front_items + back_items);
                assert forall|i: int| 0 <= i < front_items.len() implies (#[trigger] front_items[i]).sortable() by {
                    assert(front_items[i] == sorted[i]);
                }
                assert forall|i: int| 0 <= i < back_items.len() implies (#[trigger] back_items[i]).sortable() by {
                    assert(back_items[i] == sorted[mid + i]);
                }
            }
            let left = Self::new(items);
            let right = Self::new(back);
            let bbox = AABB::surrounding_box(&left.bbox, &right.bbox);
            proof {
                let order_l = choose|order: Seq<BvhItem<H>>| #[trigger]
                    left.built_from(order) && order.to_multiset() == front_items.to_multiset();
                let order_r = choose|order: Seq<BvhItem<H>>| #[trigger]
                    right.built_from(order) && order.to_multiset() == back_items.to_multiset();
                let order = order_l + order_r;
                order_l.to_multiset_ensures();
                order_r.to_multiset_ensures();
                front_items.to_multiset_ensures();
                back_items.to_multiset_ensures();
                lemma_multiset_commutative(order_l, order_r);
                lemma_multiset_commutative(front_items, back_items);
                assert(order.to_multiset() == given.to_multiset());
                assert(order_l.len() == mid);
                assert(order.len() == sorted.len());
                assert(order.subrange(0, mid as int) =~= order_l);
                assert(order.subrange(mid as int, order.len() as int) =~= order_r);
                assert(split_on(order, axis as int)) by {
                    assert forall|i: int, j: int|
                        0 <= i < order.len() / 2 && order.len() / 2 <= j < order.len() implies (
                    #[trigger] order[i]).key(axis as int) <= (#[trigger] order[j]).key(axis as int) by {
                        assert(order[i] == order_l[i]);
                        assert(order[j] == order_r[j - mid]);
                        lemma_member(order_l, front_items, i);
                        lemma_member(order_r, back_items, j - mid);
                        let a = choose|a: int| 0 <= a < front_items.len() && front_items[a] == order_l[i];
                        let b = choose|b: int| 0 <= b < back_items.len() && back_items[b] == order_r[j - mid];
                        assert(front_items[a] == sorted[a]);
                        assert(back_items[b] == sorted[mid + b]);
                    }
                }
                let bvh = BVH { tree: BVHNode::Branch { left: Box::new(left), right: Box::new(right) }, bbox };
                assert(bvh.built_from(order));
            }
            BVH { tree: BVHNode::Branch { left: Box::new(left), right: Box::new(right) }, bbox }
        }
    }

    /// The box around everything in the hierarchy.
    pub fn bounding_box(&self) -> (b: AABB)
        ensures
            b == self.bbox,
    {
        self.bbox
    }
}

impl BVH<Box<dyn Hitable>> {
    /// Whether `rec` is an answer that the walk down the hierarchy may give
    /// for the ray `r` within `[t_min, t_max]`, where `crosses` is the test
    /// of the ray against a box. A node whose box the ray does not cross
    /// gives no hit. A leaf gives what its object gives. A branch asks its
    /// left child, then its right child with the far bound drawn in to the
    /// left child's hit, and prefers the left child's hit.
    pub open spec fn walk_admits<B: Fn(&AABB, Scalar, Scalar) -> bool>(
        self,
        crosses: B,
        r: Ray,
        t_min: Scalar,
        t_max: Scalar,
        rec: Option<HitRecord>,
    ) -> bool
        decreases self,
    {
        exists|inside: bool| #[trigger]
            call_ensures(crosses, (&self.bbox, t_min, t_max), inside) && if !inside {
                rec is None
            } else {
                match self.tree {
                    BVHNode::Leaf(object) => object.may_answer(r, t_min, t_max, rec),
                    BVHNode::Branch { left, right } => exists|l: Option<HitRecord>, rr: Option<HitRecord>|
                        left.walk_admits(crosses, r, t_min, t_max, l) && right.walk_admits(
                            crosses,
                            r,
                            t_min,
                            spec_far_limit(l, t_max),
                            rr,
                        ) && rec == #[trigger] spec_prefer(l, rr),
                }
            }
    }

    /// The hit of the ray `r` within `[t_min, t_max]`, found by a walk down
    /// the hierarchy that leaves out what lies in a box that the ray does
    /// not cross. `crosses` tests the ray against a box.
    pub fn hit<B: Fn(&AABB, Scalar, Scalar) -> bool>(
        &self,
        crosses: &B,
        r: &Ray,
        t_min: Scalar,
        t_max: Scalar,
    ) -> (rec: Option<HitRecord>)
        requires
            forall|bbox: &AABB, lo: Scalar, hi: Scalar| call_requires(*crosses, (bbox, lo, hi)),
        ensures
            self.walk_admits(*crosses, *r, t_min, t_max, rec),
        decreases self,
    {
        let inside = crosses(&self.bbox, t_min, t_max);
        if !inside {
            return None;
        }
        match &self.tree {
            BVHNode::Branch { left, right } => {
                let left_hit = left.hit(crosses, r, t_min, t_max);
                let limit = far_limit(&left_hit, t_max);
                let right_hit = right.hit(crosses, r, t_min, limit);
                let ghost l = left_hit;
                let ghost rr = right_hit;
                let rec = prefer(left_hit, right_hit);
                proof {
                    assert(rec == spec_prefer(l, rr));
                    assert(call_ensures(*crosses, (&self.bbox, t_min, t_max), inside));
                }
                rec
            },
            BVHNode::Leaf(leaf) => {
                let rec = leaf.hit(r, t_min, t_max);
                proof {
                    assert(call_ensures(*crosses, (&self.bbox, t_min, t_max), inside));
                }
                rec
            },
        }
    }
}

/// The far bound for the right child: the parameter of the left child's
/// hit, or `t_max` where the left child was missed.
pub open spec fn spec_far_limit(left: Option<HitRecord>, t_max: Scalar) -> Scalar {
    match left {
        Some(rec) => rec.t,
        None => t_max,
    }
}

/// The hit of a branch: that of the left child where it has one, else
/// that of the right child.
pub open spec fn spec_prefer(left: Option<HitRecord>, right: Option<HitRecord>) -> Option<HitRecord> {
    if left is Some {
        left
    } else {
        right
    }
}

/// The far bound for the right child, once the left child has answered.
pub fn far_limit(left: &Option<HitRecord>, t_max: Scalar) -> (limit: Scalar)
    ensures
        limit == spec_far_limit(*left, t_max),
{
    match left {
        Some(rec) => rec.t,
        None => t_max,
    }
}

/// The hit of a branch from the hits of its children. The left child's
/// hit is taken wherever there is one, also where the right child has
/// found a nearer one.
pub fn prefer(left: Option<HitRecord>, right: Option<HitRecord>) -> (rec: Option<HitRecord>)
    ensures
        rec == spec_prefer(left, right),
{
    if left.is_some() {
        left
    } else {
        right
    }
}

/// The leaves of a hierarchy hold, from left to right, the objects that it
/// was built from: each object is in one leaf.
pub proof fn lemma_objects<H>(bvh: BVH<H>, order: Seq<BvhItem<H>>)
    requires
        bvh.built_from(order),
    ensures
        bvh.objects().len() == order.len(),
        forall|i: int| 0 <= i < order.len() ==> bvh.objects()[i] == (#[trigger] order[i]).object,
    decreases order.len(),
{
    if order.len() > 1 {
        let mid = (order.len() / 2) as int;
        let front = order.subrange(0, mid);
        let back = order.subrange(mid, order.len() as int);
        match bvh.tree {
            BVHNode::Branch { left, right } => {
                lemma_objects(*left, front);
                lemma_objects(*right, back);
                assert forall|i: int| 0 <= i < order.len() implies bvh.objects()[i] == (
                #[trigger] order[i]).object by {
                    if i < mid {
                        assert(order[i] == front[i]);
                    } else {
                        assert(order[i] == back[i - mid]);
                    }
                }
            },
            BVHNode::Leaf(_) => {},
        }
    }
}

/// The box of a hierarchy is the exact union of the boxes of its objects:
/// where none of these holds a NaN, it encloses every one of them, and
/// every box that encloses them all encloses it.
pub proof fn lemma_box_is_exact<H>(bvh: BVH<H>, order: Seq<BvhItem<H>>)
    requires
        bvh.built_from(order),
        forall|i: int| 0 <= i < order.len() ==> (#[trigger] order[i]).bbox.numeric(),
    ensures
        bvh.bbox.numeric(),
        forall|i: int| 0 <= i < order.len() ==> bvh.bbox.encloses((#[trigger] order[i]).bbox),
        forall|c: AABB|
            (forall|i: int| 0 <= i < order.len() ==> c.encloses((#[trigger] order[i]).bbox))
                ==> #[trigger] c.encloses(bvh.bbox),
    decreases order.len(),
{
    if order.len() <= 1 {
        assert(order[0].bbox.numeric());
        assert(bvh.bbox.encloses(order[0].bbox));
        assert forall|c: AABB|
            (forall|i: int| 0 <= i < order.len() ==> c.encloses((#[trigger] order[i]).bbox))
                implies #[trigger] c.encloses(bvh.bbox) by {
            assert(c.encloses(order[0].bbox));
        }
    } else {
        let mid = (order.len() / 2) as int;
        let front = order.subrange(0, mid);
        let back = order.subrange(mid, order.len() as int);
        match bvh.tree {
            BVHNode::Branch { left, right } => {
                assert forall|i: int| 0 <= i < front.len() implies (#[trigger] front[i]).bbox.numeric() by {
                    assert(front[i] == order[i]);
                }
                assert forall|i: int| 0 <= i < back.len() implies (#[trigger] back[i]).bbox.numeric() by {
                    assert(back[i] == order[mid + i]);
                }
                lemma_box_is_exact(*left, front);
                lemma_box_is_exact(*right, back);
                lemma_union_encloses(left.bbox, right.bbox);
                assert forall|i: int| 0 <= i < order.len() implies bvh.bbox.encloses(
                    (#[trigger] order[i]).bbox,
                ) by {
                    if i < mid {
                        assert(order[i] == front[i]);
                        assert(left.bbox.encloses(front[i].bbox));
                    } else {
                        assert(order[i] == back[i - mid]);
                        assert(right.bbox.encloses(back[i - mid].bbox));
                    }
                }
                assert forall|c: AABB|
                    (forall|i: int| 0 <= i < order.len() ==> c.encloses((#[trigger] order[i]).bbox))
                        implies #[trigger] c.encloses(bvh.bbox) by {
                    assert forall|i: int| 0 <= i < front.len() implies c.encloses(
                        (#[trigger] front[i]).bbox,
                    ) by {
                        assert(front[i] == order[i]);
                    }
                    assert forall|i: int| 0 <= i < back.len() implies c.encloses(
                        (#[trigger] back[i]).bbox,
                    ) by {
                        assert(back[i] == order[mid + i]);
                    }
                    assert(c.encloses(left.bbox));
                    assert(c.encloses(right.bbox));
                    lemma_union_least(left.bbox, right.bbox, c);
                }
            },
            BVHNode::Leaf(_) => {},
        }
    }
}

/// Whether the box test finds the ray to cross every box that encloses
/// `target`, within `[t_min, t_max]`.
pub open spec fn crosses_around<B: Fn(&AABB, Scalar, Scalar) -> bool>(
    crosses: B,
    target: AABB,
    t_min: Scalar,
    t_max: Scalar,
) -> bool {
    forall|b: AABB, inside: bool|
        b.encloses(target) && #[trigger] call_ensures(crosses, (&b, t_min, t_max), inside) ==> inside
}

/// A walk down a hierarchy of objects that the ray never meets finds
/// nothing.
pub proof fn lemma_walk_none<B: Fn(&AABB, Scalar, Scalar) -> bool>(
    bvh: BVH<Box<dyn Hitable>>,
    crosses: B,
    r: Ray,
    t_min: Scalar,
    t_max: Scalar,
    rec: Option<HitRecord>,
)
    requires
        forall|i: int| 0 <= i < bvh.objects().len() ==> #[trigger] never_hit(bvh.objects(), i, r),
        bvh.walk_admits(crosses, r, t_min, t_max, rec),
    ensures
        rec is None,
    decreases bvh,
{
    let inside = choose|inside: bool| #[trigger]
        call_ensures(crosses, (&bvh.bbox, t_min, t_max), inside) && if !inside {
            rec is None
        } else {
            match bvh.tree {
                BVHNode::Leaf(object) => object.may_answer(r, t_min, t_max, rec),
                BVHNode::Branch { left, right } => exists|l: Option<HitRecord>, rr: Option<HitRecord>|
                    left.walk_admits(crosses, r, t_min, t_max, l) && right.walk_admits(
                        crosses,
                        r,
                        t_min,
                        spec_far_limit(l, t_max),
                        rr,
                    ) && rec == #[trigger] spec_prefer(l, rr),
            }
        };
    if inside {
        match bvh.tree {
            BVHNode::Leaf(object) => {
                assert(never_hit(bvh.objects(), 0, r));
                assert(bvh.objects()[0] == object);
            },
            BVHNode::Branch { left, right } => {
                let (l, rr) = choose|l: Option<HitRecord>, rr: Option<HitRecord>|
                    left.walk_admits(crosses, r, t_min, t_max, l) && right.walk_admits(
                        crosses,
                        r,
                        t_min,
                        spec_far_limit(l, t_max),
                        rr,
                    ) && rec == #[trigger] spec_prefer(l, rr);
                assert forall|i: int| 0 <= i < left.objects().len() implies #[trigger] never_hit(
                    left.objects(),
                    i,
                    r,
                ) by {
                    assert(never_hit(bvh.objects(), i, r));
                    assert(bvh.objects()[i] == left.objects()[i]);
                }
                assert forall|i: int| 0 <= i < right.objects().len() implies #[trigger] never_hit(
                    right.objects(),
                    i,
                    r,
                ) by {
                    assert(never_hit(bvh.objects(), left.objects().len() + i, r));
                    assert(bvh.objects()[left.objects().len() + i] == right.objects()[i]);
                }
                lemma_walk_none(*left, crosses, r, t_min, t_max, l);
                lemma_walk_none(*right, crosses, r, t_min, spec_far_limit(l, t_max), rr);
            },
        }
    }
}

/// Where the ray meets only one object of the hierarchy, and the box test
/// finds the ray to cross every box around that object, the walk gives
/// what that object answers when asked for the whole interval: the same
/// as a scan of the objects one after the other.
pub proof fn lemma_walk_single<B: Fn(&AABB, Scalar, Scalar) -> bool>(
    bvh: BVH<Box<dyn Hitable>>,
    order: Seq<BvhItem<Box<dyn Hitable>>>,
    crosses: B,
    r: Ray,
    t_min: Scalar,
    t_max: Scalar,
    rec: Option<HitRecord>,
    k: int,
)
    requires
        bvh.built_from(order),
        forall|i: int| 0 <= i < order.len() ==> (#[trigger] order[i]).bbox.numeric(),
        0 <= k < order.len(),
        forall|i: int| 0 <= i < order.len() && i != k ==> #[trigger] never_hit(bvh.objects(), i, r),
        crosses_around(crosses, order[k].bbox, t_min, t_max),
        bvh.walk_admits(crosses, r, t_min, t_max, rec),
    ensures
        bvh.objects()[k].may_answer(r, t_min, t_max, rec),
    decreases order.len(),
{
    lemma_box_is_exact(bvh, order);
    let inside = choose|inside: bool| #[trigger]
        call_ensures(crosses, (&bvh.bbox, t_min, t_max), inside) && if !inside {
            rec is None
        } else {
            match bvh.tree {
                BVHNode::Leaf(object) => object.may_answer(r, t_min, t_max, rec),
                BVHNode::Branch { left, right } => exists|l: Option<HitRecord>, rr: Option<HitRecord>|
                    left.walk_admits(crosses, r, t_min, t_max, l) && right.walk_admits(
                        crosses,
                        r,
                        t_min,
                        spec_far_limit(l, t_max),
                        rr,
                    ) && rec == #[trigger] spec_prefer(l, rr),
            }
        };
    assert(bvh.bbox.encloses(order[k].bbox));
    assert(inside);
    if order.len() > 1 {
        let mid = (order.len() / 2) as int;
        let front = order.subrange(0, mid);
        let back = order.subrange(mid, order.len() as int);
        match bvh.tree {
            BVHNode::Branch { left, right } => {
                let (l, rr) = choose|l: Option<HitRecord>, rr: Option<HitRecord>|
                    left.walk_admits(crosses, r, t_min, t_max, l) && right.walk_admits(
                        crosses,
                        r,
                        t_min,
                        spec_far_limit(l, t_max),
                        rr,
                    ) && rec == #[trigger] spec_prefer(l, rr);
                lemma_objects(*left, front);
                lemma_objects(*right, back);
                assert forall|i: int| 0 <= i < front.len() implies (#[trigger] front[i]).bbox.numeric() by {
                    assert(front[i] == order[i]);
                }
                assert forall|i: int| 0 <= i < back.len() implies (#[trigger] back[i]).bbox.numeric() by {
                    assert(back[i] == order[mid + i]);
                }
                lemma_objects(bvh, order);
                assert(left.objects().len() == mid);
                if k < mid {
                    assert forall|i: int| 0 <= i < right.objects().len() implies #[trigger] never_hit(
                        right.objects(),
                        i,
                        r,
                    ) by {
                        assert(never_hit(bvh.objects(), mid + i, r));
                        assert(bvh.objects()[mid + i] == right.objects()[i]);
                    }
                    lemma_walk_none(*right, crosses, r, t_min, spec_far_limit(l, t_max), rr);
                    assert(rec == l);
                    assert forall|i: int| 0 <= i < front.len() && i != k implies #[trigger] never_hit(
                        left.objects(),
                        i,
                        r,
                    ) by {
                        assert(never_hit(bvh.objects(), i, r));
                        assert(bvh.objects()[i] == left.objects()[i]);
                    }
                    assert(front[k] == order[k]);
                    lemma_walk_single(*left, front, crosses, r, t_min, t_max, l, k);
                    assert(bvh.objects()[k] == left.objects()[k]);
                } else {
                    assert forall|i: int| 0 <= i < left.objects().len() implies #[trigger] never_hit(
                        left.objects(),
                        i,
                        r,
                    ) by {
                        assert(never_hit(bvh.objects(), i, r));
                        assert(bvh.objects()[i] == left.objects()[i]);
                    }
                    lemma_walk_none(*left, crosses, r, t_min, t_max, l);
                    assert(rec == rr);
                    assert forall|i: int| 0 <= i < back.len() && i != k - mid implies #[trigger] never_hit(
                        right.objects(),
                        i,
                        r,
                    ) by {
                        assert(never_hit(bvh.objects(), mid + i, r));
                        assert(bvh.objects()[mid + i] == right.objects()[i]);
                    }
                    assert(back[k - mid] == order[k]);
                    lemma_walk_single(*right, back, crosses, r, t_min, t_max, rr, k - mid);
                    assert(bvh.objects()[k] == right.objects()[k - mid]);
                }
            },
            BVHNode::Leaf(_) => {},
        }
    }
}

/// An entry of a row occurs in every row with the same entries.
proof fn lemma_member<H>(a: Seq<BvhItem<H>>, b: Seq<BvhItem<H>>, i: int)
    requires
        0 <= i < a.len(),
        a.to_multiset() == b.to_multiset(),
    ensures
        exists|k: int| 0 <= k < b.len() && b[k] == a[i],
        a.len() == b.len(),
{
    a.to_multiset_ensures();
    b.to_multiset_ensures();
    assert(a.contains(a[i]));
    assert(b.to_multiset().count(a[i]) > 0);
    assert(b.contains(a[i]));
}

} // verus!
