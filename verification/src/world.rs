//! The scene as a list of objects, asked one after the other.

use vstd::prelude::*;
use crate::aabb::{union_all, AABB};
use crate::hit::{HitRecord, Hitable};
use crate::ray::Ray;
use crate::scalar::Scalar;

verus! {

/// The objects of a scene, in the order in which they are asked.
pub type World = Vec<Box<dyn Hitable>>;

/// A list of objects that is itself an object.
pub type HittableList = World;

/// The last hit among the answers, if any of them is one.
pub open spec fn last_hit(answers: Seq<Option<HitRecord>>) -> Option<HitRecord>
    decreases answers.len(),
{
    if answers.len() == 0 {
        None
    } else if answers.last() is Some {
        answers.last()
    } else {
        last_hit(answers.drop_last())
    }
}

/// The far bound for the next object: the parameter of the last hit so far,
/// or `t_max` while there is none.
pub open spec fn limit_after(answers: Seq<Option<HitRecord>>, t_max: Scalar) -> Scalar {
    match last_hit(answers) {
        Some(rec) => rec.t,
        None => t_max,
    }
}

/// Whether `answers` is what the objects may say in one scan: each object
/// is asked in turn, with the far bound drawn in to the last hit before it.
pub open spec fn scan_admits(
    objects: Seq<Box<dyn Hitable>>,
    r: Ray,
    t_min: Scalar,
    t_max: Scalar,
    answers: Seq<Option<HitRecord>>,
) -> bool {
    &&& answers.len() == objects.len()
    &&& forall|i: int|
        0 <= i < objects.len() ==> (#[trigger] objects[i]).may_answer(
            r,
            t_min,
            limit_after(answers.take(i), t_max),
            answers[i],
        )
}

/// Whether `boxes` are boxes that the objects may give, one for each.
pub open spec fn boxes_admitted(
    objects: Seq<Box<dyn Hitable>>,
    time0: Scalar,
    time1: Scalar,
    boxes: Seq<AABB>,
) -> bool {
    &&& boxes.len() == objects.len()
    &&& forall|i: int|
        0 <= i < objects.len() ==> (#[trigger] objects[i]).may_bound(time0, time1, Some(boxes[i]))
}

/// One step of the scan: a hit replaces what was found before and draws the
/// far bound in to its parameter; a miss changes nothing.
pub fn scan_step(best: Option<HitRecord>, closest: Scalar, answer: Option<HitRecord>) -> (next: (Option<HitRecord>, Scalar))
    ensures
        answer is Some ==> next.0 == answer && next.1 == answer->0.t,
        answer is None ==> next.0 == best && next.1 == closest,
{
    match answer {
        Some(rec) => {
            let t = rec.t;
            (Some(rec), t)
        },
        None => (best, closest),
    }
}

impl Hitable for World {
    /// An answer of the list is the last hit of some scan of its members.
    open spec fn may_answer(&self, r: Ray, t_min: Scalar, t_max: Scalar, rec: Option<HitRecord>) -> bool {
        exists|answers: Seq<Option<HitRecord>>|
            scan_admits(self@, r, t_min, t_max, answers) && rec == last_hit(answers)
    }

    /// The box of the list is the box around boxes of all its members. The
    /// list has none when it is empty or when a member has none.
    open spec fn may_bound(&self, time0: Scalar, time1: Scalar, b: Option<AABB>) -> bool {
        match b {
            Some(whole) => exists|boxes: Seq<AABB>| #[trigger]
                boxes_admitted(self@, time0, time1, boxes) && boxes.len() > 0 && whole == union_all(boxes),
            None => self@.len() == 0 || exists|i: int|
                0 <= i < self@.len() && (#[trigger] self@[i]).may_bound(time0, time1, None),
        }
    }

    /// The nearest hit by a scan from the first object to the last. Since
    /// every object is asked for a hit no farther than the last one found,
    /// the last hit found is the one kept.
    fn hit(&self, r: &Ray, t_min: Scalar, t_max: Scalar) -> (rec: Option<HitRecord>) {
        let mut best: Option<HitRecord> = None;
        let mut closest = t_max;
        let ghost mut answers: Seq<Option<HitRecord>> = Seq::empty();
        let mut i: usize = 0;
        while i < self.len()
            invariant
                i <= self.len(),
                answers.len() == i,
                forall|j: int|
                    0 <= j < i ==> (#[trigger] self@[j]).may_answer(
                        *r,
                        t_min,
                        limit_after(answers.take(j), t_max),
                        answers[j],
                    ),
                best == last_hit(answers),
                closest == limit_after(answers, t_max),
            decreases self.len() - i,
        {
            let got = self[i].hit(r, t_min, closest);
            proof {
                let ghost before = answers;
                answers = answers.push(got);
                assert(answers.drop_last() =~= before);
                assert(answers.take(i as int) =~= before);
                assert forall|j: int| 0 <= j < i + 1 implies (#[trigger] self@[j]).may_answer(
                    *r,
                    t_min,
                    limit_after(answers.take(j), t_max),
                    answers[j],
                ) by {
                    if j < i {
                        assert(answers.take(j) =~= before.take(j));
                    }
                }
            }
            let next = scan_step(best, closest, got);
            best = next.0;
            closest = next.1;
            i += 1;
        }
        proof {
            assert(scan_admits(self@, *r, t_min, t_max, answers));
        }
        best
    }

    fn bounding_box(&self, time0: Scalar, time1: Scalar) -> (b: Option<AABB>) {
        if self.len() == 0 {
            return None;
        }
        let mut acc = match self[0].bounding_box(time0, time1) {
            Some(first) => first,
            None => {
                return None;
            },
        };
        let ghost mut boxes: Seq<AABB> = seq![acc];
        let mut i: usize = 1;
        while i < self.len()
            invariant
                1 <= i <= self.len(),
                boxes.len() == i,
                forall|j: int|
                    0 <= j < i ==> (#[trigger] self@[j]).may_bound(time0, time1, Some(boxes[j])),
                acc == union_all(boxes),
            decreases self.len() - i,
        {
            match self[i].bounding_box(time0, time1) {
                Some(next) => {
                    proof {
                        let ghost before = boxes;
                        boxes = boxes.push(next);
                        assert(boxes.drop_last() =~= before);
                    }
                    acc = AABB::surrounding_box(&acc, &next);
                },
                None => {
                    return None;
                },
            }
            i += 1;
        }
        proof {
            assert(boxes_admitted(self@, time0, time1, boxes));
        }
        Some(acc)
    }
}

/// Whether every hit among the answers lies no farther than the bound it
/// was asked for: that of the first within `t_max`, that of each other
/// within the last hit before it.
pub open spec fn within_limits(answers: Seq<Option<HitRecord>>, t_max: Scalar) -> bool {
    forall|i: int|
        0 <= i < answers.len() && (#[trigger] answers[i]) is Some ==> answers[i]->0.t.spec_le(
            limit_after(answers.take(i), t_max),
        )
}

/// The scan keeps the nearest hit: where every object answers within the
/// bound it is asked for, no hit of the scan is nearer than the last one,
/// and the last one lies within `t_max`.
pub proof fn lemma_scan_keeps_nearest(answers: Seq<Option<HitRecord>>, t_max: Scalar)
    requires
        within_limits(answers, t_max),
    ensures
        last_hit(answers) matches Some(kept) ==> {
            &&& kept.t.spec_le(t_max)
            &&& forall|i: int|
                0 <= i < answers.len() && (#[trigger] answers[i]) is Some ==> kept.t.spec_le(answers[i]->0.t)
        },
        last_hit(answers) is None ==> forall|i: int| 0 <= i < answers.len() ==> (#[trigger] answers[i]) is None,
    decreases answers.len(),
{
    if answers.len() > 0 {
        let front = answers.drop_last();
        let n = answers.len() - 1;
        assert forall|i: int| 0 <= i < front.len() && (#[trigger] front[i]) is Some implies front[i]->0.t.spec_le(
            limit_after(front.take(i), t_max),
        ) by {
            assert(front[i] == answers[i]);
            assert(front.take(i) =~= answers.take(i));
        }
        lemma_scan_keeps_nearest(front, t_max);
        assert(answers.take(n) =~= front);
        if answers[n] is Some {
            let kept = answers[n]->0;
            assert(kept.t.spec_le(limit_after(front, t_max)));
            assert forall|i: int| 0 <= i < answers.len() && (#[trigger] answers[i]) is Some implies kept.t.spec_le(
                answers[i]->0.t,
            ) by {
                if i < n {
                    assert(front[i] == answers[i]);
                    assert(last_hit(front) is Some);
                    assert(kept.t.spec_le(last_hit(front)->0.t));
                    assert(last_hit(front)->0.t.spec_le(front[i]->0.t));
                }
            }
        } else {
            assert forall|i: int| 0 <= i < answers.len() && last_hit(answers) is None implies (
            #[trigger] answers[i]) is None by {
                if i < n {
                    assert(front[i] == answers[i]);
                }
            }
            assert forall|i: int|
                0 <= i < answers.len() && (#[trigger] answers[i]) is Some && last_hit(answers) is Some implies last_hit(
                answers,
            )->0.t.spec_le(answers[i]->0.t) by {
                assert(front[i] == answers[i]);
            }
        }
    }
}

/// Whether the ray never meets the object at place `i`: whatever interval
/// the object is asked for, its answer is a miss.
pub open spec fn never_hit(objects: Seq<Box<dyn Hitable>>, i: int, r: Ray) -> bool {
    forall|lo: Scalar, hi: Scalar, rec: Option<HitRecord>| #[trigger]
        objects[i].may_answer(r, lo, hi, rec) ==> rec is None
}

/// Where the ray meets only one object of the list, the scan gives what
/// that object answers when asked for the whole interval.
pub proof fn lemma_scan_single(
    objects: Seq<Box<dyn Hitable>>,
    r: Ray,
    t_min: Scalar,
    t_max: Scalar,
    answers: Seq<Option<HitRecord>>,
    k: int,
)
    requires
        scan_admits(objects, r, t_min, t_max, answers),
        0 <= k < objects.len(),
        forall|i: int| 0 <= i < objects.len() && i != k ==> #[trigger] never_hit(objects, i, r),
    ensures
        last_hit(answers) == answers[k],
        objects[k].may_answer(r, t_min, t_max, answers[k]),
{
    assert forall|i: int| 0 <= i < answers.len() && i != k implies (#[trigger] answers[i]) is None by {
        assert(never_hit(objects, i, r));
        assert(objects[i].may_answer(r, t_min, limit_after(answers.take(i), t_max), answers[i]));
    }
    lemma_last_hit_skips(answers, k);
    assert(objects[k].may_answer(r, t_min, limit_after(answers.take(k), t_max), answers[k]));
    lemma_last_hit_after(answers, k);
}

/// Among misses there is no last hit.
proof fn lemma_last_hit_skips(answers: Seq<Option<HitRecord>>, n: int)
    requires
        0 <= n <= answers.len(),
        forall|i: int| 0 <= i < n ==> (#[trigger] answers[i]) is None,
    ensures
        last_hit(answers.take(n)) is None,
    decreases n,
{
    if n > 0 {
        lemma_last_hit_skips(answers, n - 1);
        assert(answers.take(n).drop_last() =~= answers.take(n - 1));
    }
}

/// Misses after an answer do not change the last hit.
proof fn lemma_last_hit_after(answers: Seq<Option<HitRecord>>, k: int)
    requires
        0 <= k < answers.len(),
        forall|i: int| 0 <= i < answers.len() && i != k ==> (#[trigger] answers[i]) is None,
    ensures
        last_hit(answers) == answers[k],
    decreases answers.len(),
{
    if k == answers.len() - 1 {
        if answers[k] is None {
            lemma_last_hit_skips(answers, k);
            assert(answers.take(k) =~= answers.drop_last());
        }
    } else {
        let front = answers.drop_last();
        assert(answers[answers.len() - 1] is None);
        assert forall|i: int| 0 <= i < front.len() && i != k implies (#[trigger] front[i]) is None by {
            assert(front[i] == answers[i]);
        }
        lemma_last_hit_after(front, k);
    }
}

} // verus!
