//! A plain list of things a ray can hit, searched from front to back.
use crate::hits::aabb::{
    lemma_contains_is_preorder, lemma_surrounding_box_contains_both, spec_surrounding_box,
    surrounding_box, AABB,
};
use crate::hits::hittable::{later_or, limit_after, HitRecord};
use crate::ray::Ray;
use crate::scalar::Scalar;
use vstd::prelude::*;

verus! {

/// A list of objects. What an object is, and how a ray is tested against it,
/// is the caller's: the list is searched with a test the caller brings.
pub struct HittableList<T> {
    pub list: Vec<T>,
}

/// The hit a search holds after it has been given `answers` in turn: the last
/// of them that is a hit.
pub open spec fn last_hit<M>(answers: Seq<Option<HitRecord<M>>>) -> Option<HitRecord<M>>
    decreases answers.len(),
{
    if answers.len() == 0 {
        None
    } else {
        later_or(answers.last(), last_hit(answers.drop_last()))
    }
}

/// Whether `answers` can be what `probe` gave on the objects of `list` in
/// turn, each object being tested from `interval.0` up to the parameter of
/// the hit held so far, or up to `interval.1` while there is none.
pub open spec fn is_scan<T, M, P: Fn(&T, &Ray, (Scalar, Scalar)) -> Option<HitRecord<M>>>(
    list: Seq<T>,
    probe: P,
    r: Ray,
    interval: (Scalar, Scalar),
    answers: Seq<Option<HitRecord<M>>>,
) -> bool {
    &&& answers.len() == list.len()
    &&& forall|k: int|
        #![trigger answers[k]]
        0 <= k < list.len() ==> call_ensures(
            probe,
            (&list[k], &r, (interval.0, limit_after(last_hit(answers.take(k)), interval.1))),
            answers[k],
        )
}

/// The box around the boxes `boxes`, which must not be empty: the box spanned
/// by the last of them and the box around those before it.
pub open spec fn union_of(boxes: Seq<AABB>) -> AABB
    decreases boxes.len(),
{
    if boxes.len() <= 1 {
        boxes[0]
    } else {
        spec_surrounding_box(boxes.last(), union_of(boxes.drop_last()))
    }
}

/// The box of a list whose objects were asked for theirs in turn, up to the
/// first that had none: no box if the list is empty or an object had none,
/// else the box around all of them.
pub open spec fn box_of_answers(count: nat, answers: Seq<Option<AABB>>) -> Option<AABB> {
    if count == 0 || answers.len() < count || answers.last() is None {
        None
    } else {
        Some(union_of(answers.map_values(|b: Option<AABB>| b->0)))
    }
}

/// Whether `answers` can be what `bound` gave on the objects of `list` in
/// turn, the asking having stopped after the first object without a box.
pub open spec fn is_bounding<T, B: Fn(&T, (Scalar, Scalar)) -> Option<AABB>>(
    list: Seq<T>,
    bound: B,
    time: (Scalar, Scalar),
    answers: Seq<Option<AABB>>,
) -> bool {
    &&& answers.len() <= list.len()
    &&& forall|k: int|
        #![trigger answers[k]]
        0 <= k < answers.len() ==> call_ensures(bound, (&list[k], time), answers[k])
    &&& forall|k: int| 0 <= k < answers.len() - 1 ==> (#[trigger] answers[k]) is Some
    &&& answers.len() < list.len() ==> answers.len() > 0 && answers.last() is None
}

impl<T> HittableList<T> {
    pub fn new() -> (res: Self)
        ensures
            res.list@.len() == 0,
    {
        Self { list: Vec::new() }
    }

    pub fn clear(&mut self)
        ensures
            final(self).list@.len() == 0,
    {
        self.list.clear();
    }

    pub fn add(&mut self, value: T)
        ensures
            final(self).list@ == old(self).list@.push(value),
    {
        self.list.push(value)
    }

    /// The nearest hit of the ray on the objects of the list within
    /// `interval`, as `probe` finds them.
    ///
    /// The objects are tested in order. Each is tested only up to the hit
    /// held so far, so a later hit replaces an earlier one, and the last hit
    /// found is returned.
    pub fn hit<M, P: Fn(&T, &Ray, (Scalar, Scalar)) -> Option<HitRecord<M>>>(
        &self,
        r: &Ray,
        interval: (Scalar, Scalar),
        probe: &P,
    ) -> (res: Option<HitRecord<M>>)
        requires
            forall|k: int, hi: Scalar|
                0 <= k < self.list@.len() ==> call_requires(
                    *probe,
                    (&#[trigger] self.list@[k], r, (interval.0, hi)),
                ),
        ensures
            exists|answers: Seq<Option<HitRecord<M>>>|
                #[trigger] is_scan(self.list@, *probe, *r, interval, answers) && res == last_hit(
                    answers,
                ),
    {
        let mut hit_anything: Option<HitRecord<M>> = None;
        let t_min = interval.0;
        let mut closest_so_far = interval.1;
        let ghost mut answers: Seq<Option<HitRecord<M>>> = Seq::empty();
        let n: usize = self.list.len();
        let mut k: usize = 0;
        while k < n
            invariant
                k <= n,
                n == self.list@.len(),
                t_min == interval.0,
                answers.len() == k,
                hit_anything == last_hit(answers),
                closest_so_far == limit_after(last_hit(answers), interval.1),
                forall|j: int|
                    #![trigger answers[j]]
                    0 <= j < k ==> call_ensures(
                        *probe,
                        (
                            &self.list@[j],
                            r,
                            (interval.0, limit_after(last_hit(answers.take(j)), interval.1)),
                        ),
                        answers[j],
                    ),
                forall|j: int, hi: Scalar|
                    0 <= j < self.list@.len() ==> call_requires(
                        *probe,
                        (&#[trigger] self.list@[j], r, (interval.0, hi)),
                    ),
            decreases n - k,
        {
            let ghost before = answers;
            let answer = probe(&self.list[k], r, (t_min, closest_so_far));
            proof {
                answers = before.push(answer);
                assert(answers.drop_last() =~= before);
                assert(answers.take(k as int) =~= before);
                assert forall|j: int| 0 <= j < k implies answers.take(j) == before.take(j) by {
                    assert(answers.take(j) =~= before.take(j));
                }
            }
            match answer {
                Some(hit) => {
                    closest_so_far = hit.t;
                    hit_anything = Some(hit);
                },
                None => {},
            }
            k = k + 1;
        }
        proof {
            assert(is_scan(self.list@, *probe, *r, interval, answers));
        }
        hit_anything
    }

    /// The box around all objects of the list over `time`, as `bound` gives
    /// the box of each; none if the list is empty or an object has none.
    pub fn bounding_box<B: Fn(&T, (Scalar, Scalar)) -> Option<AABB>>(
        &self,
        time: (Scalar, Scalar),
        bound: &B,
    ) -> (res: Option<AABB>)
        requires
            forall|k: int|
                0 <= k < self.list@.len() ==> call_requires(*bound, (&#[trigger] self.list@[k], time)),
        ensures
            exists|answers: Seq<Option<AABB>>|
                #[trigger] is_bounding(self.list@, *bound, time, answers) && res == box_of_answers(
                    self.list@.len(),
                    answers,
                ),
    {
        let n: usize = self.list.len();
        let ghost mut answers: Seq<Option<AABB>> = Seq::empty();
        if n == 0 {
            proof {
                assert(is_bounding(self.list@, *bound, time, answers));
            }
            return None;
        }
        let mut return_option = AABB::default();
        let mut k: usize = 0;
        while k < n
            invariant
                k <= n,
                n == self.list@.len(),
                n > 0,
                answers.len() == k,
                forall|j: int|
                    #![trigger answers[j]]
                    0 <= j < k ==> call_ensures(*bound, (&self.list@[j], time), answers[j]),
                forall|j: int| 0 <= j < k ==> (#[trigger] answers[j]) is Some,
                k > 0 ==> return_option == union_of(answers.map_values(|b: Option<AABB>| b->0)),
                forall|j: int|
                    0 <= j < self.list@.len() ==> call_requires(
                        *bound,
                        (&#[trigger] self.list@[j], time),
                    ),
            decreases n - k,
        {
            let ghost before = answers;
            let answer = bound(&self.list[k], time);
            proof {
                answers = before.push(answer);
            }
            match answer {
                Some(temp_box) => {
                    if k == 0 {
                        return_option = temp_box;
                    } else {
                        return_option = surrounding_box(temp_box, return_option);
                    }
                    proof {
                        let unwrap = |b: Option<AABB>| b->0;
                        assert(answers.map_values(unwrap).drop_last() =~= before.map_values(unwrap));
                        assert(answers.map_values(unwrap).last() == temp_box);
                    }
                },
                None => {
                    proof {
                        assert(is_bounding(self.list@, *bound, time, answers));
                    }
                    return None;
                },
            }
            k = k + 1;
        }
        proof {
            assert(is_bounding(self.list@, *bound, time, answers));
        }
        Some(return_option)
    }
}

impl<T> Default for HittableList<T> {
    fn default() -> (res: Self)
        ensures
            res.list@.len() == 0,
    {
        Self { list: Vec::new() }
    }
}

/// The box around boxes lies around each of them, where none holds a NaN.
pub proof fn lemma_union_contains_each(boxes: Seq<AABB>, k: int)
    requires
        0 <= k < boxes.len(),
        forall|i: int| 0 <= i < boxes.len() ==> (#[trigger] boxes[i]).is_numeric(),
    ensures
        union_of(boxes).contains(boxes[k]),
        union_of(boxes).is_numeric(),
    decreases boxes.len(),
{
    if boxes.len() <= 1 {
        lemma_contains_is_preorder(boxes[0], boxes[0], boxes[0]);
    } else {
        let front = boxes.drop_last();
        lemma_union_contains_each(front, 0);
        lemma_surrounding_box_contains_both(boxes.last(), union_of(front));
        if k < front.len() {
            lemma_union_contains_each(front, k);
            lemma_contains_is_preorder(union_of(boxes), union_of(front), boxes[k]);
        }
    }
}

} // verus!
