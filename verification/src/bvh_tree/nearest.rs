//! Why a search of the hierarchy finds what a search of the plain list finds.
//!
//! Both searches are stated over tests that the caller brings. The laws here
//! hold for tests that answer as the renderer's geometry is meant to: a
//! primitive reports its nearest crossing of the ray if that lies within the
//! interval asked for, and a ray that misses a box within an interval meets
//! nothing inside the box within it.
use crate::bvh_tree::bvh_node::{lemma_box_bounds_leaves, BVHNode, Child, Leaf};
use crate::hits::aabb::AABB;
use crate::hits::hittable::{later_or, limit_after, record_at, HitRecord, Surface};
use crate::objects::aa_rect::{rect_hit, PlaneCrossing};
use crate::objects::sphere::{first_root_after, lemma_nearest_root_is_first_or_none, sphere_hit_admits, Contact, Roots};
use crate::vec3::Vec3;
use crate::hits::hittable_list::{is_scan, last_hit};
use crate::permutation::lemma_contains_of_concat;
use crate::ray::Ray;
use crate::scalar::Scalar;
use vstd::prelude::*;
use vstd::seq_lib::to_multiset_contains;

verus! {

/// Whether there is a crossing and it lies at or before `t_max`.
pub open spec fn is_within<M>(crossing: Option<HitRecord<M>>, t_max: Scalar) -> bool {
    crossing is Some && crossing->0.t.le(t_max)
}

/// The crossing if it lies at or before `t_max`, else none.
pub open spec fn clipped<M>(crossing: Option<HitRecord<M>>, t_max: Scalar) -> Option<HitRecord<M>> {
    if is_within(crossing, t_max) {
        crossing
    } else {
        None
    }
}

/// Whether `probe`, asked about the primitive `i` from `t_min` up to any end
/// that is a number, answers with `nearest(i)` if that lies at or before the
/// end and with nothing otherwise.
pub open spec fn reports_nearest<M, P: Fn(usize, &Ray, (Scalar, Scalar)) -> Option<HitRecord<M>>>(
    probe: P,
    r: Ray,
    t_min: Scalar,
    nearest: spec_fn(usize) -> Option<HitRecord<M>>,
) -> bool {
    forall|i: usize, t_max: Scalar, res: Option<HitRecord<M>>|
        #![trigger call_ensures(probe, (i, &r, (t_min, t_max)), res)]
        !t_max.spec_is_nan() && call_ensures(probe, (i, &r, (t_min, t_max)), res) ==> res
            == clipped(nearest(i), t_max)
}

/// [`reports_nearest`], for a test that takes the primitive's number by
/// reference, as the test of a list of numbers does.
pub open spec fn list_reports_nearest<
    M,
    P: Fn(&usize, &Ray, (Scalar, Scalar)) -> Option<HitRecord<M>>,
>(probe: P, r: Ray, t_min: Scalar, nearest: spec_fn(usize) -> Option<HitRecord<M>>) -> bool {
    forall|i: usize, t_max: Scalar, res: Option<HitRecord<M>>|
        #![trigger call_ensures(probe, (&i, &r, (t_min, t_max)), res)]
        !t_max.spec_is_nan() && call_ensures(probe, (&i, &r, (t_min, t_max)), res) ==> res
            == clipped(nearest(i), t_max)
}

/// Whether every box of the tree bounds what is below it: when `box_test`
/// says that the ray misses a node's box from `t_min` up to some end, no
/// primitive below that node is crossed before that end.
pub open spec fn boxes_bound<M, B: Fn(&AABB, &Ray, (Scalar, Scalar)) -> bool>(
    node: BVHNode,
    box_test: B,
    r: Ray,
    t_min: Scalar,
    nearest: spec_fn(usize) -> Option<HitRecord<M>>,
) -> bool
    decreases node,
{
    &&& forall|t_max: Scalar, i: usize|
        #![trigger call_ensures(box_test, (&node.hitbox, &r, (t_min, t_max)), false), node.leaves().contains(i)]
        call_ensures(box_test, (&node.hitbox, &r, (t_min, t_max)), false) && node.leaves().contains(
            i,
        ) ==> !is_within(nearest(i), t_max)
    &&& match node.left {
        Some(Child::Node(left)) => boxes_bound(*left, box_test, r, t_min, nearest),
        _ => true,
    }
    &&& match node.right {
        Some(Child::Node(right)) => boxes_bound(*right, box_test, r, t_min, nearest),
        _ => true,
    }
}

/// Whether `res` is the nearest crossing, at or before `t_max`, of the
/// primitives in `handles`: nothing if none of them is crossed by then, else
/// the crossing of one of them that no other precedes.
pub open spec fn is_nearest_among<M>(
    handles: Seq<usize>,
    nearest: spec_fn(usize) -> Option<HitRecord<M>>,
    t_max: Scalar,
    res: Option<HitRecord<M>>,
) -> bool {
    match res {
        None => forall|i: usize| handles.contains(i) ==> !is_within(#[trigger] nearest(i), t_max),
        Some(hit) => {
            &&& hit.t.le(t_max)
            &&& exists|i: usize| handles.contains(i) && #[trigger] nearest(i) == Some(hit)
            &&& forall|j: usize|
                handles.contains(j) && is_within(#[trigger] nearest(j), t_max) ==> hit.t.le(
                    nearest(j)->0.t,
                )
        },
    }
}

/// A search that has found the nearest crossing among some primitives, and
/// then looks among others only up to what it holds, ends with the nearest
/// crossing among all of them.
pub proof fn lemma_search_continues<M>(
    first: Seq<usize>,
    second: Seq<usize>,
    nearest: spec_fn(usize) -> Option<HitRecord<M>>,
    t_max: Scalar,
    left: Option<HitRecord<M>>,
    right: Option<HitRecord<M>>,
)
    requires
        is_nearest_among(first, nearest, t_max, left),
        is_nearest_among(second, nearest, limit_after(left, t_max), right),
    ensures
        is_nearest_among(first + second, nearest, t_max, later_or(right, left)),
{
    lemma_contains_of_concat(first, second);
    let all = first + second;
    let limit = limit_after(left, t_max);
    match right {
        Some(hit) => {
            let i = choose|i: usize| second.contains(i) && #[trigger] nearest(i) == Some(hit);
            assert(all.contains(i));
            assert forall|j: usize| all.contains(j) && is_within(#[trigger] nearest(j), t_max) implies hit.t.le(
                nearest(j)->0.t,
            ) by {
                if second.contains(j) && is_within(nearest(j), limit) {
                } else {
                }
            }
        },
        None => {
            match left {
                Some(hit) => {
                    let i = choose|i: usize| first.contains(i) && #[trigger] nearest(i) == Some(hit);
                    assert(all.contains(i));
                },
                None => {},
            }
        },
    }
}

/// What a test that reports the nearest crossing answers about one primitive
/// is the nearest crossing among that one primitive.
proof fn lemma_single_is_nearest<M>(
    i: usize,
    nearest: spec_fn(usize) -> Option<HitRecord<M>>,
    t_max: Scalar,
)
    ensures
        is_nearest_among(seq![i], nearest, t_max, clipped(nearest(i), t_max)),
{
    assert(seq![i][0] == i);
    if is_within(nearest(i), t_max) {
        assert(seq![i].contains(i));
    }
}

/// A search that looks up to a number goes on looking up to a number: the
/// parameter of the nearest crossing found is never a NaN.
proof fn lemma_limit_is_a_number<M>(
    handles: Seq<usize>,
    nearest: spec_fn(usize) -> Option<HitRecord<M>>,
    t_max: Scalar,
    found: Option<HitRecord<M>>,
)
    requires
        !t_max.spec_is_nan(),
        is_nearest_among(handles, nearest, t_max, found),
    ensures
        !limit_after(found, t_max).spec_is_nan(),
{
}

/// A search of a list, with a test that reports nearest crossings, returns
/// the nearest crossing among the primitives of the list.
pub proof fn lemma_list_finds_nearest<
    M,
    P: Fn(&usize, &Ray, (Scalar, Scalar)) -> Option<HitRecord<M>>,
>(
    list: Seq<usize>,
    probe: P,
    r: Ray,
    interval: (Scalar, Scalar),
    answers: Seq<Option<HitRecord<M>>>,
    nearest: spec_fn(usize) -> Option<HitRecord<M>>,
)
    requires
        !interval.1.spec_is_nan(),
        is_scan(list, probe, r, interval, answers),
        list_reports_nearest(probe, r, interval.0, nearest),
    ensures
        is_nearest_among(list, nearest, interval.1, last_hit(answers)),
    decreases list.len(),
{
    if list.len() == 0 {
    } else {
        let n = list.len() - 1;
        let front = list.drop_last();
        let before = answers.drop_last();
        assert forall|k: int| 0 <= k < front.len() implies call_ensures(
            probe,
            (&front[k], &r, (interval.0, limit_after(last_hit(before.take(k)), interval.1))),
            #[trigger] before[k],
        ) by {
            assert(before.take(k) =~= answers.take(k));
            assert(before[k] == answers[k]);
        }
        assert(is_scan(front, probe, r, interval, before));
        lemma_list_finds_nearest(front, probe, r, interval, before, nearest);
        let limit = limit_after(last_hit(before), interval.1);
        lemma_limit_is_a_number(front, nearest, interval.1, last_hit(before));
        assert(answers[n] == clipped(nearest(list[n]), limit)) by {
            assert(answers.take(n) =~= before);
            assert(call_ensures(probe, (&list[n], &r, (interval.0, limit)), answers[n]));
        }
        lemma_single_is_nearest(list[n], nearest, limit);
        lemma_search_continues(front, seq![list[n]], nearest, interval.1, last_hit(before), answers[n]);
        assert(front + seq![list[n]] =~= list);
    }
}

/// A search of the hierarchy, with a test that reports nearest crossings and
/// boxes that bound what is in them, returns the nearest crossing among the
/// primitives of the tree.
pub proof fn lemma_tree_finds_nearest<
    M,
    B: Fn(&AABB, &Ray, (Scalar, Scalar)) -> bool,
    P: Fn(usize, &Ray, (Scalar, Scalar)) -> Option<HitRecord<M>>,
>(
    node: BVHNode,
    r: Ray,
    interval: (Scalar, Scalar),
    box_test: B,
    probe: P,
    nearest: spec_fn(usize) -> Option<HitRecord<M>>,
    res: Option<HitRecord<M>>,
)
    requires
        !interval.1.spec_is_nan(),
        node.hit_admits(r, interval, box_test, probe, res),
        reports_nearest(probe, r, interval.0, nearest),
        boxes_bound(node, box_test, r, interval.0, nearest),
    ensures
        is_nearest_among(node.leaves(), nearest, interval.1, res),
    decreases node,
{
    let (inside, left, right) = choose|
        inside: bool,
        left: Option<HitRecord<M>>,
        right: Option<HitRecord<M>>,
    |
        {
            &&& #[trigger] node.is_visit(r, interval, box_test, probe, res, inside, left, right)
            &&& inside ==> {
                &&& node.left matches Some(Child::Node(sub)) ==> sub.hit_admits(
                    r,
                    interval,
                    box_test,
                    probe,
                    left,
                )
                &&& node.right matches Some(Child::Node(sub)) ==> sub.hit_admits(
                    r,
                    (interval.0, limit_after(left, interval.1)),
                    box_test,
                    probe,
                    right,
                )
            }
        };
    if !inside {
    } else {
        let limit = limit_after(left, interval.1);
        let left_leaves = match node.left {
            Some(Child::Primitive(i)) => seq![i],
            Some(Child::Node(sub)) => sub.leaves(),
            None => Seq::empty(),
        };
        let right_leaves = match node.right {
            Some(Child::Primitive(i)) => seq![i],
            Some(Child::Node(sub)) => sub.leaves(),
            None => Seq::empty(),
        };
        match node.left {
            None => {},
            Some(Child::Primitive(i)) => {
                lemma_single_is_nearest(i, nearest, interval.1);
            },
            Some(Child::Node(sub)) => {
                lemma_tree_finds_nearest(*sub, r, interval, box_test, probe, nearest, left);
            },
        }
        match node.right {
            None => {},
            Some(Child::Primitive(i)) => {
                lemma_single_is_nearest(i, nearest, limit);
            },
            Some(Child::Node(sub)) => {
                lemma_tree_finds_nearest(
                    *sub,
                    r,
                    (interval.0, limit),
                    box_test,
                    probe,
                    nearest,
                    right,
                );
            },
        }
        lemma_search_continues(left_leaves, right_leaves, nearest, interval.1, left, right);
    }
}

/// Two nearest crossings among the same primitives agree: either both
/// searches found nothing, or both found a crossing at the same parameter.
/// Where no two primitives are crossed at the same parameter, both found the
/// same crossing.
pub proof fn lemma_nearest_is_unique<M>(
    one: Seq<usize>,
    other: Seq<usize>,
    nearest: spec_fn(usize) -> Option<HitRecord<M>>,
    t_max: Scalar,
    res_one: Option<HitRecord<M>>,
    res_other: Option<HitRecord<M>>,
)
    requires
        one.to_multiset() == other.to_multiset(),
        is_nearest_among(one, nearest, t_max, res_one),
        is_nearest_among(other, nearest, t_max, res_other),
    ensures
        res_one is None <==> res_other is None,
        res_one is Some ==> res_one->0.t.le(res_other->0.t) && res_other->0.t.le(res_one->0.t),
        (forall|i: usize, j: usize|
            one.contains(i) && one.contains(j) && i != j && is_within(#[trigger] nearest(i), t_max)
                && is_within(#[trigger] nearest(j), t_max) ==> !nearest(i)->0.t.le(nearest(j)->0.t)
                || !nearest(j)->0.t.le(nearest(i)->0.t)) ==> res_one == res_other,
{
    broadcast use to_multiset_contains;

    assert forall|x: usize| one.contains(x) == other.contains(x) by {
        assert(one.contains(x) <==> one.to_multiset().count(x) > 0);
        assert(other.contains(x) <==> other.to_multiset().count(x) > 0);
    }
    if res_one is Some {
        let i = choose|i: usize| one.contains(i) && #[trigger] nearest(i) == res_one;
        assert(other.contains(i));
        assert(is_within(nearest(i), t_max));
    }
    if res_other is Some {
        let j = choose|j: usize| other.contains(j) && #[trigger] nearest(j) == res_other;
        assert(one.contains(j));
        assert(is_within(nearest(j), t_max));
    }
}

/// A sphere answers as the laws here ask of a primitive: whatever the end of
/// the interval, if it is a number, the sphere reports the record at its
/// first root past the start, if that root lies at or before the end, and
/// nothing otherwise. This holds where the far root is not before the near
/// one, and the contact at a parameter is one and the same whenever it is
/// asked for.
pub proof fn lemma_sphere_reports_nearest<M, S: Fn(Scalar) -> Contact>(
    roots: Roots,
    interval: (Scalar, Scalar),
    contact: S,
    material: M,
    at: spec_fn(Scalar) -> Contact,
    res: Option<HitRecord<M>>,
)
    requires
        !roots.far.spec_lt(roots.near),
        !interval.1.spec_is_nan(),
        forall|t: Scalar, c: Contact| #[trigger] call_ensures(contact, (t,), c) ==> c == at(t),
        sphere_hit_admits(roots, interval, contact, material, res),
    ensures
        res == clipped(
            match first_root_after(roots, interval.0) {
                Some(t) => Some(record_at(t, at(t).surface, at(t).outward_normal, material)),
                None => None,
            },
            interval.1,
        ),
{
    lemma_nearest_root_is_first_or_none(roots, interval);
}

/// A rectangle answers as the laws here ask of a primitive: whatever the end
/// of the interval, if it is a number, the rectangle reports the hit that it
/// reports to a ray that is not cut short, if that lies at or before the
/// end, and nothing otherwise.
pub proof fn lemma_rect_reports_nearest<M>(
    crossing: PlaneCrossing,
    surface: Surface,
    a_boundaries: (Scalar, Scalar),
    b_boundaries: (Scalar, Scalar),
    interval: (Scalar, Scalar),
    normal: Vec3,
    material: M,
)
    requires
        !interval.1.spec_is_nan(),
    ensures
        rect_hit(crossing, surface, a_boundaries, b_boundaries, interval, normal, material)
            == clipped(
            rect_hit(
                crossing,
                surface,
                a_boundaries,
                b_boundaries,
                (interval.0, Scalar::infinity()),
                normal,
                material,
            ),
            interval.1,
        ),
{
}

/// In a built tree every box bounds what is below it, if only the box of
/// each primitive bounds the primitive and the box test is monotone.
///
/// That is: let the box test answer `passes(b, t_max)` for a box `b`; let a
/// primitive that is crossed by `t_max` have a box that the ray passes by
/// then; and let a ray that passes a box pass every box around it. Then a
/// ray that misses the box of a node misses every primitive below the node.
pub proof fn lemma_built_tree_bounds<M, B: Fn(&AABB, &Ray, (Scalar, Scalar)) -> bool>(
    node: BVHNode,
    table: Seq<Leaf>,
    box_test: B,
    r: Ray,
    t_min: Scalar,
    nearest: spec_fn(usize) -> Option<HitRecord<M>>,
    passes: spec_fn(AABB, Scalar) -> bool,
)
    requires
        node.is_built(table),
        forall|k: int| 0 <= k < table.len() ==> (#[trigger] table[k]).hitbox.is_numeric(),
        forall|b: AABB, t_max: Scalar, answer: bool|
            #![trigger call_ensures(box_test, (&b, &r, (t_min, t_max)), answer)]
            call_ensures(box_test, (&b, &r, (t_min, t_max)), answer) ==> answer == passes(b, t_max),
        forall|outer: AABB, inner: AABB, t_max: Scalar|
            #![trigger outer.contains(inner), passes(outer, t_max)]
            outer.contains(inner) && passes(inner, t_max) ==> passes(outer, t_max),
        forall|i: usize, t_max: Scalar|
            #![trigger is_within(nearest(i), t_max)]
            i < table.len() && is_within(nearest(i), t_max) ==> passes(table[i as int].hitbox, t_max),
    ensures
        boxes_bound(node, box_test, r, t_min, nearest),
    decreases node,
{
    assert forall|t_max: Scalar, i: usize|
        #![trigger call_ensures(box_test, (&node.hitbox, &r, (t_min, t_max)), false), node.leaves().contains(i)]
        call_ensures(box_test, (&node.hitbox, &r, (t_min, t_max)), false) && node.leaves().contains(
            i,
        ) implies !is_within(nearest(i), t_max) by {
        lemma_box_bounds_leaves(node, table, i);
        assert(node.hitbox.contains(table[i as int].hitbox));
        if is_within(nearest(i), t_max) {
            assert(passes(table[i as int].hitbox, t_max));
            assert(passes(node.hitbox, t_max));
        }
    }
    match node.left {
        Some(Child::Node(left)) => {
            lemma_built_tree_bounds(*left, table, box_test, r, t_min, nearest, passes);
        },
        _ => {},
    }
    match node.right {
        Some(Child::Node(right)) => {
            lemma_built_tree_bounds(*right, table, box_test, r, t_min, nearest, passes);
        },
        _ => {},
    }
}

/// The hierarchy and the plain list agree. For one ray and one interval
/// whose end is a number, a
/// search of a tree and a search of a list over the same primitives, made
/// with tests that report each primitive's nearest crossing and with boxes
/// that bound their contents, both find nothing or both find a crossing at
/// the same parameter; and they find the same crossing where no two
/// primitives are crossed at the same parameter.
pub proof fn lemma_tree_agrees_with_list<
    M,
    B: Fn(&AABB, &Ray, (Scalar, Scalar)) -> bool,
    P: Fn(usize, &Ray, (Scalar, Scalar)) -> Option<HitRecord<M>>,
    Q: Fn(&usize, &Ray, (Scalar, Scalar)) -> Option<HitRecord<M>>,
>(
    node: BVHNode,
    list: Seq<usize>,
    r: Ray,
    interval: (Scalar, Scalar),
    box_test: B,
    probe: P,
    list_probe: Q,
    nearest: spec_fn(usize) -> Option<HitRecord<M>>,
    from_tree: Option<HitRecord<M>>,
    answers: Seq<Option<HitRecord<M>>>,
)
    requires
        !interval.1.spec_is_nan(),
        list.to_multiset() == node.leaves().to_multiset(),
        reports_nearest(probe, r, interval.0, nearest),
        list_reports_nearest(list_probe, r, interval.0, nearest),
        boxes_bound(node, box_test, r, interval.0, nearest),
        node.hit_admits(r, interval, box_test, probe, from_tree),
        is_scan(list, list_probe, r, interval, answers),
    ensures
        from_tree is None <==> last_hit(answers) is None,
        from_tree is Some ==> from_tree->0.t.le(last_hit(answers)->0.t) && last_hit(answers)->0.t.le(
            from_tree->0.t,
        ),
        (forall|i: usize, j: usize|
            list.contains(i) && list.contains(j) && i != j && is_within(
                #[trigger] nearest(i),
                interval.1,
            ) && is_within(#[trigger] nearest(j), interval.1) ==> !nearest(i)->0.t.le(
                nearest(j)->0.t,
            ) || !nearest(j)->0.t.le(nearest(i)->0.t)) ==> from_tree == last_hit(answers),
{
    lemma_tree_finds_nearest(node, r, interval, box_test, probe, nearest, from_tree);
    lemma_list_finds_nearest(list, list_probe, r, interval, answers, nearest);
    lemma_nearest_is_unique(
        list,
        node.leaves(),
        nearest,
        interval.1,
        last_hit(answers),
        from_tree,
    );
}

} // verus!
