//! The bounding-volume hierarchy: a binary tree of nested boxes over the
//! primitives of a scene.
//!
//! The tree does not own the primitives. It names each by its position in the
//! list it was built from, and whoever holds the primitives looks them up by
//! that number.
use crate::hits::aabb::{
    lemma_contains_is_preorder, lemma_surrounding_box_contains_both, spec_surrounding_box,
    surrounding_box, AABB,
};
use crate::hits::hittable::{later_or, limit_after, HitRecord};
use crate::permutation::{lemma_contains_of_concat, lemma_swap_keeps_elements};
use crate::ray::Ray;
use crate::random::{random_below, shuffle};
use crate::scalar::Scalar;
use crate::vec3::Vec3;
use vstd::prelude::*;
use vstd::seq_lib::{to_multiset_contains, to_multiset_len};

verus! {

/// What the tree needs to know of one primitive.
#[derive(Clone, Copy, Debug, PartialEq, Eq, Structural)]
pub struct Leaf {
    /// The primitive's box at the opening of the shutter; primitives are
    /// ordered by its least corner.
    pub still_box: AABB,
    /// The primitive's box over the whole shutter interval; the boxes of the
    /// tree are unions of these.
    pub hitbox: AABB,
}

/// One side of a node: a primitive, by its number, or a subtree.
#[derive(Debug)]
pub enum Child {
    Primitive(usize),
    Node(Box<BVHNode>),
}

/// A node of the hierarchy, with the box that bounds all of its primitives.
#[derive(Debug)]
pub struct BVHNode {
    pub left: Option<Child>,
    pub right: Option<Child>,
    pub hitbox: AABB,
}

/// The number by which the primitive `handle` is ordered on an axis: the
/// coordinate of the least corner of its still box.
pub open spec fn sort_key(table: Seq<Leaf>, handle: usize, axis: usize) -> Scalar {
    table[handle as int].still_box.minimum.spec_index(axis)
}

/// Whether a list of primitives is in ascending total order of their keys on
/// an axis.
pub open spec fn is_sorted_on(list: Seq<usize>, table: Seq<Leaf>, axis: usize) -> bool {
    forall|i: int, j: int|
        0 <= i < j < list.len() ==> !sort_key(table, #[trigger] list[j], axis).spec_total_lt(
            sort_key(table, #[trigger] list[i], axis),
        )
}

/// Whether no primitive of `low` has a key on the axis that comes after the
/// key of a primitive of `high`.
pub open spec fn is_split_on(low: Seq<usize>, high: Seq<usize>, table: Seq<Leaf>, axis: usize) -> bool {
    forall|a: usize, b: usize|
        #![trigger low.contains(a), high.contains(b)]
        low.contains(a) && high.contains(b) ==> !sort_key(table, b, axis).spec_total_lt(
            sort_key(table, a, axis),
        )
}

/// Whether every number in the list names a primitive of the table.
pub open spec fn all_in_table(list: Seq<usize>, len: nat) -> bool {
    forall|i: int| 0 <= i < list.len() ==> (#[trigger] list[i]) < len
}

impl BVHNode {
    /// The primitives below this node, in the order in which a traversal
    /// reaches them: those of the left side, then those of the right.
    pub open spec fn leaves(self) -> Seq<usize>
        decreases self,
    {
        let left = match self.left {
            Some(Child::Primitive(i)) => seq![i],
            Some(Child::Node(node)) => node.leaves(),
            None => Seq::empty(),
        };
        let right = match self.right {
            Some(Child::Primitive(i)) => seq![i],
            Some(Child::Node(node)) => node.leaves(),
            None => Seq::empty(),
        };
        left + right
    }

    /// Whether this node is one that [`BVHNode::new`] builds over the
    /// primitives of `table`:
    /// - over one primitive, the node holds it on the left and has its box;
    /// - over two, it holds one on each side and has the union of their boxes;
    /// - over more, both sides are subtrees built in the same way, the left
    ///   over half of the primitives (rounded down) and the right over the
    ///   rest, the box is the union of the two subtrees' boxes, and on one of
    ///   the three axes no primitive on the left has a key that comes before
    ///   the key of a primitive on the right.
    pub open spec fn is_built(self, table: Seq<Leaf>) -> bool
        decreases self,
    {
        match (self.left, self.right) {
            (Some(Child::Primitive(i)), None) => {
                &&& i < table.len()
                &&& self.hitbox == table[i as int].hitbox
            },
            (Some(Child::Primitive(i)), Some(Child::Primitive(j))) => {
                &&& i < table.len()
                &&& j < table.len()
                &&& self.hitbox == spec_surrounding_box(
                    table[i as int].hitbox,
                    table[j as int].hitbox,
                )
            },
            (Some(Child::Node(left)), Some(Child::Node(right))) => {
                let count = left.leaves().len() + right.leaves().len();
                &&& left.is_built(table)
                &&& right.is_built(table)
                &&& count >= 3
                &&& left.leaves().len() == count / 2
                &&& self.hitbox == spec_surrounding_box(left.hitbox, right.hitbox)
                &&& exists|axis: usize|
                    axis < 3 && #[trigger] is_split_on(
                        right.leaves(),
                        left.leaves(),
                        table,
                        axis,
                    )
            },
            _ => false,
        }
    }

    /// Whether a search of this node can have gone this way and ended in
    /// `res`: the box test answered `inside`, and the two sides answered
    /// `left` and `right`.
    ///
    /// A node whose box the ray misses within `interval` answers with no hit.
    /// Otherwise the left side is searched within `interval`, then the right
    /// side from `interval.0` up to the hit found on the left, or up to
    /// `interval.1` if there was none; the answer is the hit on the right, if
    /// there is one, else that on the left. A side that is a primitive is
    /// searched by `probe`, and a side that is missing holds no hit. What a
    /// side that is a subtree may answer is said in [`BVHNode::hit_admits`].
    pub open spec fn is_visit<
        M,
        B: Fn(&AABB, &Ray, (Scalar, Scalar)) -> bool,
        P: Fn(usize, &Ray, (Scalar, Scalar)) -> Option<HitRecord<M>>,
    >(
        self,
        r: Ray,
        interval: (Scalar, Scalar),
        box_test: B,
        probe: P,
        res: Option<HitRecord<M>>,
        inside: bool,
        left: Option<HitRecord<M>>,
        right: Option<HitRecord<M>>,
    ) -> bool {
        &&& call_ensures(box_test, (&self.hitbox, &r, interval), inside)
        &&& !inside ==> res is None
        &&& inside ==> {
            &&& match self.left {
                None => left is None,
                Some(Child::Primitive(i)) => call_ensures(probe, (i, &r, interval), left),
                Some(Child::Node(_)) => true,
            }
            &&& match self.right {
                None => right is None,
                Some(Child::Primitive(i)) => call_ensures(
                    probe,
                    (i, &r, (interval.0, limit_after(left, interval.1))),
                    right,
                ),
                Some(Child::Node(_)) => true,
            }
            &&& res == later_or(right, left)
        }
    }

    /// Whether `res` can be what a search of this node returns, given what
    /// the two tests may answer: whether some visit of the node ends in it,
    /// in which each side that is a subtree answered what a search of that
    /// subtree can return.
    pub open spec fn hit_admits<
        M,
        B: Fn(&AABB, &Ray, (Scalar, Scalar)) -> bool,
        P: Fn(usize, &Ray, (Scalar, Scalar)) -> Option<HitRecord<M>>,
    >(
        self,
        r: Ray,
        interval: (Scalar, Scalar),
        box_test: B,
        probe: P,
        res: Option<HitRecord<M>>,
    ) -> bool
        decreases self,
    {
        exists|inside: bool, left: Option<HitRecord<M>>, right: Option<HitRecord<M>>|
            {
                &&& #[trigger] self.is_visit(r, interval, box_test, probe, res, inside, left, right)
                &&& inside ==> {
                    &&& self.left matches Some(Child::Node(node)) ==> node.hit_admits(
                        r,
                        interval,
                        box_test,
                        probe,
                        left,
                    )
                    &&& self.right matches Some(Child::Node(node)) ==> node.hit_admits(
                        r,
                        (interval.0, limit_after(left, interval.1)),
                        box_test,
                        probe,
                        right,
                    )
                }
            }
    }

    /// The nearest hit of the ray on the primitives below this node within
    /// `interval`.
    ///
    /// `box_test` says whether the ray passes through a box within an
    /// interval, and `probe` finds the hit of the ray on the primitive with a
    /// given number.
    pub fn hit<
        M,
        B: Fn(&AABB, &Ray, (Scalar, Scalar)) -> bool,
        P: Fn(usize, &Ray, (Scalar, Scalar)) -> Option<HitRecord<M>>,
    >(&self, r: &Ray, interval: (Scalar, Scalar), box_test: &B, probe: &P) -> (res: Option<
        HitRecord<M>,
    >)
        requires
            forall|b: &AABB, iv: (Scalar, Scalar)| call_requires(*box_test, (b, r, iv)),
            forall|i: usize, iv: (Scalar, Scalar)| call_requires(*probe, (i, r, iv)),
        ensures
            self.hit_admits(*r, interval, *box_test, *probe, res),
        decreases self,
    {
        let inside = box_test(&self.hitbox, r, interval);
        if !inside {
            proof {
                let none: Option<HitRecord<M>> = None;
                assert(self.is_visit(*r, interval, *box_test, *probe, none, inside, none, none));
            }
            return None;
        }
        let left = match &self.left {
            None => None,
            Some(Child::Primitive(i)) => probe(*i, r, interval),
            Some(Child::Node(node)) => node.hit(r, interval, box_test, probe),
        };
        let t_max = match &left {
            Some(record) => record.t,
            None => interval.1,
        };
        let right = match &self.right {
            None => None,
            Some(Child::Primitive(i)) => probe(*i, r, (interval.0, t_max)),
            Some(Child::Node(node)) => node.hit(r, (interval.0, t_max), box_test, probe),
        };
        let res = if right.is_some() { right } else { left };
        proof {
            assert(self.is_visit(*r, interval, *box_test, *probe, res, inside, left, right));
        }
        res
    }

    /// The box around everything below this node, whatever the time.
    pub fn bounding_box(&self) -> (res: Option<AABB>)
        ensures
            res == Some(self.hitbox),
    {
        Some(self.hitbox)
    }

    /// Builds the hierarchy over the primitives of `src_list`, which the tree
    /// names by their positions in that list.
    ///
    /// Two primitives are put on the two sides in random order. More are
    /// ordered on an axis chosen at random and split in the middle, the
    /// greater half going to the left.
    pub fn new(src_list: &Vec<Leaf>) -> (res: BVHNode)
        requires
            src_list@.len() > 0,
        ensures
            res.is_built(src_list@),
            res.leaves().to_multiset() == Seq::new(src_list@.len(), |i: int| i as usize).to_multiset(),
    {
        let mut list: Vec<usize> = Vec::new();
        let n: usize = src_list.len();
        let mut i: usize = 0;
        while i < n
            invariant
                i <= n,
                n == src_list@.len(),
                list@ == Seq::new(i as nat, |k: int| k as usize),
            decreases n - i,
        {
            list.push(i);
            proof {
                assert(list@ =~= Seq::new((i + 1) as nat, |k: int| k as usize));
            }
            i = i + 1;
        }
        build(list, src_list)
    }
}

impl Default for BVHNode {
    /// A node over nothing, with the box at the origin.
    fn default() -> (res: Self)
        ensures
            res.left is None,
            res.right is None,
            res.hitbox == (AABB { minimum: Vec3::spec_zero(), maximum: Vec3::spec_zero() }),
    {
        BVHNode { left: None, right: None, hitbox: AABB::default() }
    }
}

/// A list that holds the same elements as another names only primitives of
/// the table if the other does.
proof fn lemma_permutation_stays_in_table(before: Seq<usize>, after: Seq<usize>, len: nat)
    requires
        all_in_table(before, len),
        after.to_multiset() == before.to_multiset(),
    ensures
        all_in_table(after, len),
        after.len() == before.len(),
{
    broadcast use to_multiset_contains;

    to_multiset_len(before);
    to_multiset_len(after);
    assert forall|i: int| 0 <= i < after.len() implies (#[trigger] after[i]) < len by {
        assert(after.contains(after[i]));
        assert(after.to_multiset().count(after[i]) > 0);
        assert(before.contains(after[i]));
    }
}

/// Two lists that hold the same elements contain the same elements.
proof fn lemma_permutation_contains(before: Seq<usize>, after: Seq<usize>, x: usize)
    requires
        after.to_multiset() == before.to_multiset(),
    ensures
        after.contains(x) == before.contains(x),
{
    broadcast use to_multiset_contains;

    assert(after.contains(x) <==> after.to_multiset().count(x) > 0);
    assert(before.contains(x) <==> before.to_multiset().count(x) > 0);
}

/// Orders the list by the keys of its primitives on an axis, keeping
/// primitives with the same key in the order in which they came.
fn sort_on_axis(list: &mut Vec<usize>, table: &Vec<Leaf>, axis: usize)
    requires
        all_in_table(old(list)@, table@.len()),
    ensures
        final(list)@.to_multiset() == old(list)@.to_multiset(),
        final(list)@.len() == old(list)@.len(),
        all_in_table(final(list)@, table@.len()),
        is_sorted_on(final(list)@, table@, axis),
{
    let n: usize = list.len();
    let mut i: usize = 1;
    while i < n
        invariant
            n == list@.len(),
            1 <= i,
            list@.to_multiset() == old(list)@.to_multiset(),
            all_in_table(list@, table@.len()),
            is_sorted_on(list@.take(if i <= n { i as int } else { n as int }), table@, axis),
        decreases n - i,
    {
        let mut j: usize = i;
        proof {
            let prefix = list@.take(i as int);
            assert forall|a: int, b: int| 0 <= a < b < i implies !sort_key(
                table@,
                #[trigger] list@[b],
                axis,
            ).spec_total_lt(sort_key(table@, #[trigger] list@[a], axis)) by {
                assert(prefix[a] == list@[a]);
                assert(prefix[b] == list@[b]);
            }
        }
        while j > 0 && key_of(table, list[j], axis).total_lt(key_of(table, list[j - 1], axis))
            invariant
                n == list@.len(),
                j <= i < n,
                list@.to_multiset() == old(list)@.to_multiset(),
                all_in_table(list@, table@.len()),
                forall|a: int, b: int|
                    0 <= a < b <= i && a != j && b != j ==> !sort_key(
                        table@,
                        #[trigger] list@[b],
                        axis,
                    ).spec_total_lt(sort_key(table@, #[trigger] list@[a], axis)),
                forall|b: int|
                    j < b <= i ==> !sort_key(table@, #[trigger] list@[b], axis).spec_total_lt(
                        sort_key(table@, list@[j as int], axis),
                    ),
            decreases j,
        {
            let ghost before = list@;
            let moved: usize = list[j];
            let other: usize = list[j - 1];
            list.set(j, other);
            list.set(j - 1, moved);
            proof {
                lemma_swap_keeps_elements(before, j as int, j - 1);
                assert(list@ =~= before.update(j as int, before[j - 1]).update(j - 1, before[j as int]));
            }
            j = j - 1;
        }
        proof {
            assert forall|a: int, b: int| 0 <= a < b < list@.take(i + 1).len() implies !sort_key(
                table@,
                #[trigger] list@.take(i + 1)[b],
                axis,
            ).spec_total_lt(sort_key(table@, #[trigger] list@.take(i + 1)[a], axis)) by {
                if a == j {
                } else if b == j {
                }
            }
        }
        i = i + 1;
    }
    proof {
        assert(list@.take(n as int) =~= list@);
        to_multiset_len(list@);
        to_multiset_len(old(list)@);
    }
}

/// The key of a primitive on an axis.
fn key_of(table: &Vec<Leaf>, handle: usize, axis: usize) -> (res: Scalar)
    requires
        handle < table@.len(),
    ensures
        res == sort_key(table@, handle, axis),
{
    table[handle].still_box.min().index(axis)
}

/// Builds the subtree over the primitives named in `list`.
fn build(list: Vec<usize>, table: &Vec<Leaf>) -> (res: BVHNode)
    requires
        list@.len() > 0,
        all_in_table(list@, table@.len()),
    ensures
        res.is_built(table@),
        res.leaves().to_multiset() == list@.to_multiset(),
        res.leaves().len() == list@.len(),
    decreases list@.len(),
{
    let mut list = list;
    let ghost given = list@;
    if list.len() == 1 {
        let only: usize = list[0];
        proof {
            assert(seq![only] =~= given);
        }
        BVHNode { left: Some(Child::Primitive(only)), right: None, hitbox: table[only].hitbox }
    } else if list.len() == 2 {
        shuffle(&mut list);
        proof {
            lemma_permutation_stays_in_table(given, list@, table@.len());
        }
        let left: usize = list[1];
        let right: usize = list[0];
        proof {
            vstd::seq_lib::lemma_seq_union_to_multiset_commutative(seq![left], seq![right]);
            assert(seq![right] + seq![left] =~= list@);
        }
        BVHNode {
            left: Some(Child::Primitive(left)),
            right: Some(Child::Primitive(right)),
            hitbox: surrounding_box(table[left].hitbox, table[right].hitbox),
        }
    } else {
        let axis: usize = random_below(3);
        sort_on_axis(&mut list, table, axis);
        let ghost sorted = list@;
        let n: usize = list.len();
        let middle: usize = n / 2;
        let mut left_list: Vec<usize> = Vec::new();
        let mut right_list: Vec<usize> = Vec::new();
        let mut taken: usize = 0;
        while taken < middle
            invariant
                taken <= middle,
                middle == n / 2,
                n == sorted.len(),
                list@ == sorted.take(n - taken),
                left_list@.len() == taken,
                forall|k: int| 0 <= k < taken ==> #[trigger] left_list@[k] == sorted[n - 1 - k],
            decreases middle - taken,
        {
            let last = list.pop().unwrap();
            left_list.push(last);
            proof {
                assert(list@ =~= sorted.take(n - taken - 1));
            }
            taken = taken + 1;
        }
        let rest: usize = n - middle;
        let mut moved: usize = 0;
        while moved < rest
            invariant
                moved <= rest,
                rest == n - n / 2,
                n == sorted.len(),
                list@ == sorted.take(rest - moved),
                right_list@.len() == moved,
                forall|k: int| 0 <= k < moved ==> #[trigger] right_list@[k] == sorted[rest - 1 - k],
            decreases rest - moved,
        {
            let last = list.pop().unwrap();
            right_list.push(last);
            proof {
                assert(list@ =~= sorted.take(rest - moved - 1));
            }
            moved = moved + 1;
        }
        proof {
            lemma_halves_hold_everything(sorted, left_list@, right_list@);
            assert(all_in_table(left_list@, table@.len()));
            assert(all_in_table(right_list@, table@.len()));
        }
        let ghost left_given = left_list@;
        let ghost right_given = right_list@;
        let left = build(left_list, table);
        let right = build(right_list, table);
        let hitbox = surrounding_box(left.hitbox, right.hitbox);
        proof {
            assert forall|a: usize, b: usize|
                #![trigger right.leaves().contains(a), left.leaves().contains(b)]
                right.leaves().contains(a) && left.leaves().contains(b) implies !sort_key(
                table@,
                b,
                axis,
            ).spec_total_lt(sort_key(table@, a, axis)) by {
                lemma_permutation_contains(right_given, right.leaves(), a);
                lemma_permutation_contains(left_given, left.leaves(), b);
                let ka = choose|k: int| 0 <= k < right_given.len() && right_given[k] == a;
                let kb = choose|k: int| 0 <= k < left_given.len() && left_given[k] == b;
                assert(sorted[rest - 1 - ka] == a);
                assert(sorted[n - 1 - kb] == b);
            }
            assert(is_split_on(right.leaves(), left.leaves(), table@, axis));
            vstd::seq_lib::lemma_multiset_commutative(left.leaves(), right.leaves());
        }
        BVHNode {
            left: Some(Child::Node(Box::new(left))),
            right: Some(Child::Node(Box::new(right))),
            hitbox,
        }
    }
}

/// The greater half of a list read backwards and the lesser half read
/// backwards hold between them what the list holds.
proof fn lemma_halves_hold_everything(sorted: Seq<usize>, high: Seq<usize>, low: Seq<usize>)
    requires
        high.len() + low.len() == sorted.len(),
        forall|k: int| 0 <= k < high.len() ==> #[trigger] high[k] == sorted[sorted.len() - 1 - k],
        forall|k: int| 0 <= k < low.len() ==> #[trigger] low[k] == sorted[low.len() - 1 - k],
    ensures
        high.to_multiset().add(low.to_multiset()) == sorted.to_multiset(),
{
    let low_part = sorted.take(low.len() as int);
    let high_part = sorted.skip(low.len() as int);
    assert(low =~= low_part.reverse());
    assert(high =~= high_part.reverse());
    low_part.lemma_reverse_to_multiset();
    high_part.lemma_reverse_to_multiset();
    assert(sorted =~= low_part + high_part);
    vstd::seq_lib::lemma_multiset_commutative(low_part, high_part);
    assert(high.to_multiset().add(low.to_multiset()) =~= sorted.to_multiset());
}

/// The box of a built node lies around the box of every primitive below it,
/// where the boxes of the primitives hold no NaN.
pub proof fn lemma_box_bounds_leaves(node: BVHNode, table: Seq<Leaf>, i: usize)
    requires
        node.is_built(table),
        forall|k: int| 0 <= k < table.len() ==> (#[trigger] table[k]).hitbox.is_numeric(),
        node.leaves().contains(i),
    ensures
        i < table.len(),
        node.hitbox.contains(table[i as int].hitbox),
        node.hitbox.is_numeric(),
    decreases node,
{
    match (node.left, node.right) {
        (Some(Child::Primitive(a)), None) => {
            assert(node.leaves() =~= seq![a]);
            assert(node.leaves()[0] == a);
            lemma_contains_is_preorder(table[a as int].hitbox, table[a as int].hitbox, table[a as int].hitbox);
        },
        (Some(Child::Primitive(a)), Some(Child::Primitive(b))) => {
            assert(node.leaves() =~= seq![a, b]);
            lemma_surrounding_box_contains_both(table[a as int].hitbox, table[b as int].hitbox);
        },
        (Some(Child::Node(left)), Some(Child::Node(right))) => {
            lemma_contains_of_concat(left.leaves(), right.leaves());
            let a = left.leaves()[0];
            let b = right.leaves()[0];
            assert(left.leaves().contains(a));
            assert(right.leaves().contains(b));
            lemma_box_bounds_leaves(*left, table, a);
            lemma_box_bounds_leaves(*right, table, b);
            lemma_surrounding_box_contains_both(left.hitbox, right.hitbox);
            if left.leaves().contains(i) {
                lemma_box_bounds_leaves(*left, table, i);
                lemma_contains_is_preorder(node.hitbox, left.hitbox, table[i as int].hitbox);
            } else {
                lemma_box_bounds_leaves(*right, table, i);
                lemma_contains_is_preorder(node.hitbox, right.hitbox, table[i as int].hitbox);
            }
        },
        _ => {},
    }
}

} // verus!
