//! Facts about lists that hold the same elements in another order.
use vstd::prelude::*;
use vstd::seq_lib::{to_multiset_contains, to_multiset_update};

verus! {

/// Exchanging two elements of a list keeps what the list holds.
pub proof fn lemma_swap_keeps_elements<A>(s: Seq<A>, i: int, j: int)
    requires
        0 <= i < s.len(),
        0 <= j < s.len(),
    ensures
        s.update(i, s[j]).update(j, s[i]).to_multiset() == s.to_multiset(),
{
    broadcast use to_multiset_contains;

    let mid = s.update(i, s[j]);
    to_multiset_update(s, i, s[j]);
    to_multiset_update(mid, j, s[i]);
    assert(s.contains(s[i]));
    assert(s.contains(s[j]));
    assert(mid.update(j, s[i]).to_multiset() =~= s.to_multiset());
}

/// An element of two lists put end to end is an element of one of them.
pub proof fn lemma_contains_of_concat<A>(first: Seq<A>, second: Seq<A>)
    ensures
        forall|x: A|
            #![trigger (first + second).contains(x)]
            (first + second).contains(x) <==> first.contains(x) || second.contains(x),
{
    assert forall|x: A| #![trigger (first + second).contains(x)] (first + second).contains(x) <==> first.contains(x) || second.contains(x) by {
        if first.contains(x) {
            let k = choose|k: int| 0 <= k < first.len() && first[k] == x;
            assert((first + second)[k] == x);
        }
        if second.contains(x) {
            let k = choose|k: int| 0 <= k < second.len() && second[k] == x;
            assert((first + second)[first.len() + k] == x);
        }
        if (first + second).contains(x) {
            let k = choose|k: int| 0 <= k < (first + second).len() && (first + second)[k] == x;
            if k < first.len() {
                assert(first[k] == x);
            } else {
                assert(second[k - first.len()] == x);
            }
        }
    }
}

} // verus!
