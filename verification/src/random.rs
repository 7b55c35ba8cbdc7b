//! The random choices the renderer makes on integers and lists, drawn from the
//! thread's generator of the `rand` crate.
//!
//! The generator seeds itself from the operating system when a thread first
//! uses it, and stops the program there if the system gives it no seed.
use rand::seq::SliceRandom;
use rand::Rng;
use vstd::prelude::*;

verus! {

/// `rand::Rng::gen_range` on `rand::thread_rng()`, for the range `0..high`.
///
/// Believed of it: the number drawn lies in the range. Which number comes is
/// left open. An empty range makes `gen_range` panic, so `high` must be
/// positive.
#[verifier::external_body]
pub(crate) fn random_below(high: usize) -> (res: usize)
    requires
        high > 0,
    ensures
        res < high,
{
    rand::thread_rng().gen_range(0..high)
}

/// `rand::seq::SliceRandom::shuffle` on `rand::thread_rng()`.
///
/// Believed of it: it only exchanges elements of the slice, so the list
/// holds the same elements afterwards, each as often as before. Their order
/// is left open.
#[verifier::external_body]
pub(crate) fn shuffle(list: &mut Vec<usize>)
    ensures
        final(list)@.to_multiset() == old(list)@.to_multiset(),
{
    list.shuffle(&mut rand::thread_rng());
}

} // verus!
