//! The random source: the thread-local generator of the `rand` crate and the
//! three slice operations the builder draws with.
//!
//! Nothing in this file is proved. Each contract states what the source of
//! `rand` shows of every outcome of the call; which outcome it is depends on
//! the generator.
//!
//! The generator takes its seed from the operating system, on first use in a
//! thread and again after every 64 KiB of output or after a fork. Where the
//! system gives none, the call that needed it panics. No argument decides
//! that, so no contract here can leave it out.

use rand::rngs::ThreadRng;
use rand::seq::SliceRandom;
use vstd::prelude::*;

verus! {

/// `rand::rngs::ThreadRng`, a handle to the generator of the current thread.
#[verifier::external_type_specification]
#[verifier::external_body]
pub struct ExThreadRng(rand::rngs::ThreadRng);

/// `rand::thread_rng`: a handle to the lazily seeded generator of the current
/// thread. Nothing is claimed of the handle. The first call in a thread panics
/// if the operating system can give no seed, or if the handler that watches
/// for forks cannot be registered.
pub assume_specification[ rand::thread_rng ]() -> (rng: ThreadRng);

/// `at` lists pairwise different positions of `items`, and `picked` holds the
/// items at those positions, in that order.
pub open spec fn picks_at(picked: Seq<char>, items: Seq<char>, at: Seq<int>) -> bool {
    &&& at.len() == picked.len()
    &&& at.no_duplicates()
    &&& forall|i: int|
        0 <= i < at.len() ==> 0 <= #[trigger] at[i] < items.len() && picked[i] == items[at[i]]
}

/// `picked` was taken from pairwise different positions of `items`.
pub open spec fn drawn_without_repetition(picked: Seq<char>, items: Seq<char>) -> bool {
    exists|at: Seq<int>| #[trigger] picks_at(picked, items, at)
}

/// `SliceRandom::choose` on a slice of characters: `None` for an empty slice,
/// otherwise the item at a position of the slice. The draw panics if the
/// generator is due for a new seed and cannot get one.
#[verifier::external_body]
pub(crate) fn choose_one(rng: &mut ThreadRng, items: &Vec<char>) -> (picked: Option<char>)
    ensures
        items@.len() == 0 ==> picked is None,
        items@.len() > 0 ==> picked is Some && items@.contains(picked->0),
{
    items.choose(rng).copied()
}

/// `SliceRandom::choose_multiple` on a slice of characters, collected: the
/// items at `amount` pairwise different positions of the slice, or at all its
/// positions where `amount` is more than it has, in random order.
///
/// The slice may have at most `u32::MAX` items: for a longer one `rand`
/// samples by rejection, which asserts that fewer items are asked for than
/// there are, and so fails where all of them are. The draw also panics if the
/// generator is due for a new seed and cannot get one.
#[verifier::external_body]
pub(crate) fn choose_distinct(rng: &mut ThreadRng, items: &Vec<char>, amount: usize) -> (picked:
    Vec<char>)
    requires
        items@.len() <= u32::MAX,
    ensures
        picked@.len() == if amount <= items@.len() {
            amount as nat
        } else {
            items@.len()
        },
        drawn_without_repetition(picked@, items@),
{
    items.choose_multiple(rng, amount).copied().collect()
}

/// `SliceRandom::shuffle` on a slice of characters: the slice is rearranged
/// by swaps of two of its items, so it holds the same items as before, each as
/// often as before. A draw in it panics if the generator is due for a new seed
/// and cannot get one.
#[verifier::external_body]
pub(crate) fn shuffle(rng: &mut ThreadRng, items: &mut Vec<char>)
    ensures
        final(items)@.to_multiset() == old(items)@.to_multiset(),
{
    items.shuffle(rng)
}

} // verus!
