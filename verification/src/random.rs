//! The random source: the one place where chance enters the game.

use vstd::prelude::*;
use rand::Rng;
use rand::seq::SliceRandom;

verus! {

/// `rand`'s handle to the generator of the current thread.
#[verifier::external_type_specification]
#[verifier::external_body]
pub struct ExThreadRng(rand::rngs::ThreadRng);

/// The generator of the current thread, from `rand::thread_rng`. Nothing is
/// claimed of it.
#[verifier::external_body]
pub(crate) fn thread_rng() -> rand::rngs::ThreadRng {
    rand::thread_rng()
}

/// Draws one element of `items` through `rand`'s `SliceRandom::choose`.
///
/// `choose` answers `None` for an empty slice and otherwise hands out the
/// element at an index below the length, which it draws from the generator.
/// Which one is not claimed, nor what becomes of the generator: only that
/// the answer is an element of `items`. The draw takes as long as the
/// generator needs to yield a number that the sampling accepts.
#[verifier::external_body]
pub(crate) fn choose_one<R: Rng>(items: &Vec<usize>, rng: &mut R) -> (picked: Option<usize>)
    ensures
        items@.len() == 0 ==> picked is None,
        items@.len() > 0 ==> picked is Some && items@.contains(picked->Some_0),
{
    items.choose(rng).copied()
}

} // verus!
