//! The source of randomness, taken from the `rand` crate.

use vstd::prelude::*;
use rand::rngs::ThreadRng;
use rand::seq::IteratorRandom;

verus! {

/// `rand::rngs::ThreadRng`, the generator that each thread keeps for
/// itself. Nothing is known of its state.
#[verifier::external_type_specification]
#[verifier::external_body]
pub struct ExThreadRng(ThreadRng);

/// `rand::thread_rng`, which hands out the generator of the calling
/// thread. Nothing is claimed of the value.
pub assume_specification[ rand::thread_rng ]() -> (rng: ThreadRng)
;

/// `IteratorRandom::choose` of `rand`, on the range of the numbers below
/// `count`. It answers `None` exactly for the empty range, and otherwise
/// one number of the range; which one is left open.
#[verifier::external_body]
pub(crate) fn choose_index(rng: &mut ThreadRng, count: usize) -> (index: Option<usize>)
    ensures
        index is None <==> count == 0,
        index matches Some(i) ==> i < count,
{
    (0..count).choose(rng)
}

} // verus!
