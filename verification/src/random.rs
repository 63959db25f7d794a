//! The two draws the library takes from the `rand` crate. Nothing here is
//! proved: each contract says what `rand` documents of the call.
//!
//! Both draw from `rand::thread_rng()`, the generator of the calling thread.
//! It is seeded from the operating system when a thread first uses it, and
//! panics there if the system hands out no seed.

use vstd::prelude::*;
use rand::Rng;

verus! {

/// Calls `rand::Rng::gen_range` on the thread's generator with the range
/// `0..bound`. Trusted: the number that comes back lies in that range, which
/// is all that is claimed of it. `gen_range` panics on an empty range, so
/// `bound` must not be zero.
#[verifier::external_body]
pub(crate) fn random_below(bound: u128) -> (ticket: u128)
    requires
        bound > 0,
    ensures
        ticket < bound,
{
    rand::thread_rng().gen_range(0..bound)
}

/// Calls `rand::Rng::gen` on the thread's generator for a `bool`: a coin
/// flip. Nothing is claimed of which side comes up.
#[verifier::external_body]
pub(crate) fn random_flip() -> (flip: bool) {
    rand::thread_rng().gen()
}

} // verus!
