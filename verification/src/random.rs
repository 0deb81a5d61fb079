//! Random draws, taken from the thread-local generator of the `rand` crate.
//!
//! Nothing in this module is proved: each function states what is assumed
//! of the call it makes.

use rand::Rng;
use vstd::prelude::*;

verus! {

/// Calls `Rng::gen::<bool>` on `rand::thread_rng()`.
///
/// Nothing is assumed of the value drawn. The generator seeds itself from
/// the operating system on first use and gives up if that fails.
#[verifier::external_body]
pub(crate) fn random_bool() -> (value: bool) {
    rand::thread_rng().gen::<bool>()
}

/// Calls `Rng::gen_range` on `rand::thread_rng()` with the half-open range
/// `0..bound`.
///
/// Assumed: the value drawn lies in that range, so it is below `bound`.
/// `gen_range` refuses an empty range, hence the precondition. The generator
/// seeds itself from the operating system on first use and gives up if that
/// fails.
#[verifier::external_body]
pub(crate) fn random_below(bound: usize) -> (value: usize)
    requires
        bound > 0,
    ensures
        value < bound,
{
    rand::thread_rng().gen_range(0..bound)
}

} // verus!
