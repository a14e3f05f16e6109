//! The one source of randomness.

use rand::Rng;
use vstd::prelude::*;

verus! {

/// Draws a number below `bound` from the thread's generator.
///
/// Calls `rand::thread_rng()` and `Rng::gen_range` with the half-open range
/// `0..bound`. Not proved: that the draw lies in that range, which is what
/// `gen_range` documents. `gen_range` panics on an empty range, hence the
/// demand that `bound` is positive; `thread_rng` panics only where the
/// operating system cannot seed the generator, which no argument decides.
/// Nothing is claimed about which number comes back, and two calls may
/// differ.
#[verifier::external_body]
pub(crate) fn random_below(bound: u32) -> (draw: u32)
    requires
        bound > 0,
    ensures
        draw < bound,
{
    rand::thread_rng().gen_range(0..bound)
}

} // verus!
