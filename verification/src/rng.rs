//! The one source of chance: the thread's random number generator.

use rand::Rng;
use vstd::prelude::*;

verus! {

/// Draws an integer with `rand::Rng::gen_range` on the generator that
/// `rand::thread_rng` hands out, over the half-open range `low..high`.
///
/// Trusted: the draw lies in the range, which is all that holds of every
/// outcome. `gen_range` panics on an empty range, so the range must hold a
/// value. The generator itself is seeded by the system when a thread
/// first asks for it.
#[verifier::external_body]
pub(crate) fn random_in_range(low: i32, high: i32) -> (n: i32)
    requires
        low < high,
    ensures
        low <= n < high,
{
    rand::thread_rng().gen_range(low..high)
}

} // verus!
