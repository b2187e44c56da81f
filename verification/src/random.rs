//! The random source: the thread-local generator of the `rand` crate.

use rand::Rng;
use vstd::prelude::*;

verus! {

/// The handle that `rand::thread_rng` returns. Nothing is known of its state.
#[verifier::external_type_specification]
#[verifier::external_body]
pub struct ExThreadRng(rand::rngs::ThreadRng);

/// `rand::thread_rng`: a handle to the generator of the calling thread.
/// Nothing is claimed of the handle. The call panics where the system cannot
/// seed the generator; no argument decides that.
pub assume_specification[ rand::thread_rng ]() -> (rng: rand::rngs::ThreadRng);

/// `Rng::gen_range` on the half-open range `low..high` of `usize`.
/// The call panics on an empty range, so the range must hold a value; the
/// value drawn lies in the range. Which value it is, is not stated: two
/// draws from one range may differ.
#[verifier::external_body]
pub(crate) fn draw(rng: &mut rand::rngs::ThreadRng, low: usize, high: usize) -> (value: usize)
    requires
        low < high,
    ensures
        low <= value < high,
{
    rng.gen_range(low..high)
}

} // verus!
