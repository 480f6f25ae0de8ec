//! Numbers drawn at random, by rand.

use rand::rngs::ThreadRng;
use rand::Rng;
use vstd::prelude::*;

verus! {

/// The random number generator of a thread, as rand keeps it.
#[verifier::external_type_specification]
#[verifier::external_body]
pub struct ExThreadRng(ThreadRng);

/// The random number generator of this thread.
///
/// Calls `rand::thread_rng`, which panics where the system gives it no
/// seed. Nothing is claimed of the result.
#[verifier::external_body]
pub(crate) fn thread_generator() -> (generator: ThreadRng) {
    rand::thread_rng()
}

/// A number drawn at random from `low` up to, not including, `high`.
///
/// Calls `rand::Rng::gen_range` with the range `low..high`, which must not
/// be empty. Taken on trust: the number drawn lies in the range. Which
/// number it is differs from call to call.
#[verifier::external_body]
pub(crate) fn draw(generator: &mut ThreadRng, low: i64, high: i64) -> (drawn: i64)
    requires
        low < high,
    ensures
        low <= drawn < high,
{
    generator.gen_range(low..high)
}

} // verus!
