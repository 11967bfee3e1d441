//! The one source of chance in the game.

use vstd::prelude::*;
use rand::distributions::{Distribution, Uniform};

verus! {

/// Draws a number from `low..high` with equal chances.
///
/// Trusted: the body makes a `rand::distributions::Uniform` over `low..high`
/// with `Uniform::from` and draws once from it with `Distribution::sample`,
/// using the generator of `rand::thread_rng`. `Uniform::from` panics on an
/// empty range, which `requires` leaves out. The contract claims of the draw
/// only that it lies in the range, which is what `Uniform` documents of every
/// sample; which number comes is left open.
#[verifier::external_body]
pub(crate) fn sample_range(low: usize, high: usize) -> (r: usize)
    requires
        low < high,
    ensures
        low <= r < high,
{
    Uniform::from(low..high).sample(&mut rand::thread_rng())
}

} // verus!
