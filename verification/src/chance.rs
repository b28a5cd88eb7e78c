//! The only sources of randomness in the library.

use vstd::prelude::*;

use rand::distributions::Distribution;
use rand::distributions::Uniform;
use rand::seq::SliceRandom;
use rand::Rng;

verus! {

/// Draws one value from the half-open range `low..high`.
///
/// Trusted: the body asks `rand`'s `Uniform::from(low..high)` for one
/// `sample` from `thread_rng()`. `rand` documents the range as half open and
/// panics when `low >= high`, which the precondition rules out. Nothing is
/// claimed of which value in the range comes back.
#[verifier::external_body]
pub(crate) fn sample_uniform(low: u16, high: u16) -> (r: u16)
    requires
        low < high,
    ensures
        low <= r < high,
{
    let mut rng = rand::thread_rng();
    Uniform::from(low..high).sample(&mut rng)
}

/// Draws one value from the half-open range `low..high`, for a single use.
///
/// Trusted: the body calls `rand`'s `Rng::gen_range(low, high)` on
/// `thread_rng()`. `rand` documents the result as at least `low` and below
/// `high`, and panics when `low >= high`, which the precondition rules out.
/// Nothing is claimed of which value in the range comes back.
#[verifier::external_body]
pub(crate) fn pick_in_range(low: i32, high: i32) -> (r: i32)
    requires
        low < high,
    ensures
        low <= r < high,
{
    let mut rng = rand::thread_rng();
    rng.gen_range(low, high)
}

/// Puts the colours in a random order.
///
/// Trusted: the body calls `rand`'s `SliceRandom::shuffle` with
/// `thread_rng()`, which only swaps elements of the slice: the same colours
/// are there afterwards, each as often as before. Nothing is claimed of the
/// order.
#[verifier::external_body]
pub(crate) fn shuffle_colors(colors: &mut Vec<(u8, u8, u8)>)
    ensures
        final(colors)@.to_multiset() == old(colors)@.to_multiset(),
        final(colors)@.len() == old(colors)@.len(),
{
    colors.shuffle(&mut rand::thread_rng());
}

} // verus!
