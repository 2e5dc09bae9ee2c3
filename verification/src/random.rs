//! The random source: the thread-local generator of the `rand` crate.
//!
//! Nothing here is proved. Each function states what the documentation of
//! `rand` promises of every outcome, and no more.

use crate::ratio::Ratio;
use rand::rngs::ThreadRng;
use rand::Rng;
use vstd::prelude::*;

verus! {

/// The type `rand::rngs::ThreadRng`, the generator of a thread. Nothing of
/// what it holds is visible here.
#[verifier::external_type_specification]
#[verifier::external_body]
pub struct ExThreadRng(ThreadRng);

/// Calls `rand::thread_rng`, which hands out the generator of the current
/// thread. Nothing is claimed of it.
#[verifier::external_body]
pub(crate) fn thread_rng() -> ThreadRng {
    rand::thread_rng()
}

/// Calls `Rng::gen_ratio`, which is `true` with probability
/// `numerator / denominator`. It panics unless that is a probability, which
/// the precondition rules out. Claimed of the outcome: it is `false` when the
/// numerator is zero and `true` when numerator and denominator are equal, as
/// the documentation of `gen_ratio` guarantees.
#[verifier::external_body]
pub(crate) fn flip(rng: &mut ThreadRng, chance: Ratio) -> (outcome: bool)
    requires
        chance.is_probability(),
    ensures
        chance.is_never() ==> !outcome,
        chance.is_certain() ==> outcome,
{
    rng.gen_ratio(chance.numerator, chance.denominator)
}

/// Calls `Rng::gen_range` on the inclusive range from `low` to `high`, which
/// panics on an empty range; the precondition rules that out. Claimed of the
/// outcome: it lies in the range.
#[verifier::external_body]
pub(crate) fn draw(rng: &mut ThreadRng, low: usize, high: usize) -> (drawn: usize)
    requires
        low <= high,
    ensures
        low <= drawn <= high,
{
    rng.gen_range(low..=high)
}

} // verus!
