//! The distribution of events over the variables, supplied by the caller.

use rand::rngs::ThreadRng;
use vstd::prelude::*;

verus! {

/// Why a sampler did not yield a variable.
#[derive(Clone, Copy, Debug, PartialEq, Eq)]
pub enum SamplerError {
    /// The sampler could not draw.
    Unavailable,
    /// The sampler drew this index, which lies outside the key space.
    OutOfRange(usize),
}

/// A distribution over the indices of the variables.
///
/// A run asks the sampler once for every event. The sampler is free in what
/// it answers; whatever is no index of a variable ends the run.
pub trait VariableSampler {
    /// Draws the index of a variable.
    fn sample(&self, rng: &mut ThreadRng) -> Result<usize, SamplerError>;
}

} // verus!
