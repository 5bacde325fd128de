//! Exact multinomial sampling over a fixed number of categories.
//!
//! A `MultinomialConst` owns a draw count `n` and a validated, normalized
//! weight vector; each call to `sample` partitions `n` draws across the
//! categories by sequential conditional binomial decomposition, so that the
//! resulting counts always sum to exactly `n`.

use vstd::prelude::*;

pub mod randomness;
pub mod sampler;
pub mod sums;
pub mod weights;

pub use sampler::MultinomialConst;
pub use weights::Weight;

verus! {

/// Error type returned from `MultinomialConst::new`.
#[derive(Clone, Copy, Debug, PartialEq, Eq, Structural)]
pub enum Error {
    /// There is a negative weight or NaN
    ProbabilityNegative,
    /// All weights are zero
    ProbabilityZero,
    /// One of the weights is infinite or the sum overflows
    ProbabilityInfinity,
}

impl Error {
    /// A human-readable description, one distinct message per variant.
    pub fn message(&self) -> (m: &'static str)
        ensures
            *self is ProbabilityNegative ==> m@ == "One of the weights is negative or NaN"@,
            *self is ProbabilityZero ==> m@ == "All of the weights are zero"@,
            *self is ProbabilityInfinity ==> m@ == "One of the weights is infinite or the sum overflows"@,
    {
        match self {
            Error::ProbabilityNegative => "One of the weights is negative or NaN",
            Error::ProbabilityZero => "All of the weights are zero",
            Error::ProbabilityInfinity => "One of the weights is infinite or the sum overflows",
        }
    }
}

} // verus!
