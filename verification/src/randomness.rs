//! The random-source collaborator and the binomial sampler built on it.
//!
//! The only randomness the sampler consumes is uniform draws below a bound;
//! everything decided from those draws is verified. A binomial variate with
//! success probability `numerator / denominator` is drawn as the number of
//! successes in independent Bernoulli trials, where one trial succeeds
//! exactly when a uniform draw below `denominator` lands below `numerator`.

use vstd::prelude::*;
use rand::Rng;

verus! {

/// Relies on `rand::rngs::StdRng` as the random source: an opaque, mutable
/// supplier of uniform randomness.
#[verifier::external_type_specification]
#[verifier::external_body]
pub struct ExStdRng(rand::rngs::StdRng);

/// Relies on `rand::Rng::gen_range` over `0..bound`: the result is drawn
/// uniformly from that range, so it is strictly below `bound`. The call
/// panics only on an empty range, which the precondition rules out.
#[verifier::external_body]
fn uniform_below(rng: &mut rand::rngs::StdRng, bound: u64) -> (r: u64)
    requires
        0 < bound,
    ensures
        r < bound,
{
    rng.gen_range(0..bound)
}

/// Draws a binomial variate: the number of successes among `trials`
/// independent Bernoulli trials that each succeed with probability
/// `numerator / denominator`. The count never exceeds the trial count, a
/// zero probability never succeeds, and a probability of one always does.
pub fn binomial_draw(
    rng: &mut rand::rngs::StdRng,
    trials: u64,
    numerator: u64,
    denominator: u64,
) -> (count: u64)
    requires
        0 < denominator,
        numerator <= denominator,
    ensures
        count <= trials,
        numerator == 0 ==> count == 0,
        numerator == denominator ==> count == trials,
{
    if numerator == 0 {
        // A trial with zero mass cannot succeed.
        return 0;
    }
    if numerator == denominator {
        // A trial with the whole mass always succeeds.
        return trials;
    }
    let mut count: u64 = 0;
    let mut t: u64 = 0;
    while t < trials
        invariant
            0 < denominator,
            t <= trials,
            count <= t,
        decreases trials - t,
    {
        if uniform_below(rng, denominator) < numerator {
            count = count + 1;
        }
        t = t + 1;
    }
    count
}

} // verus!
