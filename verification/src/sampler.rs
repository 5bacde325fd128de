//! The multinomial sampler: validation, normalization, and sampling.

use vstd::prelude::*;
use vstd::std_specs::cmp::PartialEqSpec;
use crate::Error;
use crate::randomness::binomial_draw;
use crate::sums::{
    lemma_element_le_sum, lemma_sum_nonneg, lemma_sum_proportional, lemma_sum_skip_succ,
    lemma_sum_skip_zero, lemma_sum_take_full, lemma_sum_take_succ, lemma_sum_zero_range, sum,
};
use crate::weights::{
    all_zero, has_negative_or_nan, has_infinite, is_negative_or_nan, lemma_raw_sum_all_zero,
    lemma_raw_sum_take_full, lemma_raw_sum_take_le, lemma_raw_sum_take_succ, lemma_sum_matches,
    raw_weight_sum, validate, weight_value, Weight,
};

verus! {

/// A multinomial distribution over a fixed number of categories.
///
/// A value holds the draw count `n` and a validated weight vector together
/// with its exact total, so category `i` carries probability
/// `weights[i] / total`. Values are immutable once constructed.
#[derive(Debug)]
pub struct MultinomialConst {
    /// Number of draws per sample.
    n: u64,
    /// Validated weights; category `i` has probability `weights[i] / total`.
    weights: Vec<u64>,
    /// The exact sum of `weights`; always positive.
    total: u64,
}

impl MultinomialConst {
    /// The number of draws each sample distributes.
    pub closed spec fn draw_count(&self) -> u64 {
        self.n
    }

    /// The validated weight vector.
    pub closed spec fn weight_seq(&self) -> Seq<u64> {
        self.weights@
    }

    /// The exact total mass of the weight vector.
    pub closed spec fn total_mass(&self) -> u64 {
        self.total
    }

    /// Well-formedness: at least one category, and the stored total is the
    /// exact, positive sum of the weights: the vector of ratios
    /// `weights[i] / total` therefore sums to exactly one.
    #[verifier::type_invariant]
    pub closed spec fn wf(&self) -> bool {
        &&& self.weights@.len() >= 1
        &&& self.total == sum(self.weights@)
        &&& self.total > 0
    }
}

impl vstd::std_specs::cmp::PartialEqSpecImpl for MultinomialConst {
    open spec fn obeys_eq_spec() -> bool {
        true
    }

    /// Two samplers are equal when they draw the same count and their
    /// weight vectors describe the same probabilities: entry for entry, the
    /// ratios to the respective totals agree.
    open spec fn eq_spec(&self, other: &Self) -> bool {
        &&& self.draw_count() == other.draw_count()
        &&& self.weight_seq().len() == other.weight_seq().len()
        &&& forall|i: int| 0 <= i < self.weight_seq().len()
            ==> (self.weight_seq()[i] as int) * (other.total_mass() as int)
                == (other.weight_seq()[i] as int) * (self.total_mass() as int)
    }
}

impl PartialEq for MultinomialConst {
    fn eq(&self, other: &Self) -> (r: bool) {
        if self.n != other.n {
            return false;
        }
        if self.weights.len() != other.weights.len() {
            return false;
        }
        let k = self.weights.len();
        let mut i: usize = 0;
        while i < k
            invariant
                k == self.weight_seq().len(),
                k == other.weight_seq().len(),
                i <= k,
                forall|j: int| 0 <= j < i
                    ==> (self.weight_seq()[j] as int) * (other.total_mass() as int)
                        == (other.weight_seq()[j] as int) * (self.total_mass() as int),
            decreases k - i,
        {
            let a = self.weights[i];
            let b = other.total;
            let c = other.weights[i];
            let d = self.total;
            proof {
                assert((a as int) * (b as int) <= (u64::MAX as int) * (u64::MAX as int))
                    by (nonlinear_arith)
                    requires
                        a <= u64::MAX,
                        b <= u64::MAX,
                ;
                assert((c as int) * (d as int) <= (u64::MAX as int) * (u64::MAX as int))
                    by (nonlinear_arith)
                    requires
                        c <= u64::MAX,
                        d <= u64::MAX,
                ;
            }
            if (a as u128) * (b as u128) != (c as u128) * (d as u128) {
                return false;
            }
            i = i + 1;
        }
        true
    }
}

impl Clone for MultinomialConst {
    /// A clone carries the same draw count and the same normalized weights.
    fn clone(&self) -> (r: Self)
        ensures
            r.draw_count() == self.draw_count(),
            r.weight_seq() == self.weight_seq(),
            r.total_mass() == self.total_mass(),
    {
        proof {
            use_type_invariant(self);
        }
        MultinomialConst { n: self.n, weights: self.weights.clone(), total: self.total }
    }
}

/// Validates a raw weight vector and extracts its normalized form: the
/// vector of exact weight values together with their total, so category `i`
/// carries probability `values[i] / total`.
///
/// The checks run in the order the errors are ranked: a negative or
/// not-a-number weight first, then an exactly zero total, then an infinite
/// or overflowing total.
fn normalize(raw: &Vec<Weight>) -> (r: Result<(Vec<u64>, u64), Error>)
    ensures
        match r {
            Ok(p) => {
                &&& validate(raw@) is None
                &&& p.0@.len() == raw@.len()
                &&& forall|i: int| 0 <= i < raw@.len() ==> p.0@[i] as int == weight_value(raw@[i])
                &&& p.1 as int == sum(p.0@)
                &&& p.1 as int == raw_weight_sum(raw@)
                &&& p.1 > 0
            },
            Err(e) => validate(raw@) == Some(e),
        },
{
    let k = raw.len();

    // First pass: reject any negative or not-a-number weight.
    let mut i: usize = 0;
    while i < k
        invariant
            k == raw@.len(),
            i <= k,
            forall|j: int| 0 <= j < i ==> !is_negative_or_nan(raw@[j]),
        decreases k - i,
    {
        match raw[i] {
            Weight::NotANumber => return Err(Error::ProbabilityNegative),
            Weight::NegativeInfinity => return Err(Error::ProbabilityNegative),
            Weight::Finite(v) => {
                if v < 0 {
                    return Err(Error::ProbabilityNegative);
                }
            },
            Weight::PositiveInfinity => {},
        }
        i = i + 1;
    }
    assert(!has_negative_or_nan(raw@));

    // Second pass: the exact sum. An infinite weight, or a running sum past
    // `u64::MAX`, makes the total overflow.
    let mut acc: u64 = 0;
    let mut i: usize = 0;
    while i < k
        invariant
            k == raw@.len(),
            i <= k,
            !has_negative_or_nan(raw@),
            acc as int == raw_weight_sum(raw@.take(i as int)),
            forall|j: int| 0 <= j < i ==> !(raw@[j] is PositiveInfinity),
            forall|j: int| 0 <= j < i ==> weight_value(raw@[j]) <= acc as int,
        decreases k - i,
    {
        let v: i64 = match raw[i] {
            Weight::PositiveInfinity => {
                proof {
                    assert(has_infinite(raw@));
                }
                return Err(Error::ProbabilityInfinity);
            },
            Weight::Finite(x) => x,
            _ => 0,
        };
        assert(v as int == weight_value(raw@[i as int]) && v >= 0);
        proof {
            lemma_raw_sum_take_succ(raw@, i as int);
        }
        if v as u64 > u64::MAX - acc {
            // The exact total already exceeds the representable range.
            proof {
                lemma_raw_sum_take_le(raw@, i as int + 1);
            }
            return Err(Error::ProbabilityInfinity);
        }
        acc = acc + v as u64;
        i = i + 1;
    }
    proof {
        lemma_raw_sum_take_full(raw@);
    }

    if acc == 0 {
        // No negatives and an exactly zero total: every weight is zero.
        assert(all_zero(raw@)) by {
            assert(forall|j: int| 0 <= j < raw@.len() ==> weight_value(raw@[j]) == 0);
        }
        return Err(Error::ProbabilityZero);
    }

    proof {
        if all_zero(raw@) {
            lemma_raw_sum_all_zero(raw@);
        }
    }

    // Third pass: the normalized form is the vector of exact values over
    // their total.
    let mut values: Vec<u64> = Vec::new();
    let mut i: usize = 0;
    while i < k
        invariant
            k == raw@.len(),
            i <= k,
            !has_negative_or_nan(raw@),
            forall|j: int| 0 <= j < k ==> !(raw@[j] is PositiveInfinity),
            values@.len() == i,
            forall|j: int| 0 <= j < i ==> values@[j] as int == weight_value(raw@[j]),
        decreases k - i,
    {
        let v: i64 = match raw[i] {
            Weight::Finite(x) => x,
            _ => 0,
        };
        values.push(v as u64);
        i = i + 1;
    }
    proof {
        lemma_sum_matches(raw@, values@);
    }
    Ok((values, acc))
}

impl MultinomialConst {
    /// Constructs a sampler for `n` draws over the given raw weights.
    ///
    /// The weights are validated in order (a negative or not-a-number
    /// weight, then an all-zero vector, then an infinite or overflowing
    /// total) and on success are kept exactly, together with their total,
    /// as the normalized probability vector. A sampler over zero categories
    /// is a contract violation, so the raw vector must not be empty.
    pub fn new(n: u64, raw_weights: Vec<Weight>) -> (r: Result<MultinomialConst, Error>)
        requires
            raw_weights@.len() >= 1,
        ensures
            match r {
                Ok(m) => {
                    &&& validate(raw_weights@) is None
                    &&& m.draw_count() == n
                    &&& m.weight_seq().len() == raw_weights@.len()
                    &&& forall|i: int| 0 <= i < raw_weights@.len()
                        ==> m.weight_seq()[i] as int == weight_value(raw_weights@[i])
                    &&& m.total_mass() as int == raw_weight_sum(raw_weights@)
                    &&& m.total_mass() > 0
                },
                Err(e) => validate(raw_weights@) == Some(e),
            },
    {
        match normalize(&raw_weights) {
            Ok((weights, total)) => Ok(MultinomialConst { n, weights, total }),
            Err(e) => Err(e),
        }
    }

    /// Draws one multinomial sample: a vector with one count per category
    /// whose entries sum to exactly the draw count.
    ///
    /// Categories are processed in order; each one receives a binomial draw
    /// over the draws and the mass not yet allocated, and the last category
    /// absorbs whatever draws remain. Because the mass is exact, a category's
    /// weight never exceeds the remaining mass, so the conditional
    /// probability handed to the binomial draw is always at most one; that
    /// bound is proved rather than clamped. The contract states the exact sum, the
    /// non-negativity of every entry, that a zero-weight category before the
    /// last receives nothing, and the two degenerate cases: all mass on the
    /// first category sends every draw there, and no mass before the last
    /// category sends every draw to the last.
    pub fn sample(&self, rng: &mut rand::rngs::StdRng) -> (s: Vec<u64>)
        ensures
            s@.len() == self.weight_seq().len(),
            sum(s@) == self.draw_count(),
            forall|i: int| 0 <= i < s@.len() ==> s@[i] >= 0,
            forall|i: int| 0 <= i < s@.len() - 1 && self.weight_seq()[i] == 0 ==> s@[i] == 0,
            self.weight_seq()[s@.len() - 1] == 0 ==> s@[s@.len() - 1] == 0,
            self.weight_seq()[0] == self.total_mass() ==> s@[0] == self.draw_count()
                && (forall|i: int| 1 <= i < s@.len() ==> s@[i] == 0),
            (forall|i: int| 0 <= i < s@.len() - 1 ==> self.weight_seq()[i] == 0)
                ==> s@[s@.len() - 1] == self.draw_count(),
    {
        proof {
            use_type_invariant(self);
        }
        let k = self.weights.len();

        let mut s: Vec<u64> = Vec::new();
        let mut i: usize = 0;
        while i < k
            invariant
                i <= k,
                s@.len() == i,
                forall|j: int| 0 <= j < i ==> s@[j] == 0,
            decreases k - i,
        {
            s.push(0);
            i = i + 1;
        }

        let mut remaining_n: u64 = self.n;
        let mut mass: u64 = self.total;
        proof {
            lemma_sum_skip_zero(self.weight_seq());
        }
        let mut i: usize = 0;
        while i < k - 1
            invariant_except_break
                k == self.weight_seq().len(),
                1 <= k,
                self.total_mass() == sum(self.weight_seq()),
                self.total_mass() > 0,
                i <= k - 1,
                s@.len() == k,
                forall|j: int| i <= j < k ==> s@[j] == 0,
                forall|j: int| 0 <= j < i && self.weight_seq()[j] == 0 ==> s@[j] == 0,
                sum(s@.take(i as int)) + remaining_n == self.draw_count(),
                mass as int == sum(self.weight_seq().skip(i as int)),
                0 < mass,
                i >= 1 ==> self.weight_seq()[0] != self.total_mass(),
            ensures
                k == self.weight_seq().len(),
                s@.len() == k,
                sum(s@.take(k as int - 1)) + remaining_n == self.draw_count(),
                s@[k as int - 1] == 0,
                forall|j: int| 0 <= j < k - 1 && self.weight_seq()[j] == 0 ==> s@[j] == 0,
                remaining_n == 0 || (i == k - 1 && 0 < mass && mass as int == sum(
                    self.weight_seq().skip(i as int),
                )),
                k >= 2 && self.weight_seq()[0] == self.total_mass()
                    ==> remaining_n == 0 && s@[0] == self.draw_count(),
            decreases k - 1 - i,
        {
            if mass == 0 {
                // The guard of the decomposition: with no mass left, every
                // category from here on, except the last, keeps its zero
                // count. With an exact total this cannot fire before the
                // last category, as the invariant shows, but it states the
                // algorithm's stopping rule.
                proof {
                    lemma_sum_skip_zero(self.weight_seq());
                    lemma_sum_zero_range(s@, i as int, k as int - 1);
                }
                break;
            }
            let w_i = self.weights[i];
            proof {
                lemma_sum_skip_succ(self.weight_seq(), i as int);
                lemma_sum_nonneg(self.weight_seq().skip(i as int + 1));
            }
            let c = binomial_draw(rng, remaining_n, w_i, mass);
            let ghost s0 = s@;
            s[i] = c;
            proof {
                assert(s@.take(i as int) =~= s0.take(i as int));
                lemma_sum_take_succ(s@, i as int);
            }
            remaining_n = remaining_n - c;
            if remaining_n == 0 {
                // Every draw is allocated: the rest of the categories,
                // except the last, keep their zero counts.
                proof {
                    lemma_sum_skip_zero(self.weight_seq());
                    lemma_sum_zero_range(s@, i as int + 1, k as int - 1);
                }
                break;
            }
            mass = mass - w_i;
            i = i + 1;
            proof {
                lemma_sum_skip_zero(self.weight_seq());
                // The mass left over stays positive: had this category held
                // all of it, the draw would have taken every remaining draw
                // and the loop would have stopped above.
                if mass == 0 {
                    assert(false);
                }
            }
        }

        let last = k - 1;
        let ghost s1 = s@;
        s[last] = remaining_n;
        proof {
            assert(s@.take(k as int - 1) =~= s1.take(k as int - 1));
            lemma_sum_take_succ(s@, k as int - 1);
            lemma_sum_take_full(s@);
            if self.weight_seq()[k as int - 1] == 0 && remaining_n != 0 {
                // A zero-weight last category can absorb draws only if mass
                // were left at the end, and a positive leftover mass is
                // exactly the last weight.
                lemma_sum_skip_succ(self.weight_seq(), k as int - 1);
                assert(self.weight_seq().skip(k as int) =~= Seq::<u64>::empty());
                assert(false);
            }
            if k >= 2 && self.weight_seq()[0] == self.total_mass() {
                // All mass sits on the first category, so every other
                // weight is zero and every other count stays zero.
                lemma_sum_skip_succ(self.weight_seq(), 0);
                lemma_sum_skip_zero(self.weight_seq());
                lemma_sum_nonneg(self.weight_seq().skip(1));
                assert forall|j: int| 1 <= j < k implies self.weight_seq()[j] == 0 by {
                    lemma_element_le_sum(self.weight_seq().skip(1), j - 1);
                    lemma_sum_nonneg(self.weight_seq().skip(1));
                }
            }
            if forall|j: int| 0 <= j < k - 1 ==> self.weight_seq()[j] == 0 {
                lemma_sum_zero_range(s1, 0, k as int - 1);
            }
        }
        s
    }
}

/// Normalization idempotence: two well-formed samplers with the same draw
/// count whose weight vectors are proportional (one is a positive integer
/// multiple of the other) describe the same probability vector, so they
/// compare equal.
pub proof fn lemma_proportional_samplers_equal(a: MultinomialConst, b: MultinomialConst, c: int)
    requires
        a.wf(),
        b.wf(),
        a.draw_count() == b.draw_count(),
        a.weight_seq().len() == b.weight_seq().len(),
        c > 0,
        forall|i: int| 0 <= i < a.weight_seq().len()
            ==> b.weight_seq()[i] as int == c * (a.weight_seq()[i] as int),
    ensures
        a.eq_spec(&b),
{
    lemma_sum_proportional(a.weight_seq(), b.weight_seq(), c);
    assert forall|i: int| 0 <= i < a.weight_seq().len()
        implies (a.weight_seq()[i] as int) * (b.total_mass() as int)
            == (b.weight_seq()[i] as int) * (a.total_mass() as int) by {
        let wa = a.weight_seq()[i] as int;
        let wb = b.weight_seq()[i] as int;
        let ta = a.total_mass() as int;
        let tb = b.total_mass() as int;
        assert(wa * tb == wb * ta) by (nonlinear_arith)
            requires
                wb == c * wa,
                tb == c * ta,
        ;
    }
}

} // verus!
