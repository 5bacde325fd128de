//! Raw category weights as the sampler reads them.
//!
//! A caller hands the constructor one `Weight` per category. A weight is
//! either a plain finite value or one of the special values that must be
//! rejected: not-a-number, negative infinity, or positive infinity. Finite
//! weights are exact integers, so the mass a category carries is the ratio
//! of its weight to the total weight, with no rounding anywhere.

use vstd::prelude::*;
use crate::Error;

verus! {

/// A raw, caller-supplied category weight.
#[derive(Clone, Copy, Debug, PartialEq, Eq, Structural)]
pub enum Weight {
    /// Not a number: always rejected.
    NotANumber,
    /// Negative infinity: always rejected.
    NegativeInfinity,
    /// Positive infinity: always rejected.
    PositiveInfinity,
    /// An exact finite weight; it must not be negative.
    Finite(i64),
}

/// A weight the first validation step rejects: negative or not a number.
pub open spec fn is_negative_or_nan(w: Weight) -> bool {
    match w {
        Weight::NotANumber => true,
        Weight::NegativeInfinity => true,
        Weight::PositiveInfinity => false,
        Weight::Finite(v) => v < 0,
    }
}

/// The exact value of a finite weight; special weights carry no value.
pub open spec fn weight_value(w: Weight) -> int {
    match w {
        Weight::Finite(v) => v as int,
        _ => 0,
    }
}

/// Some weight is negative or not a number.
pub open spec fn has_negative_or_nan(s: Seq<Weight>) -> bool {
    exists|i: int| 0 <= i < s.len() && is_negative_or_nan(s[i])
}

/// Every weight is exactly zero.
pub open spec fn all_zero(s: Seq<Weight>) -> bool {
    forall|i: int| 0 <= i < s.len() ==> s[i] == Weight::Finite(0i64)
}

/// Some weight is positive infinity.
pub open spec fn has_infinite(s: Seq<Weight>) -> bool {
    exists|i: int| 0 <= i < s.len() && s[i] is PositiveInfinity
}

/// The exact sum of the finite weight values.
pub open spec fn raw_weight_sum(s: Seq<Weight>) -> int
    decreases s.len(),
{
    if s.len() == 0 {
        0
    } else {
        weight_value(s[0]) + raw_weight_sum(s.skip(1))
    }
}

/// The total mass overflows: an infinite weight, or a sum past `u64::MAX`.
pub open spec fn overflows(s: Seq<Weight>) -> bool {
    has_infinite(s) || raw_weight_sum(s) > u64::MAX
}

/// The outcome of validating a raw weight vector, in the order the
/// constructor checks: negative or NaN first, then an all-zero sum, then an
/// infinite or overflowing sum.
pub open spec fn validate(s: Seq<Weight>) -> Option<Error> {
    if has_negative_or_nan(s) {
        Some(Error::ProbabilityNegative)
    } else if all_zero(s) {
        Some(Error::ProbabilityZero)
    } else if overflows(s) {
        Some(Error::ProbabilityInfinity)
    } else {
        None
    }
}

/// Extending a prefix by one weight adds that weight's value to the sum.
pub proof fn lemma_raw_sum_take_succ(s: Seq<Weight>, i: int)
    requires
        0 <= i < s.len(),
    ensures
        raw_weight_sum(s.take(i + 1)) == raw_weight_sum(s.take(i)) + weight_value(s[i]),
    decreases i,
{
    if i == 0 {
        assert(s.take(1).skip(1) =~= Seq::<Weight>::empty());
        assert(s.take(0) =~= Seq::<Weight>::empty());
    } else {
        lemma_raw_sum_take_succ(s.skip(1), i - 1);
        assert(s.take(i + 1).skip(1) =~= s.skip(1).take(i));
        assert(s.take(i).skip(1) =~= s.skip(1).take(i - 1));
        assert(s.take(i + 1)[0] == s[0]);
        assert(s.take(i)[0] == s[0]);
        assert(s.skip(1)[i - 1] == s[i]);
    }
}

/// The full prefix carries the sum of the whole vector.
pub proof fn lemma_raw_sum_take_full(s: Seq<Weight>)
    ensures
        raw_weight_sum(s.take(s.len() as int)) == raw_weight_sum(s),
{
    assert(s.take(s.len() as int) =~= s);
}

/// With no negative weights, a prefix sum never exceeds the full sum.
pub proof fn lemma_raw_sum_take_le(s: Seq<Weight>, i: int)
    requires
        0 <= i <= s.len(),
        !has_negative_or_nan(s),
    ensures
        raw_weight_sum(s.take(i)) <= raw_weight_sum(s),
    decreases s.len() - i,
{
    if i == s.len() {
        lemma_raw_sum_take_full(s);
    } else {
        lemma_raw_sum_take_succ(s, i);
        assert(!is_negative_or_nan(s[i]));
        lemma_raw_sum_take_le(s, i + 1);
    }
}

/// An all-zero weight vector sums to zero.
pub proof fn lemma_raw_sum_all_zero(s: Seq<Weight>)
    requires
        all_zero(s),
    ensures
        raw_weight_sum(s) == 0,
    decreases s.len(),
{
    if s.len() > 0 {
        assert(s[0] == Weight::Finite(0i64));
        assert(all_zero(s.skip(1))) by {
            assert(forall|i: int| 0 <= i < s.skip(1).len() ==> s.skip(1)[i] == s[i + 1]);
        }
        lemma_raw_sum_all_zero(s.skip(1));
    }
}

/// A count vector that matches the weight values pointwise carries the
/// same sum.
pub proof fn lemma_sum_matches(raw: Seq<Weight>, w: Seq<u64>)
    requires
        raw.len() == w.len(),
        forall|i: int| 0 <= i < raw.len() ==> w[i] as int == weight_value(raw[i]),
    ensures
        crate::sums::sum(w) == raw_weight_sum(raw),
    decreases raw.len(),
{
    if raw.len() > 0 {
        lemma_sum_matches(raw.skip(1), w.skip(1));
    }
}

} // verus!
