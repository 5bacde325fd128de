//! Sums over sequences of counts and the small lemmas the sampler needs.

use vstd::prelude::*;

verus! {

/// The exact mathematical sum of a sequence of counts.
pub open spec fn sum(s: Seq<u64>) -> int
    decreases s.len(),
{
    if s.len() == 0 {
        0
    } else {
        s[0] + sum(s.skip(1))
    }
}

/// Peeling one element off the front of a suffix.
pub proof fn lemma_sum_skip_succ(s: Seq<u64>, i: int)
    requires
        0 <= i < s.len(),
    ensures
        sum(s.skip(i)) == s[i] + sum(s.skip(i + 1)),
{
    assert(s.skip(i).skip(1) =~= s.skip(i + 1));
}

/// The whole sequence is its own suffix from the start.
pub proof fn lemma_sum_skip_zero(s: Seq<u64>)
    ensures
        sum(s.skip(0)) == sum(s),
{
    assert(s.skip(0) =~= s);
}

/// The sum of a sequence of unsigned values is non-negative.
pub proof fn lemma_sum_nonneg(s: Seq<u64>)
    ensures
        sum(s) >= 0,
    decreases s.len(),
{
    if s.len() > 0 {
        lemma_sum_nonneg(s.skip(1));
    }
}

/// Extending a prefix by one element adds that element to its sum.
pub proof fn lemma_sum_take_succ(s: Seq<u64>, i: int)
    requires
        0 <= i < s.len(),
    ensures
        sum(s.take(i + 1)) == sum(s.take(i)) + s[i],
    decreases i,
{
    if i == 0 {
        assert(s.take(1).skip(1) =~= Seq::<u64>::empty());
        assert(s.take(0) =~= Seq::<u64>::empty());
    } else {
        lemma_sum_take_succ(s.skip(1), i - 1);
        assert(s.take(i + 1).skip(1) =~= s.skip(1).take(i));
        assert(s.take(i).skip(1) =~= s.skip(1).take(i - 1));
        assert(s.take(i + 1)[0] == s[0]);
        assert(s.take(i)[0] == s[0]);
        assert(s.skip(1)[i - 1] == s[i]);
    }
}

/// The full prefix sums to the sum of the whole sequence.
pub proof fn lemma_sum_take_full(s: Seq<u64>)
    ensures
        sum(s.take(s.len() as int)) == sum(s),
{
    assert(s.take(s.len() as int) =~= s);
}

/// A run of zero entries contributes nothing to a prefix sum.
pub proof fn lemma_sum_zero_range(s: Seq<u64>, a: int, b: int)
    requires
        0 <= a <= b <= s.len(),
        forall|j: int| a <= j < b ==> s[j] == 0,
    ensures
        sum(s.take(b)) == sum(s.take(a)),
    decreases b - a,
{
    if a < b {
        lemma_sum_zero_range(s, a, b - 1);
        lemma_sum_take_succ(s, b - 1);
    }
}

/// Dropping a prefix can only shrink the sum.
pub proof fn lemma_sum_skip_le(s: Seq<u64>, i: int)
    requires
        0 <= i <= s.len(),
    ensures
        sum(s.skip(i)) <= sum(s),
    decreases i,
{
    if i == 0 {
        lemma_sum_skip_zero(s);
    } else {
        lemma_sum_skip_le(s, i - 1);
        lemma_sum_skip_succ(s, i - 1);
    }
}

/// Every element is bounded by the sum of the sequence it sits in.
pub proof fn lemma_element_le_sum(s: Seq<u64>, j: int)
    requires
        0 <= j < s.len(),
    ensures
        s[j] <= sum(s),
{
    lemma_sum_skip_succ(s, j);
    lemma_sum_nonneg(s.skip(j + 1));
    lemma_sum_skip_le(s, j);
}

/// Scaling every element scales the sum.
pub proof fn lemma_sum_proportional(a: Seq<u64>, b: Seq<u64>, c: int)
    requires
        a.len() == b.len(),
        forall|i: int| 0 <= i < a.len() ==> b[i] as int == c * (a[i] as int),
    ensures
        sum(b) == c * sum(a),
    decreases a.len(),
{
    if a.len() == 0 {
        assert(c * 0 == 0) by (nonlinear_arith);
    } else {
        lemma_sum_proportional(a.skip(1), b.skip(1), c);
        assert(b[0] as int + c * sum(a.skip(1)) == c * (a[0] as int + sum(a.skip(1)))) by (nonlinear_arith)
            requires
                b[0] as int == c * (a[0] as int),
        ;
    }
}

} // verus!
