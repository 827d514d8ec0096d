//! Sums over stretches of a sequence of priorities, and the facts about them
//! that the sum tree and the replay store rest on.

use vstd::prelude::*;

verus! {

/// The sum of `s[lo]`, ..., `s[hi - 1]`; zero where the stretch is empty.
pub open spec fn range_sum(s: Seq<u64>, lo: int, hi: int) -> int
    decreases hi - lo,
{
    if lo >= hi {
        0
    } else {
        range_sum(s, lo, hi - 1) + s[hi - 1]
    }
}

/// The sum of the first `n` elements of `s`.
pub open spec fn prefix_sum(s: Seq<u64>, n: int) -> int {
    range_sum(s, 0, n)
}

/// The sum of every element of `s`.
pub open spec fn total_of(s: Seq<u64>) -> int {
    range_sum(s, 0, s.len() as int)
}

/// A stretch can be cut anywhere: the sum of the whole is the sum of the two parts.
pub proof fn lemma_range_sum_split(s: Seq<u64>, lo: int, mid: int, hi: int)
    requires
        lo <= mid <= hi,
    ensures
        range_sum(s, lo, hi) == range_sum(s, lo, mid) + range_sum(s, mid, hi),
    decreases hi - mid,
{
    if mid < hi {
        lemma_range_sum_split(s, lo, mid, hi - 1);
    }
}

/// A sum of unsigned values is never negative.
pub proof fn lemma_range_sum_nonneg(s: Seq<u64>, lo: int, hi: int)
    ensures
        range_sum(s, lo, hi) >= 0,
    decreases hi - lo,
{
    if lo < hi {
        lemma_range_sum_nonneg(s, lo, hi - 1);
    }
}

/// Prefix sums never shrink as the prefix grows.
pub proof fn lemma_prefix_sum_monotone(s: Seq<u64>, a: int, b: int)
    requires
        0 <= a <= b,
    ensures
        prefix_sum(s, a) <= prefix_sum(s, b),
{
    lemma_range_sum_split(s, 0, a, b);
    lemma_range_sum_nonneg(s, a, b);
}

/// Where every element of the stretch is at most `bound`, the sum is at most
/// the stretch's length times `bound`.
pub proof fn lemma_range_sum_bound(s: Seq<u64>, lo: int, hi: int, bound: int)
    requires
        0 <= lo <= hi <= s.len(),
        forall|i: int| lo <= i < hi ==> #[trigger] s[i] <= bound,
    ensures
        range_sum(s, lo, hi) <= (hi - lo) * bound,
    decreases hi - lo,
{
    if lo < hi {
        lemma_range_sum_bound(s, lo, hi - 1, bound);
        assert(s[hi - 1] <= bound);
        assert((hi - 1 - lo) * bound + bound == (hi - lo) * bound) by (nonlinear_arith);
    } else {
        assert((hi - lo) * bound == 0) by (nonlinear_arith)
            requires
                hi == lo,
        ;
    }
}

/// Replacing the element at `i` moves the sum of a stretch that holds `i` by the
/// difference of the two values, and leaves every other stretch's sum alone.
pub proof fn lemma_range_sum_update(s: Seq<u64>, lo: int, hi: int, i: int, v: u64)
    requires
        0 <= lo <= hi <= s.len(),
        0 <= i < s.len(),
    ensures
        range_sum(s.update(i, v), lo, hi) == if lo <= i < hi {
            range_sum(s, lo, hi) - s[i] + v
        } else {
            range_sum(s, lo, hi)
        },
    decreases hi - lo,
{
    if lo < hi {
        lemma_range_sum_update(s, lo, hi - 1, i, v);
    }
}

/// `v` is the least element of the sequence `s`, which holds it.
pub open spec fn is_min_of(v: u64, s: Seq<u64>) -> bool {
    &&& forall|i: int| 0 <= i < s.len() ==> v <= #[trigger] s[i]
    &&& exists|i: int| 0 <= i < s.len() && #[trigger] s[i] == v
}

/// A sequence has one least element only.
pub proof fn law_least_is_unique(a: u64, b: u64, s: Seq<u64>)
    requires
        is_min_of(a, s),
        is_min_of(b, s),
    ensures
        a == b,
{
    let i = choose|i: int| 0 <= i < s.len() && #[trigger] s[i] == a;
    let j = choose|j: int| 0 <= j < s.len() && #[trigger] s[j] == b;
    assert(b <= s[i]);
    assert(a <= s[j]);
}

/// A sequence of zeros sums to zero.
pub proof fn lemma_range_sum_zeros(s: Seq<u64>, lo: int, hi: int)
    requires
        forall|i: int| lo <= i < hi ==> s[i] == 0,
    ensures
        range_sum(s, lo, hi) == 0,
    decreases hi - lo,
{
    if lo < hi {
        lemma_range_sum_zeros(s, lo, hi - 1);
    }
}

} // verus!
