//! Histograms: how often each value of a small range occurs.

use vstd::prelude::*;

verus! {

/// How often `b` occurs among `values`.
pub open spec fn occurrences(values: Seq<usize>, b: int) -> nat
    decreases values.len(),
{
    if values.len() == 0 {
        0
    } else {
        occurrences(values.drop_last(), b) + if values.last() == b {
            1nat
        } else {
            0nat
        }
    }
}

/// The sum of the first `n` counts.
pub open spec fn below(counts: Seq<usize>, n: int) -> nat
    decreases n,
{
    if n <= 0 {
        0
    } else {
        below(counts, n - 1) + counts[n - 1] as nat
    }
}

/// How many of `values` are less than `limit`.
pub open spec fn in_range(values: Seq<usize>, limit: int) -> nat
    decreases values.len(),
{
    if values.len() == 0 {
        0
    } else {
        in_range(values.drop_last(), limit) + if values.last() < limit {
            1nat
        } else {
            0nat
        }
    }
}

/// No value occurs more often than there are values.
pub proof fn lemma_occurrences_bound(values: Seq<usize>, b: int)
    ensures
        occurrences(values, b) <= values.len(),
    decreases values.len(),
{
    if values.len() > 0 {
        lemma_occurrences_bound(values.drop_last(), b);
    }
}

/// Raising one count by one raises the sums that include it by one.
pub proof fn lemma_below_update(counts: Seq<usize>, at: int, v: usize, n: int)
    requires
        0 <= at < counts.len(),
        0 <= n <= counts.len(),
        v == counts[at] + 1,
    ensures
        below(counts.update(at, v), n) == below(counts, n) + if at < n {
            1nat
        } else {
            0nat
        },
    decreases n,
{
    if n > 0 {
        lemma_below_update(counts, at, v, n - 1);
    }
}

/// Counts that are all zero sum to zero.
pub proof fn lemma_below_zero(counts: Seq<usize>, n: int)
    requires
        0 <= n <= counts.len(),
        forall|i: int| 0 <= i < counts.len() ==> counts[i] == 0,
    ensures
        below(counts, n) == 0,
    decreases n,
{
    if n > 0 {
        lemma_below_zero(counts, n - 1);
    }
}

/// How often each of the values `0..buckets` occurs among `values`;
/// values from `buckets` on are not counted. The counts sum to the
/// number of values counted.
pub fn tally(values: &Vec<usize>, buckets: usize) -> (r: Vec<usize>)
    ensures
        r@.len() == buckets,
        forall|b: int| 0 <= b < buckets ==> r@[b] == occurrences(values@, b),
        forall|n: int| 0 <= n <= buckets ==> below(r@, n) == in_range(values@, n),
{
    let mut counts: Vec<usize> = Vec::new();
    let mut b: usize = 0;
    while b < buckets
        invariant
            b <= buckets,
            counts@.len() == b,
            forall|i: int| 0 <= i < b ==> counts@[i] == 0,
        decreases buckets - b,
    {
        counts.push(0);
        b += 1;
    }
    let mut i: usize = 0;
    proof {
        assert(values@.take(0) =~= Seq::<usize>::empty());
        assert forall|n: int| 0 <= n <= buckets implies below(counts@, n) == in_range(
            values@.take(0),
            n,
        ) by {
            lemma_below_zero(counts@, n);
        }
    }
    while i < values.len()
        invariant
            i <= values.len(),
            counts@.len() == buckets,
            forall|b: int| 0 <= b < buckets ==> counts@[b] == occurrences(values@.take(i as int), b),
            forall|n: int|
                0 <= n <= buckets ==> below(counts@, n) == in_range(values@.take(i as int), n),
        decreases values.len() - i,
    {
        let v = values[i];
        let ghost before = counts@;
        let ghost prefix = values@.take(i as int);
        let ghost next = values@.take(i + 1);
        proof {
            assert(next.drop_last() =~= prefix);
            assert(next.last() == v);
        }
        if v < buckets {
            proof {
                lemma_occurrences_bound(prefix, v as int);
            }
            let c = counts[v] + 1;
            counts.set(v, c);
            proof {
                assert forall|n: int| 0 <= n <= buckets implies below(counts@, n) == in_range(
                    next,
                    n,
                ) by {
                    lemma_below_update(before, v as int, c, n);
                }
            }
        } else {
            proof {
                assert forall|n: int| 0 <= n <= buckets implies below(counts@, n) == in_range(
                    next,
                    n,
                ) by {}
            }
        }
        i += 1;
    }
    proof {
        assert(values@.take(i as int) =~= values@);
    }
    counts
}

/// Whether `v` is the value at position `k` of the counted values in
/// ascending order: at most `k` of them are smaller, and more than
/// `k` are smaller or equal.
pub open spec fn is_kth(counts: Seq<usize>, k: int, v: int) -> bool {
    0 <= v < counts.len() && below(counts, v) <= k < below(counts, v + 1)
}

/// The sums of the counts never descend.
pub proof fn lemma_below_monotone(counts: Seq<usize>, a: int, b: int)
    requires
        a <= b,
    ensures
        below(counts, a) <= below(counts, b),
    decreases b - a,
{
    if a < b {
        lemma_below_monotone(counts, a, b - 1);
    }
}

/// Only one value is the `k`-th.
pub proof fn lemma_kth_unique(counts: Seq<usize>, k: int, v: int, w: int)
    requires
        is_kth(counts, k, v),
        is_kth(counts, k, w),
    ensures
        v == w,
{
    if v < w {
        lemma_below_monotone(counts, v + 1, w);
    } else if w < v {
        lemma_below_monotone(counts, w + 1, v);
    }
}

/// The value at position `k` of the counted values in ascending order,
/// where there are more than `k` of them.
pub fn kth_smallest(counts: &Vec<usize>, k: usize) -> (r: Option<usize>)
    ensures
        r is Some <==> k < below(counts@, counts@.len() as int),
        r matches Some(v) ==> is_kth(counts@, k as int, v as int),
{
    let mut seen: u128 = 0;
    let mut v: usize = 0;
    while v < counts.len()
        invariant
            v <= counts.len(),
            seen == below(counts@, v as int),
            seen <= k,
            seen <= v * usize::MAX,
        decreases counts.len() - v,
    {
        let c = counts[v];
        assert(seen + c <= (v + 1) * usize::MAX) by (nonlinear_arith)
            requires
                seen <= v * usize::MAX,
                c <= usize::MAX,
        ;
        assert(v * usize::MAX <= usize::MAX * usize::MAX) by (nonlinear_arith)
            requires
                v <= usize::MAX,
        ;
        assert((v + 1) * usize::MAX <= 0xffff_ffff_ffff_ffff * 0xffff_ffff_ffff_ffff)
            by (nonlinear_arith)
            requires
                v + 1 <= 0xffff_ffff_ffff_ffff,
                usize::MAX <= 0xffff_ffff_ffff_ffff,
        ;
        let after: u128 = seen + c as u128;
        if after > k as u128 {
            proof {
                lemma_below_monotone(counts@, v + 1, counts@.len() as int);
            }
            return Some(v);
        }
        seen = after;
        v += 1;
    }
    None
}

} // verus!
