use vstd::prelude::*;

verus! {

/// Number of positions `i < m` with `s[i] == v`.
pub open spec fn count_eq_upto(s: Seq<u8>, v: u8, m: int) -> nat
    recommends
        m <= s.len(),
    decreases m,
{
    if m <= 0 {
        0
    } else {
        count_eq_upto(s, v, m - 1) + (if s[m - 1] == v {
            1nat
        } else {
            0nat
        })
    }
}

/// Number of elements of `s` equal to `v`.
pub open spec fn count_eq(s: Seq<u8>, v: u8) -> nat {
    count_eq_upto(s, v, s.len() as int)
}

/// Number of maximal constant runs among the first `m` elements, counting 1
/// for the initial run; by convention this is 1 for `m <= 1` (the value used
/// by the run-count accumulator before any comparison happens).
pub open spec fn runs_upto(s: Seq<u8>, m: int) -> nat
    recommends
        m <= s.len(),
    decreases m,
{
    if m <= 1 {
        1
    } else {
        runs_upto(s, m - 1) + (if s[m - 1] != s[m - 2] {
            1nat
        } else {
            0nat
        })
    }
}

/// Number of maximal constant runs of `s` (1 for the empty sequence, by the
/// accumulator convention above).
pub open spec fn runs_of(s: Seq<u8>) -> nat {
    runs_upto(s, s.len() as int)
}

/// Number of offsets `i < m` at which both `bits[i]` and `bits[i + lag]`
/// are 1.
pub open spec fn and_pairs_upto(bits: Seq<u8>, lag: int, m: int) -> nat
    recommends
        0 <= lag,
        m + lag <= bits.len(),
    decreases m,
{
    if m <= 0 {
        0
    } else {
        and_pairs_upto(bits, lag, m - 1) + (if bits[m - 1] == 1 && bits[m - 1 + lag] == 1 {
            1nat
        } else {
            0nat
        })
    }
}

/// Number of valid offsets `i` at which both `bits[i]` and `bits[i + lag]`
/// are 1.
pub open spec fn and_pairs(bits: Seq<u8>, lag: int) -> nat
    recommends
        0 <= lag < bits.len(),
{
    and_pairs_upto(bits, lag, bits.len() - lag)
}

/// The bucket key of the length-2 window `(a, b)`, in `[0, 65536)`.
pub open spec fn pair_key(a: u8, b: u8) -> int {
    (a as int) * 256 + (b as int)
}

/// Number of windows `(s[i], s[i + 1])` with `i < m` whose key is `k`.
pub open spec fn count_pair_upto(s: Seq<u8>, k: int, m: int) -> nat
    recommends
        m < s.len(),
    decreases m,
{
    if m <= 0 {
        0
    } else {
        count_pair_upto(s, k, m - 1) + (if pair_key(s[m - 1], s[m]) == k {
            1nat
        } else {
            0nat
        })
    }
}

/// Number of length-2 windows of `s` whose key is `k`.
pub open spec fn count_pair(s: Seq<u8>, k: int) -> nat
    recommends
        s.len() >= 1,
{
    count_pair_upto(s, k, s.len() - 1)
}

/// Sum of the squared window counts over the buckets `k < j`.
pub open spec fn serial_sum_sq_upto(s: Seq<u8>, j: int) -> nat
    decreases j,
{
    if j <= 0 {
        0
    } else {
        serial_sum_sq_upto(s, j - 1) + count_pair(s, j - 1) * count_pair(s, j - 1)
    }
}

/// Number of buckets `k < j` whose window count is nonzero: the number of
/// distinct windows observed among those buckets.
pub open spec fn serial_distinct_upto(s: Seq<u8>, j: int) -> nat
    decreases j,
{
    if j <= 0 {
        0
    } else {
        serial_distinct_upto(s, j - 1) + (if count_pair(s, j - 1) > 0 {
            1nat
        } else {
            0nat
        })
    }
}

/// Sum of the window counts over the buckets `k < j`.
pub open spec fn serial_sum_upto(s: Seq<u8>, j: int) -> nat
    decreases j,
{
    if j <= 0 {
        0
    } else {
        serial_sum_upto(s, j - 1) + count_pair(s, j - 1)
    }
}

/// Sum of the entries of a tally vector over the indices `k < j`.
pub open spec fn vec_sum_upto(q: Seq<usize>, j: int) -> int
    recommends
        j <= q.len(),
    decreases j,
{
    if j <= 0 {
        0
    } else {
        vec_sum_upto(q, j - 1) + q[j - 1]
    }
}

/// An all-zero tally vector sums to zero.
pub proof fn lemma_zero_vec_sums(q: Seq<usize>, j: int)
    requires
        forall|k: int| 0 <= k < j ==> q[k] == 0,
    ensures
        vec_sum_upto(q, j) == 0,
    decreases j,
{
    if j > 0 {
        lemma_zero_vec_sums(q, j - 1);
    }
}

/// Raising one entry of a tally vector by one raises the sum of any range
/// that covers it by one.
pub proof fn lemma_vec_sum_upto_update(q: Seq<usize>, j: int, k: int, x: usize)
    requires
        0 <= k < q.len(),
        k < j <= q.len(),
    ensures
        vec_sum_upto(q.update(k, x), j) == vec_sum_upto(q, j) + x - q[k],
    decreases j,
{
    let q2 = q.update(k, x);
    if j > 0 {
        if k == j - 1 {
            lemma_vec_sum_upto_same(q, q2, j - 1);
        } else {
            lemma_vec_sum_upto_update(q, j - 1, k, x);
        }
    }
}

/// Sums over a range agree when the entries in the range agree.
pub proof fn lemma_vec_sum_upto_same(q1: Seq<usize>, q2: Seq<usize>, j: int)
    requires
        forall|k: int| 0 <= k < j ==> q1[k] == q2[k],
    ensures
        vec_sum_upto(q1, j) == vec_sum_upto(q2, j),
    decreases j,
{
    if j > 0 {
        lemma_vec_sum_upto_same(q1, q2, j - 1);
    }
}

/// A tally vector that matches the per-bucket window counts pointwise sums
/// to the same total as the window-count sum.
pub proof fn lemma_vec_sum_matches_serial_sum(s: Seq<u8>, q: Seq<usize>, j: int)
    requires
        forall|k: int| 0 <= k < j ==> q[k] as nat == count_pair(s, k),
    ensures
        vec_sum_upto(q, j) == serial_sum_upto(s, j),
    decreases j,
{
    if j > 0 {
        lemma_vec_sum_matches_serial_sum(s, q, j - 1);
    }
}

/// Window-count sums grow with the bucket range.
pub proof fn lemma_serial_sum_upto_monotone(s: Seq<u8>, j1: int, j2: int)
    requires
        j1 <= j2,
    ensures
        serial_sum_upto(s, j1) <= serial_sum_upto(s, j2),
    decreases j2 - j1,
{
    if j1 < j2 {
        lemma_serial_sum_upto_monotone(s, j1, j2 - 1);
    }
}

/// The sum of squared window counts is at most the square of the summed
/// window counts.
pub proof fn lemma_serial_sum_sq_le_sq(s: Seq<u8>, j: int)
    ensures
        serial_sum_sq_upto(s, j) <= serial_sum_upto(s, j) * serial_sum_upto(s, j),
    decreases j,
{
    if j > 0 {
        lemma_serial_sum_sq_le_sq(s, j - 1);
        let a = serial_sum_upto(s, j - 1) as int;
        let c = count_pair(s, j - 1) as int;
        assert(a * a + c * c <= (a + c) * (a + c)) by (nonlinear_arith)
            requires
                a >= 0,
                c >= 0,
        ;
    }
}

} // verus!
