use vstd::prelude::*;

use crate::bitstream::{bit_at, bits_of};
use crate::score::{keep_lags, lag_candidates, lag_seq};
use crate::tallies::{count_eq, count_eq_upto, runs_of, runs_upto};

verus! {

proof fn lemma_count_upto_all_eq(s: Seq<u8>, v: u8, m: int)
    requires
        0 <= m <= s.len(),
        forall|i: int| 0 <= i < m ==> s[i] == v,
    ensures
        count_eq_upto(s, v, m) == m,
    decreases m,
{
    if m > 0 {
        lemma_count_upto_all_eq(s, v, m - 1);
    }
}

proof fn lemma_count_upto_none_eq(s: Seq<u8>, v: u8, m: int)
    requires
        0 <= m <= s.len(),
        forall|i: int| 0 <= i < m ==> s[i] != v,
    ensures
        count_eq_upto(s, v, m) == 0,
    decreases m,
{
    if m > 0 {
        lemma_count_upto_none_eq(s, v, m - 1);
    }
}

/// Monobit law on an all-1 sequence: every sample counts as +1, so the
/// number of 1 samples is the length and the signed monobit sum equals the
/// length; the Z-score numerator `|2 * ones - len|` is then exactly `len`.
pub proof fn lemma_frequency_all_ones(s: Seq<u8>)
    requires
        forall|i: int| 0 <= i < s.len() ==> s[i] == 1,
    ensures
        count_eq(s, 1) == s.len(),
        2 * count_eq(s, 1) - s.len() == s.len(),
{
    lemma_count_upto_all_eq(s, 1, s.len() as int);
}

proof fn lemma_count_upto_alternating(s: Seq<u8>, m: int)
    requires
        0 <= m <= s.len(),
        forall|i: int|
            0 <= i < s.len() ==> s[i] == (if i % 2 == 0 {
                1u8
            } else {
                0u8
            }),
    ensures
        count_eq_upto(s, 1, m) == (m + 1) / 2,
    decreases m,
{
    if m > 0 {
        lemma_count_upto_alternating(s, m - 1);
    }
}

/// Monobit law on an alternating 1,0,1,0,... sequence of even length: the
/// 1 samples are exactly half, so the signed monobit sum is 0 and the
/// frequency score is exactly 0.
pub proof fn lemma_frequency_alternating(s: Seq<u8>)
    requires
        s.len() % 2 == 0,
        forall|i: int|
            0 <= i < s.len() ==> s[i] == (if i % 2 == 0 {
                1u8
            } else {
                0u8
            }),
    ensures
        2 * count_eq(s, 1) == s.len(),
{
    lemma_count_upto_alternating(s, s.len() as int);
}

proof fn lemma_runs_upto_alternating(s: Seq<u8>, m: int)
    requires
        1 <= m <= s.len(),
        forall|i: int| 1 <= i < s.len() ==> #[trigger] s[i] != s[i - 1],
    ensures
        runs_upto(s, m) == m,
    decreases m,
{
    if m > 1 {
        lemma_runs_upto_alternating(s, m - 1);
    }
}

/// Runs law on a strictly alternating sequence: every adjacent pair differs,
/// so the run count is the length, the maximum possible.
pub proof fn lemma_runs_alternating(s: Seq<u8>)
    requires
        s.len() >= 1,
        forall|i: int| 1 <= i < s.len() ==> #[trigger] s[i] != s[i - 1],
    ensures
        runs_of(s) == s.len(),
{
    lemma_runs_upto_alternating(s, s.len() as int);
}

/// Tally law on a constant sequence: the constant value is counted at every
/// position and any other value at none. In particular a constant sequence
/// has `count_eq(s, 1)` equal to 0 or to the length, the degenerate runs
/// condition.
pub proof fn lemma_count_constant(s: Seq<u8>, v: u8, w: u8)
    requires
        forall|i: int| 0 <= i < s.len() ==> s[i] == v,
    ensures
        count_eq(s, v) == s.len(),
        v != w ==> count_eq(s, w) == 0,
{
    lemma_count_upto_all_eq(s, v, s.len() as int);
    if v != w {
        lemma_count_upto_none_eq(s, w, s.len() as int);
    }
}

/// Expansion law on an all-zero byte sequence: every expanded bit is 0, so
/// the bitwise tallies are `{0: bit length, 1: 0}`.
pub proof fn lemma_bits_of_zero_bytes(s: Seq<u8>)
    requires
        forall|i: int| 0 <= i < s.len() ==> s[i] == 0,
    ensures
        forall|j: int| 0 <= j < bits_of(s).len() ==> bits_of(s)[j] == 0,
        count_eq(bits_of(s), 1) == 0,
{
    let bits = bits_of(s);
    assert forall|j: int| 0 <= j < bits.len() implies bits[j] == 0 by {
        crate::bitstream::lemma_bit_index_in_range(s.len() as int, j);
        let sh = (7 - j % 8) as u8;
        assert((0u8 >> sh) & 1 == 0) by (bit_vector);
        assert(bits[j] == bit_at(s[j / 8], j % 8));
    }
    lemma_count_upto_none_eq(bits, 1, bits.len() as int);
}

proof fn lemma_count_partition_upto(bits: Seq<u8>, m: int)
    requires
        0 <= m <= bits.len(),
        forall|j: int| 0 <= j < bits.len() ==> bits[j] == 0 || bits[j] == 1,
    ensures
        count_eq_upto(bits, 0, m) + count_eq_upto(bits, 1, m) == m,
    decreases m,
{
    if m > 0 {
        lemma_count_partition_upto(bits, m - 1);
    }
}

/// Partition law for single-bit sequences: the 0 tally and the 1 tally sum
/// to the length, so either tally determines the other.
pub proof fn lemma_bit_counts_partition(bits: Seq<u8>)
    requires
        forall|j: int| 0 <= j < bits.len() ==> bits[j] == 0 || bits[j] == 1,
    ensures
        count_eq(bits, 0) + count_eq(bits, 1) == bits.len(),
{
    lemma_count_partition_upto(bits, bits.len() as int);
}

/// Lag-set law: once the bit length reaches 16 (every analyzable buffer of
/// at least two bytes does), all six lag candidates lie strictly below the
/// bit length, so the lag filter keeps every candidate and the score
/// sequence has exactly 5 + 6 entries.
pub proof fn lemma_lag_seq_keeps_all(bitlen: int)
    requires
        bitlen >= 16,
    ensures
        lag_seq(bitlen) == lag_candidates(bitlen),
        lag_seq(bitlen).len() == 6,
{
    let c = lag_candidates(bitlen);
    assert(bitlen / 10 < bitlen && bitlen / 4 < bitlen && bitlen / 2 < bitlen) by (nonlinear_arith)
        requires
            bitlen >= 16,
    ;
    let s0: Seq<int> = seq![];
    let s1: Seq<int> = seq![1];
    let s2: Seq<int> = seq![1, 4];
    let s3: Seq<int> = seq![1, 4, 8];
    let s4: Seq<int> = seq![1, 4, 8, bitlen / 10];
    let s5: Seq<int> = seq![1, 4, 8, bitlen / 10, bitlen / 4];
    assert(c.drop_last() =~= s5);
    assert(s5.drop_last() =~= s4);
    assert(s4.drop_last() =~= s3);
    assert(s3.drop_last() =~= s2);
    assert(s2.drop_last() =~= s1);
    assert(s1.drop_last() =~= s0);
    assert(keep_lags(s0, bitlen) =~= s0);
    assert(keep_lags(s1, bitlen) =~= s1);
    assert(keep_lags(s2, bitlen) =~= s2);
    assert(keep_lags(s3, bitlen) =~= s3);
    assert(keep_lags(s4, bitlen) =~= s4);
    assert(keep_lags(s5, bitlen) =~= s5);
    assert(keep_lags(c, bitlen) =~= c);
}

} // verus!
