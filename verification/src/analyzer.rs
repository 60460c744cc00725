use vstd::prelude::*;

use crate::bitstream::{bit_at, bits_of};
use crate::score::{is_auto_score, is_chi_square_score, is_entropy_score, is_frequency_score,
    is_runs_score, is_serial_score, lag_candidates, lag_seq, keep_lags, AnalysisError, Score};
use crate::tallies::{and_pairs_upto, count_eq_upto, count_pair, count_pair_upto,
    lemma_serial_sum_sq_le_sq, lemma_serial_sum_upto_monotone,
    lemma_vec_sum_matches_serial_sum, lemma_vec_sum_upto_update, lemma_zero_vec_sums, pair_key,
    runs_upto, serial_distinct_upto, serial_sum_sq_upto, serial_sum_upto, vec_sum_upto};

verus! {

/// The stateless analyzer: it derives the lag set from a buffer's bit length
/// and evaluates the battery of estimators over the buffer in a fixed order.
pub struct Discombobugraph;

impl Discombobugraph {
    /// A fresh analyzer; it carries no state.
    pub fn new() -> Discombobugraph {
        Discombobugraph
    }

    /// Expands a byte sequence into its bit sequence, most significant bit
    /// first within each byte, so the result is eight times as long.
    pub fn to_bitstream(&self, input: &Vec<u8>) -> (r: Vec<u8>)
        ensures
            r@ == bits_of(input@),
    {
        let len = input.len();
        let mut out: Vec<u8> = Vec::new();
        let mut i: usize = 0;
        while i < len
            invariant
                i <= len,
                len == input@.len(),
                out@.len() == 8 * (i as int),
                forall|j: int| 0 <= j < out@.len() ==> out@[j] == bit_at(input@[j / 8], j % 8),
            decreases len - i,
        {
            let byte = input[i];
            let mut k: usize = 0;
            while k < 8
                invariant
                    k <= 8,
                    i < len,
                    len == input@.len(),
                    byte == input@[i as int],
                    out@.len() == 8 * (i as int) + k,
                    forall|j: int| 0 <= j < out@.len() ==> out@[j] == bit_at(input@[j / 8], j % 8),
                decreases 8 - k,
            {
                let sh: u8 = (7 - k) as u8;
                let bit: u8 = (byte >> sh) & 1;
                proof {
                    let j = out@.len() as int;
                    assert(j / 8 == i as int && j % 8 == k as int) by (nonlinear_arith)
                        requires
                            j == 8 * (i as int) + (k as int),
                            0 <= k < 8,
                            0 <= i,
                    ;
                    assert(bit == bit_at(input@[i as int], k as int));
                }
                out.push(bit);
                k = k + 1;
            }
            i = i + 1;
        }
        proof {
            assert(out@ =~= bits_of(input@));
        }
        out
    }

    /// Monobit (frequency) test tallies over a byte-as-bit sequence: each
    /// byte is one binary sample, value 1 counting as +1 and any other value
    /// as -1; the score is the absolute signed sum over the square root of
    /// the length.
    pub fn frequency_test(&self, bitstream: &Vec<u8>) -> (r: Score)
        requires
            bitstream@.len() > 0,
        ensures
            is_frequency_score(r, bitstream@),
    {
        let len = bitstream.len();
        let mut ones: usize = 0;
        let mut i: usize = 0;
        while i < len
            invariant
                i <= len,
                len == bitstream@.len(),
                ones as nat == count_eq_upto(bitstream@, 1, i as int),
                ones <= i,
            decreases len - i,
        {
            if bitstream[i] == 1 {
                ones = ones + 1;
            }
            i = i + 1;
        }
        Score::Frequency { ones, len }
    }

    /// Runs test tallies over a byte-as-bit sequence: the number of maximal
    /// constant runs, with the documented degenerate sentinel when every
    /// sample is 1 or none is (the expected run count would be zero).
    pub fn runs_test(&self, bitstream: &Vec<u8>) -> (r: Score)
        requires
            bitstream@.len() > 0,
        ensures
            is_runs_score(r, bitstream@),
    {
        let len = bitstream.len();
        let mut ones: usize = 0;
        let mut i: usize = 0;
        while i < len
            invariant
                i <= len,
                len == bitstream@.len(),
                ones as nat == count_eq_upto(bitstream@, 1, i as int),
                ones <= i,
            decreases len - i,
        {
            if bitstream[i] == 1 {
                ones = ones + 1;
            }
            i = i + 1;
        }
        if ones == 0 || ones == len {
            return Score::Zero;
        }
        let mut runs: usize = 1;
        let mut j: usize = 1;
        while j < len
            invariant
                1 <= j <= len,
                len == bitstream@.len(),
                runs as nat == runs_upto(bitstream@, j as int),
                runs <= j,
            decreases len - j,
        {
            if bitstream[j] != bitstream[j - 1] {
                runs = runs + 1;
            }
            j = j + 1;
        }
        Score::Runs { runs, ones, len }
    }

    /// Bitwise chi-square tallies: the number of 1 bits across the expanded
    /// bit sequence (the number of 0 bits is the remainder), each compared
    /// by the score formula against the uniform expectation of half the bit
    /// length.
    pub fn chi_square_test(&self, bitstream: &Vec<u8>) -> (r: Score)
        requires
            bitstream@.len() > 0,
        ensures
            is_chi_square_score(r, bitstream@),
    {
        let bits = self.to_bitstream(bitstream);
        let len = bits.len();
        let mut ones: usize = 0;
        let mut i: usize = 0;
        while i < len
            invariant
                i <= len,
                bits@ == bits_of(bitstream@),
                len == bits@.len(),
                ones as nat == count_eq_upto(bits@, 1, i as int),
                ones <= i,
            decreases len - i,
        {
            if bits[i] == 1 {
                ones = ones + 1;
            }
            i = i + 1;
        }
        proof {
            crate::bitstream::lemma_bits_of_binary(bitstream@);
            crate::laws::lemma_bit_counts_partition(bits_of(bitstream@));
        }
        Score::ChiSquare { ones, len }
    }

    /// Autocorrelation tallies at one lag over the expanded bit sequence:
    /// the number of offsets whose bit and whose bit `lag` later are both 1,
    /// and the number of 1 bits. A lag at or beyond the bit length, and a
    /// 1-bit frequency of 0 or 1, give the degenerate sentinel.
    pub fn autocorrelation_test(&self, bitstream: &Vec<u8>, lag: usize) -> (r: Score)
        ensures
            is_auto_score(r, bitstream@, lag as int),
    {
        let bits = self.to_bitstream(bitstream);
        let len = bits.len();
        if lag >= len {
            return Score::Zero;
        }
        let mut ones: usize = 0;
        let mut i: usize = 0;
        while i < len
            invariant
                i <= len,
                bits@ == bits_of(bitstream@),
                len == bits@.len(),
                ones as nat == count_eq_upto(bits@, 1, i as int),
                ones <= i,
            decreases len - i,
        {
            if bits[i] == 1 {
                ones = ones + 1;
            }
            i = i + 1;
        }
        if ones == 0 || ones == len {
            return Score::Zero;
        }
        let span = len - lag;
        let mut and_count: usize = 0;
        let mut j: usize = 0;
        while j < span
            invariant
                j <= span,
                span == len - lag,
                lag < len,
                bits@ == bits_of(bitstream@),
                len == bits@.len(),
                and_count as nat == and_pairs_upto(bits@, lag as int, j as int),
                and_count <= j,
            decreases span - j,
        {
            if bits[j] == 1 && bits[j + lag] == 1 {
                and_count = and_count + 1;
            }
            j = j + 1;
        }
        Score::Auto { and_count, ones, len }
    }

    /// Serial (n-gram) test tallies over a byte-as-symbol sequence, for the
    /// battery's window size of 2: the sum of squared per-window counts, the
    /// number of distinct windows, and the total window count, over all
    /// 65536 byte-pair buckets. The chi-square score compares each observed
    /// window count against the uniform expectation `windows / 4`, a formula
    /// that is statistically meaningful only for samples restricted to
    /// {0, 1}.
    pub fn serial_test(&self, bitstream: &Vec<u8>, n: usize) -> (r: Score)
        requires
            n == 2,
            bitstream@.len() >= n,
        ensures
            is_serial_score(r, bitstream@),
    {
        let ghost s = bitstream@;
        let len = bitstream.len();
        let mut counts: Vec<usize> = Vec::new();
        let mut v: usize = 0;
        while v < 65536
            invariant
                v <= 65536,
                counts@.len() == v,
                forall|k: int| 0 <= k < v ==> counts@[k] == 0,
            decreases 65536 - v,
        {
            counts.push(0);
            v = v + 1;
        }
        proof {
            lemma_zero_vec_sums(counts@, 65536);
        }
        let windows = len - n + 1;
        let mut i: usize = 0;
        while i < windows
            invariant
                i <= windows,
                windows == len - 1,
                len == s.len(),
                len >= 2,
                s == bitstream@,
                counts@.len() == 65536,
                forall|k: int| 0 <= k < 65536 ==> counts@[k] as nat == count_pair_upto(s, k, i as int),
                forall|k: int| 0 <= k < 65536 ==> counts@[k] <= i,
                vec_sum_upto(counts@, 65536) == i,
            decreases windows - i,
        {
            let a = bitstream[i];
            let b = bitstream[i + 1];
            let key: usize = (a as usize) * 256 + (b as usize);
            proof {
                assert(key as int == pair_key(a, b));
                assert(0 <= key < 65536);
            }
            let c = counts[key];
            let ghost old_counts = counts@;
            counts.set(key, c + 1);
            proof {
                lemma_vec_sum_upto_update(old_counts, 65536, key as int, (c + 1) as usize);
                assert forall|k: int|
                    0 <= k < 65536 implies counts@[k] as nat == count_pair_upto(
                    s,
                    k,
                    i as int + 1,
                ) by {
                    if k == key as int {
                        assert(pair_key(s[i as int], s[i as int + 1]) == k);
                    } else {
                        assert(pair_key(s[i as int], s[i as int + 1]) != k);
                        assert(counts@[k] == old_counts[k]);
                    }
                }
            }
            i = i + 1;
        }
        proof {
            lemma_vec_sum_matches_serial_sum(s, counts@, 65536);
            assert(serial_sum_upto(s, 65536) == windows);
        }
        let mut sum_sq: u128 = 0;
        let mut distinct: usize = 0;
        let mut seen: usize = 0;
        let mut j: usize = 0;
        while j < 65536
            invariant
                j <= 65536,
                counts@.len() == 65536,
                s == bitstream@,
                windows as int == s.len() - 1,
                s.len() >= 2,
                forall|k: int| 0 <= k < 65536 ==> counts@[k] as nat == count_pair(s, k),
                serial_sum_upto(s, 65536) == windows,
                sum_sq as nat == serial_sum_sq_upto(s, j as int),
                distinct as nat == serial_distinct_upto(s, j as int),
                seen as nat == serial_sum_upto(s, j as int),
                distinct <= j,
            decreases 65536 - j,
        {
            let c = counts[j];
            proof {
                let ji = j as int;
                assert(c as nat == count_pair(s, ji));
                lemma_serial_sum_upto_monotone(s, ji + 1, 65536);
                assert(seen + c == serial_sum_upto(s, ji + 1));
                assert(seen + c <= windows);
                lemma_serial_sum_sq_le_sq(s, ji + 1);
                let t = serial_sum_upto(s, ji + 1) as int;
                let w = windows as int;
                assert((c as int) * (c as int) <= t * t && t * t <= w * w) by (nonlinear_arith)
                    requires
                        0 <= c as int <= t <= w,
                ;
                assert(w <= u64::MAX as int);
                assert(w * w < 0x1_0000_0000_0000_0000_0000_0000_0000_0000) by (nonlinear_arith)
                    requires
                        0 <= w <= u64::MAX as int,
                ;
                assert(sum_sq + (c as int) * (c as int) <= t * t);
            }
            sum_sq = sum_sq + (c as u128) * (c as u128);
            if c > 0 {
                distinct = distinct + 1;
            }
            seen = seen + c;
            j = j + 1;
        }
        Score::Serial { sum_sq, distinct, windows }
    }

    /// Shannon entropy tallies: the 256-bucket histogram of byte values and
    /// the sample count, from which the deficiency score
    /// `1 - H / log2(len)` is computed. A buffer of length 0 or 1 has no
    /// meaningful maximal entropy (`log2(len) <= 0`) and is refused.
    pub fn shannon_entropy(&self, bitstream: &Vec<u8>) -> (r: Result<Score, AnalysisError>)
        ensures
            match r {
                Ok(sc) => bitstream@.len() > 1 && is_entropy_score(sc, bitstream@),
                Err(e) => bitstream@.len() <= 1 && e == AnalysisError::InvalidInput,
            },
    {
        let len = bitstream.len();
        if len <= 1 {
            return Err(AnalysisError::InvalidInput);
        }
        let mut counts: Vec<usize> = Vec::new();
        let mut v: usize = 0;
        while v < 256
            invariant
                v <= 256,
                counts@.len() == v,
                forall|k: int| 0 <= k < v ==> counts@[k] == 0,
            decreases 256 - v,
        {
            counts.push(0);
            v = v + 1;
        }
        proof {
            lemma_zero_vec_sums(counts@, 256);
        }
        let mut i: usize = 0;
        while i < len
            invariant
                i <= len,
                len == bitstream@.len(),
                counts@.len() == 256,
                forall|k: int|
                    0 <= k < 256 ==> counts@[k] as nat == count_eq_upto(bitstream@, k as u8, i as int),
                forall|k: int| 0 <= k < 256 ==> counts@[k] <= i,
                vec_sum_upto(counts@, 256) == i,
            decreases len - i,
        {
            let b = bitstream[i];
            let idx: usize = b as usize;
            let c = counts[idx];
            let ghost old_counts = counts@;
            counts.set(idx, c + 1);
            proof {
                lemma_vec_sum_upto_update(old_counts, 256, idx as int, (c + 1) as usize);
                assert forall|k: int|
                    0 <= k < 256 implies counts@[k] as nat == count_eq_upto(
                    bitstream@,
                    k as u8,
                    i as int + 1,
                ) by {
                    if k == idx as int {
                        assert(bitstream@[i as int] == k as u8);
                    } else {
                        assert(bitstream@[i as int] != k as u8);
                        assert(counts@[k] == old_counts[k]);
                    }
                }
            }
            i = i + 1;
        }
        Ok(Score::Entropy { counts, len })
    }

    /// Runs the whole battery over a buffer. A buffer of fewer than two
    /// samples is refused before any estimator runs; on a valid buffer the
    /// result is the fixed-schema score sequence: entropy, frequency, runs,
    /// serial (window size 2) and chi-square tallies, followed by one
    /// autocorrelation entry per derived lag, in lag-set order, with the
    /// degenerate sentinel standing in for any lag the filter did not
    /// already exclude.
    pub fn run(&self, bitstream: Vec<u8>) -> (r: Result<Vec<Score>, AnalysisError>)
        ensures
            match r {
                Ok(scores) => {
                    let s = bitstream@;
                    let lags = lag_seq(s.len() * 8 as int);
                    &&& s.len() >= 2
                    &&& scores@.len() == 5 + lags.len()
                    &&& is_entropy_score(scores@[0], s)
                    &&& is_frequency_score(scores@[1], s)
                    &&& is_runs_score(scores@[2], s)
                    &&& is_serial_score(scores@[3], s)
                    &&& is_chi_square_score(scores@[4], s)
                    &&& forall|j: int|
                        0 <= j < lags.len() ==> is_auto_score(scores@[5 + j], s, lags[j])
                },
                Err(e) => bitstream@.len() < 2 && e == AnalysisError::InvalidInput,
            },
    {
        if bitstream.len() < 2 {
            return Err(AnalysisError::InvalidInput);
        }
        let ghost s = bitstream@;
        let bits = self.to_bitstream(&bitstream);
        let bl = bits.len();
        let ghost blen: int = s.len() * 8 as int;
        proof {
            assert(bl as int == blen);
        }
        let mut cands: Vec<usize> = Vec::new();
        cands.push(1);
        cands.push(4);
        cands.push(8);
        cands.push(bl / 10);
        cands.push(bl / 4);
        cands.push(bl / 2);
        proof {
            assert forall|idx: int| 0 <= idx < 6 implies cands@[idx] as int == lag_candidates(
                blen,
            )[idx] by {
                assert(cands@[0] == 1usize && cands@[1] == 4usize && cands@[2] == 8usize);
                assert(cands@[3] == bl / 10 && cands@[4] == bl / 4 && cands@[5] == bl / 2);
            }
        }
        let mut lags: Vec<usize> = Vec::new();
        let mut t: usize = 0;
        while t < 6
            invariant
                t <= 6,
                cands@.len() == 6,
                bl as int == blen,
                forall|idx: int| 0 <= idx < 6 ==> cands@[idx] as int == lag_candidates(blen)[idx],
                ({
                    let kept = keep_lags(lag_candidates(blen).take(t as int), blen);
                    &&& lags@.len() == kept.len()
                    &&& forall|jj: int| 0 <= jj < kept.len() ==> lags@[jj] as int == kept[jj]
                }),
            decreases 6 - t,
        {
            let c = cands[t];
            proof {
                let cseq = lag_candidates(blen);
                assert(cseq.take(t as int + 1).drop_last() =~= cseq.take(t as int));
                assert(cseq.take(t as int + 1).last() == cseq[t as int]);
            }
            if c < bl {
                lags.push(c);
            }
            t = t + 1;
        }
        proof {
            assert(lag_candidates(blen).take(6) =~= lag_candidates(blen));
            assert(lags@.len() == lag_seq(blen).len());
            assert(forall|jj: int|
                0 <= jj < lags@.len() ==> lags@[jj] as int == lag_seq(blen)[jj]);
        }
        let mut scores: Vec<Score> = Vec::new();
        let entropy = match self.shannon_entropy(&bitstream) {
            Ok(sc) => sc,
            Err(_) => {
                return Err(AnalysisError::InvalidInput);
            },
        };
        scores.push(entropy);
        scores.push(self.frequency_test(&bitstream));
        scores.push(self.runs_test(&bitstream));
        scores.push(self.serial_test(&bitstream, 2));
        scores.push(self.chi_square_test(&bitstream));
        let nlags = lags.len();
        let mut q: usize = 0;
        while q < nlags
            invariant
                q <= nlags,
                s == bitstream@,
                s.len() >= 2,
                bl as int == blen,
                blen == s.len() * 8,
                nlags == lags@.len(),
                lags@.len() == lag_seq(blen).len(),
                forall|jj: int| 0 <= jj < lags@.len() ==> lags@[jj] as int == lag_seq(blen)[jj],
                scores@.len() == 5 + q,
                is_entropy_score(scores@[0], s),
                is_frequency_score(scores@[1], s),
                is_runs_score(scores@[2], s),
                is_serial_score(scores@[3], s),
                is_chi_square_score(scores@[4], s),
                forall|jj: int| 0 <= jj < q ==> is_auto_score(scores@[5 + jj], s, lag_seq(blen)[jj]),
            decreases nlags - q,
        {
            let lag = lags[q];
            if lag < bl {
                scores.push(self.autocorrelation_test(&bitstream, lag));
            } else {
                proof {
                    assert(bits_of(s).len() == blen);
                }
                scores.push(Score::Zero);
            }
            q = q + 1;
        }
        Ok(scores)
    }
}

} // verus!
