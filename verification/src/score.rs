use vstd::prelude::*;

use crate::bitstream::bits_of;
use crate::tallies::{and_pairs, count_eq, runs_of, serial_distinct_upto,
    serial_sum_sq_upto, serial_sum_upto, vec_sum_upto};

verus! {

/// Why an analysis was refused as a whole.
#[derive(Clone, Copy, PartialEq, Eq, Structural, Debug)]
pub enum AnalysisError {
    /// The buffer is too short to analyze.
    InvalidInput,
}

/// The exact discrete statistics behind one score of the battery.
///
/// Each variant holds the integer tallies from which the corresponding
/// floating-point score is computed by a single closed formula; `Zero` is the
/// documented degenerate-statistic sentinel and stands for the score 0.0
/// (a zero-variance normalizer, or an autocorrelation lag at or beyond the
/// bit length).
#[derive(PartialEq, Debug)]
pub enum Score {
    /// Shannon entropy deficiency: a 256-bucket byte histogram and the
    /// sample count. The score is `1 - H / log2(len)` with
    /// `H = -sum(p * log2(p))` over the nonzero buckets.
    Entropy { counts: Vec<usize>, len: usize },
    /// Monobit test: the number of samples equal to 1 and the sample count.
    /// The score is `|2 * ones - len| / sqrt(len)`.
    Frequency { ones: usize, len: usize },
    /// Runs test: the number of maximal constant runs, the number of samples
    /// equal to 1, and the sample count. The score is
    /// `|runs - e| / sqrt(e)` with `e = 2 * len * pi * (1 - pi)` and
    /// `pi = ones / len`.
    Runs { runs: usize, ones: usize, len: usize },
    /// Serial (pair) test: the sum of squared window counts, the number of
    /// distinct windows, and the window count. The score is the chi-square
    /// statistic `sum((c - e)^2 / e)` over the observed windows with
    /// `e = windows / 4`, which equals `sum_sq / e - 2 * windows +
    /// distinct * e`.
    Serial { sum_sq: u128, distinct: usize, windows: usize },
    /// Bitwise chi-square: the number of 1 bits and the bit count (the
    /// number of 0 bits is their difference). The score is
    /// `(zeros - e)^2 / e + (ones - e)^2 / e` with `e = len / 2`.
    ChiSquare { ones: usize, len: usize },
    /// Autocorrelation at one lag: the number of offsets where the bit and
    /// the bit `lag` later are both 1, the number of 1 bits, and the bit
    /// count. The score is `(f_and - f_bias^2) / sqrt(f_bias * (1 - f_bias))
    /// * sqrt(len)` with `f_and = and_count / len` and `f_bias = ones / len`.
    Auto { and_count: usize, ones: usize, len: usize },
    /// Degenerate-statistic sentinel: the score is 0.0 by convention.
    Zero,
}

/// `sc` holds the exact entropy statistics of `s`: a full 256-bucket
/// histogram of the byte values and the sample count; the buckets sum to the
/// sample count, so the empirical probabilities they induce sum to 1.
pub open spec fn is_entropy_score(sc: Score, s: Seq<u8>) -> bool {
    match sc {
        Score::Entropy { counts, len } => {
            &&& counts@.len() == 256
            &&& forall|v: int| 0 <= v < 256 ==> counts@[v] as nat == count_eq(s, v as u8)
            &&& vec_sum_upto(counts@, 256) == s.len()
            &&& len as nat == s.len()
        },
        _ => false,
    }
}

/// `sc` holds the exact monobit statistics of `s`, each sample a byte read
/// as one binary value (1 counts as +1, anything else as -1).
pub open spec fn is_frequency_score(sc: Score, s: Seq<u8>) -> bool {
    match sc {
        Score::Frequency { ones, len } => {
            &&& ones as nat == count_eq(s, 1)
            &&& len as nat == s.len()
        },
        _ => false,
    }
}

/// `sc` holds the exact runs statistics of `s`, or is the degenerate
/// sentinel exactly when every sample is 1 or none is (a zero expected run
/// count).
pub open spec fn is_runs_score(sc: Score, s: Seq<u8>) -> bool {
    if count_eq(s, 1) == 0 || count_eq(s, 1) == s.len() {
        sc == Score::Zero
    } else {
        match sc {
            Score::Runs { runs, ones, len } => {
                &&& runs as nat == runs_of(s)
                &&& ones as nat == count_eq(s, 1)
                &&& len as nat == s.len()
            },
            _ => false,
        }
    }
}

/// `sc` holds the exact pair-window statistics of `s`: the sum of squared
/// per-bucket window counts, the number of distinct windows, and the total
/// window count, over all 65536 byte-pair buckets; the per-bucket counts sum
/// to the window count, so the buckets cover every window exactly once.
pub open spec fn is_serial_score(sc: Score, s: Seq<u8>) -> bool {
    match sc {
        Score::Serial { sum_sq, distinct, windows } => {
            &&& sum_sq as nat == serial_sum_sq_upto(s, 65536)
            &&& distinct as nat == serial_distinct_upto(s, 65536)
            &&& windows as nat == serial_sum_upto(s, 65536)
            &&& windows as int == s.len() - 1
        },
        _ => false,
    }
}

/// `sc` holds the exact bitwise tallies of `s` after expansion to bits: the
/// 1-bit tally, with the 0-bit tally pinned as the remainder of the bit
/// length.
pub open spec fn is_chi_square_score(sc: Score, s: Seq<u8>) -> bool {
    match sc {
        Score::ChiSquare { ones, len } => {
            &&& ones as nat == count_eq(bits_of(s), 1)
            &&& ones as nat + count_eq(bits_of(s), 0) == bits_of(s).len()
            &&& len as nat == bits_of(s).len()
        },
        _ => false,
    }
}

/// `sc` holds the exact autocorrelation tallies of `s` at `lag`, or is the
/// degenerate sentinel exactly when the lag reaches the bit length or the
/// 1-bit frequency is 0 or 1 (no variance to normalize against).
pub open spec fn is_auto_score(sc: Score, s: Seq<u8>, lag: int) -> bool {
    let bits = bits_of(s);
    let ones = count_eq(bits, 1);
    if lag >= bits.len() || ones == 0 || ones == bits.len() {
        sc == Score::Zero
    } else {
        match sc {
            Score::Auto { and_count, ones: o, len } => {
                &&& and_count as nat == and_pairs(bits, lag)
                &&& o as nat == ones
                &&& len as nat == bits.len()
            },
            _ => false,
        }
    }
}

/// The lag candidates derived from a bit length: three fixed lags and the
/// three derived fractions, in this order.
pub open spec fn lag_candidates(bitlen: int) -> Seq<int> {
    seq![1, 4, 8, bitlen / 10, bitlen / 4, bitlen / 2]
}

/// The candidates kept by the lag filter: those strictly below the bit
/// length, in candidate order, duplicates kept.
pub open spec fn keep_lags(cands: Seq<int>, bitlen: int) -> Seq<int>
    decreases cands.len(),
{
    if cands.len() == 0 {
        Seq::<int>::empty()
    } else {
        let rest = keep_lags(cands.drop_last(), bitlen);
        if cands.last() < bitlen {
            rest.push(cands.last())
        } else {
            rest
        }
    }
}

/// The lag set of a bit length: the filtered candidate sequence.
pub open spec fn lag_seq(bitlen: int) -> Seq<int> {
    keep_lags(lag_candidates(bitlen), bitlen)
}

} // verus!
