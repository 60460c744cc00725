//! A battery of statistical randomness indicators over a byte buffer.
//!
//! The library computes, for an input byte sequence, the exact discrete
//! statistics behind six randomness estimators: a Shannon entropy histogram,
//! a monobit (frequency) tally, a run count, a pairwise (serial) window
//! tally, a bitwise zero/one tally, and lag-based autocorrelation tallies.
//! Every statistic is an integer and is verified exactly; the floating-point
//! normalization of each statistic into a Z-score is a thin numeric step
//! that a caller performs on the returned [`Score`] values.

mod analyzer;
mod bitstream;
mod laws;
mod score;
mod tallies;

pub use analyzer::Discombobugraph;
pub use bitstream::{bit_at, bits_of};
pub use score::{
    is_auto_score, is_chi_square_score, is_entropy_score, is_frequency_score, is_runs_score,
    is_serial_score, lag_candidates, lag_seq, keep_lags, AnalysisError, Score,
};
pub use tallies::{
    and_pairs, and_pairs_upto, count_eq, count_eq_upto, count_pair, count_pair_upto, pair_key,
    runs_of, runs_upto, serial_distinct_upto, serial_sum_sq_upto, serial_sum_upto, vec_sum_upto,
};
pub use laws::{
    lemma_bit_counts_partition, lemma_bits_of_zero_bytes, lemma_count_constant,
    lemma_frequency_all_ones, lemma_frequency_alternating, lemma_lag_seq_keeps_all,
    lemma_runs_alternating,
};
