use discombobugraph::{AnalysisError, Discombobugraph, Score};

/// The floating-point value of one score, computed from its exact integer
/// statistics by the battery's closed formulas.
fn score_value(s: &Score) -> f64 {
    match s {
        Score::Zero => 0.0,
        Score::Entropy { counts, len } => {
            let n = *len as f64;
            let mut h = 0.0;
            for &c in counts.iter() {
                if c > 0 {
                    let p = c as f64 / n;
                    h -= p * p.log2();
                }
            }
            1.0 - h / n.log2()
        }
        Score::Frequency { ones, len } => {
            let sum = 2.0 * (*ones as f64) - (*len as f64);
            sum.abs() / (*len as f64).sqrt()
        }
        Score::Runs { runs, ones, len } => {
            let n = *len as f64;
            let pi = *ones as f64 / n;
            let expected = 2.0 * n * pi * (1.0 - pi);
            ((*runs as f64 - expected).abs() / expected.sqrt()).abs()
        }
        Score::Serial {
            sum_sq,
            distinct,
            windows,
        } => {
            let t = *windows as f64;
            let e = t / 4.0;
            (*sum_sq as f64) / e - 2.0 * t + (*distinct as f64) * e
        }
        Score::ChiSquare { ones, len } => {
            let n = *len as f64;
            let e = n / 2.0;
            let zeros = (*len - *ones) as f64;
            let o = *ones as f64;
            (zeros - e) * (zeros - e) / e + (o - e) * (o - e) / e
        }
        Score::Auto {
            and_count,
            ones,
            len,
        } => {
            let nn = *len as f64;
            let f_and = *and_count as f64 / nn;
            let f_bias = *ones as f64 / nn;
            let z = if f_bias * f_bias <= 0.0 || f_bias >= 1.0 {
                0.0
            } else {
                (f_and - f_bias * f_bias) / (f_bias * (1.0 - f_bias)).sqrt()
            };
            z * nn.sqrt()
        }
    }
}

#[test]
fn bit_expander_example() {
    let a = Discombobugraph::new();
    let bits = a.to_bitstream(&vec![0b1011_0010u8]);
    assert_eq!(bits, vec![1, 0, 1, 1, 0, 0, 1, 0]);
}

#[test]
fn bit_expander_empty() {
    let a = Discombobugraph::new();
    let bits = a.to_bitstream(&vec![]);
    assert!(bits.is_empty());
}

#[test]
fn bit_expander_two_bytes() {
    let a = Discombobugraph::new();
    let bits = a.to_bitstream(&vec![0xFFu8, 0x00u8]);
    assert_eq!(
        bits,
        vec![1, 1, 1, 1, 1, 1, 1, 1, 0, 0, 0, 0, 0, 0, 0, 0]
    );
}

#[test]
fn frequency_all_ones_is_sqrt_len() {
    let a = Discombobugraph::new();
    let score = a.frequency_test(&vec![1u8; 9]);
    assert_eq!(score, Score::Frequency { ones: 9, len: 9 });
    assert_eq!(score_value(&score), 3.0);
}

#[test]
fn frequency_alternating_is_zero() {
    let a = Discombobugraph::new();
    let score = a.frequency_test(&vec![1u8, 0, 1, 0]);
    assert_eq!(score, Score::Frequency { ones: 2, len: 4 });
    assert_eq!(score_value(&score), 0.0);
}

#[test]
fn runs_alternating_is_maximal() {
    let a = Discombobugraph::new();
    let score = a.runs_test(&vec![1u8, 0, 1, 0, 1]);
    assert_eq!(
        score,
        Score::Runs {
            runs: 5,
            ones: 3,
            len: 5
        }
    );
    let expected = (5.0f64 - 2.0 * 5.0 * (3.0 / 5.0) * (1.0 - 3.0 / 5.0)).abs()
        / (2.0f64 * 5.0 * (3.0 / 5.0) * (1.0 - 3.0 / 5.0)).sqrt();
    assert!((score_value(&score) - expected).abs() < 1e-12);
}

#[test]
fn runs_constant_is_degenerate_sentinel() {
    let a = Discombobugraph::new();
    assert_eq!(a.runs_test(&vec![1u8, 1, 1, 1]), Score::Zero);
    assert_eq!(a.runs_test(&vec![0u8, 0, 0]), Score::Zero);
    assert_eq!(score_value(&a.runs_test(&vec![7u8, 7])), 0.0);
}

#[test]
fn entropy_short_input_is_invalid() {
    let a = Discombobugraph::new();
    assert_eq!(
        a.shannon_entropy(&vec![]),
        Err(AnalysisError::InvalidInput)
    );
    assert_eq!(
        a.shannon_entropy(&vec![7u8]),
        Err(AnalysisError::InvalidInput)
    );
}

#[test]
fn entropy_two_distinct_bytes_has_zero_deficiency() {
    let a = Discombobugraph::new();
    let score = a.shannon_entropy(&vec![0xFFu8, 0x00u8]).unwrap();
    match &score {
        Score::Entropy { counts, len } => {
            assert_eq!(*len, 2);
            assert_eq!(counts.len(), 256);
            assert_eq!(counts[0xFF], 1);
            assert_eq!(counts[0x00], 1);
            assert_eq!(counts.iter().sum::<usize>(), 2);
        }
        _ => panic!("expected entropy statistics"),
    }
    assert_eq!(score_value(&score), 0.0);
}

#[test]
fn entropy_deficiency_stays_in_unit_interval() {
    let a = Discombobugraph::new();
    for input in [
        vec![1u8, 2, 3, 250],
        vec![9u8, 9, 9, 9],
        vec![0u8, 255],
        vec![5u8; 100],
        (0u8..=255).collect::<Vec<u8>>(),
    ] {
        let score = a.shannon_entropy(&input).unwrap();
        let d = score_value(&score);
        assert!((0.0..=1.0).contains(&d), "deficiency {d} out of range");
    }
}

#[test]
fn entropy_constant_buffer_has_maximal_deficiency() {
    let a = Discombobugraph::new();
    let score = a.shannon_entropy(&vec![9u8, 9, 9, 9]).unwrap();
    assert_eq!(score_value(&score), 1.0);
}

#[test]
fn serial_pairs_exact() {
    let a = Discombobugraph::new();
    let score = a.serial_test(&vec![1u8, 0, 1], 2);
    assert_eq!(
        score,
        Score::Serial {
            sum_sq: 2,
            distinct: 2,
            windows: 2
        }
    );
    assert_eq!(score_value(&score), 1.0);
}

#[test]
fn serial_repeated_pair() {
    let a = Discombobugraph::new();
    // Windows: (5,5) three times.
    let score = a.serial_test(&vec![5u8, 5, 5, 5], 2);
    assert_eq!(
        score,
        Score::Serial {
            sum_sq: 9,
            distinct: 1,
            windows: 3
        }
    );
    // chi2 = (3 - 0.75)^2 / 0.75 = 6.75
    assert!((score_value(&score) - 6.75).abs() < 1e-12);
}

#[test]
fn chi_square_all_zero_bytes() {
    let a = Discombobugraph::new();
    let score = a.chi_square_test(&vec![0u8, 0]);
    assert_eq!(score, Score::ChiSquare { ones: 0, len: 16 });
    // Observed {0: 16, 1: 0} against expectation 8 each: (16-8)^2/8 * 2 = 16.
    assert_eq!(score_value(&score), 16.0);
}

#[test]
fn autocorrelation_lag_at_or_beyond_bit_length_is_zero() {
    let a = Discombobugraph::new();
    assert_eq!(a.autocorrelation_test(&vec![0xABu8], 8), Score::Zero);
    assert_eq!(a.autocorrelation_test(&vec![0xABu8], 100), Score::Zero);
    assert_eq!(a.autocorrelation_test(&vec![], 0), Score::Zero);
    assert_eq!(a.autocorrelation_test(&vec![1u8, 2, 3], 24), Score::Zero);
    assert_eq!(
        score_value(&a.autocorrelation_test(&vec![0x55u8, 0x55], 16)),
        0.0
    );
}

#[test]
fn autocorrelation_exact_tallies() {
    let a = Discombobugraph::new();
    // Bits: 11111111 00000000; lag 1 pairs both-1 at offsets 0..7 except 7.
    let score = a.autocorrelation_test(&vec![0xFFu8, 0x00u8], 1);
    assert_eq!(
        score,
        Score::Auto {
            and_count: 7,
            ones: 8,
            len: 16
        }
    );
    // f_and = 7/16, f_bias = 1/2: (7/16 - 1/4) / sqrt(1/4) * 4 = 1.5.
    assert_eq!(score_value(&score), 1.5);
}

#[test]
fn autocorrelation_degenerate_bias_is_zero() {
    let a = Discombobugraph::new();
    assert_eq!(a.autocorrelation_test(&vec![0u8, 0], 1), Score::Zero);
    assert_eq!(a.autocorrelation_test(&vec![0xFFu8, 0xFF], 3), Score::Zero);
}

#[test]
fn run_refuses_short_buffers() {
    let a = Discombobugraph::new();
    assert_eq!(a.run(vec![]), Err(AnalysisError::InvalidInput));
    assert_eq!(a.run(vec![42u8]), Err(AnalysisError::InvalidInput));
}

#[test]
fn run_schema_is_fixed() {
    let a = Discombobugraph::new();
    for input in [
        vec![0xFFu8, 0x00],
        vec![1u8, 0, 1],
        vec![7u8; 10],
        (0u8..100).collect::<Vec<u8>>(),
    ] {
        let scores = a.run(input).unwrap();
        // Six lag candidates, all below the bit length: 5 + 6 entries.
        assert_eq!(scores.len(), 11);
        assert!(matches!(scores[0], Score::Entropy { .. }));
        assert!(matches!(scores[1], Score::Frequency { .. }));
        assert!(matches!(
            scores[2],
            Score::Runs { .. } | Score::Zero
        ));
        assert!(matches!(scores[3], Score::Serial { .. }));
        assert!(matches!(scores[4], Score::ChiSquare { .. }));
        for sc in &scores[5..] {
            assert!(matches!(sc, Score::Auto { .. } | Score::Zero));
        }
    }
}

#[test]
fn end_to_end_ff00() {
    let a = Discombobugraph::new();
    let scores = a.run(vec![0xFFu8, 0x00]).unwrap();
    assert_eq!(scores.len(), 11);

    // Entropy: two distinct byte values, one each: deficiency exactly 0.
    assert_eq!(score_value(&scores[0]), 0.0);

    // Bit length 16: derived lags are [1, 4, 8, 16/10, 16/4, 16/2]
    // = [1, 4, 8, 1, 4, 8]; duplicates are kept.
    // Lag 1: bits transition exactly once, and-count 7 of 8 ones.
    assert_eq!(
        scores[5],
        Score::Auto {
            and_count: 7,
            ones: 8,
            len: 16
        }
    );
    assert_eq!(score_value(&scores[5]), 1.5);
    // The duplicate lag 1 entry computes the same tallies.
    assert_eq!(scores[8], scores[5]);

    // Lag 8: every 1 bit pairs with a 0 bit: and-count 0.
    assert_eq!(
        scores[7],
        Score::Auto {
            and_count: 0,
            ones: 8,
            len: 16
        }
    );
    assert_eq!(scores[10], scores[7]);
}

#[test]
fn run_all_zero_buffer_has_degenerate_autocorrelation() {
    let a = Discombobugraph::new();
    let scores = a.run(vec![0u8, 0]).unwrap();
    assert_eq!(scores.len(), 11);
    // Runs over byte-as-bit samples [0, 0]: no 1 samples, degenerate.
    assert_eq!(scores[2], Score::Zero);
    // Every autocorrelation entry is degenerate: no 1 bits at all.
    for sc in &scores[5..] {
        assert_eq!(*sc, Score::Zero);
    }
    // Chi-square tallies: all 16 bits are 0.
    assert_eq!(scores[4], Score::ChiSquare { ones: 0, len: 16 });
}
