use harmonomino::agent::ScoringMode;
use harmonomino::decimal::{
    find_byte, is_text, parse_fixed, parse_unsigned, render_fixed, render_unsigned, trim,
};
use harmonomino::harmony::{sweep_base_config, sweep_configs, OptimizeConfig, SweepParam};
use harmonomino::seeds::{parse_seeds_csv, parse_seeds_lines, SeedsError};
use harmonomino::weights::{parse_weights, render_weights, WeightsError};

fn text(bytes: Vec<u8>) -> String {
    String::from_utf8(bytes).expect("ASCII")
}

#[test]
fn unsigned_integers_are_digits() {
    assert_eq!(parse_unsigned(b"0"), Some(0));
    assert_eq!(parse_unsigned(b"42"), Some(42));
    assert_eq!(parse_unsigned(b"+7"), Some(7));
    assert_eq!(parse_unsigned(b"007"), Some(7));
    assert_eq!(parse_unsigned(b"18446744073709551615"), Some(u64::MAX));
    assert_eq!(parse_unsigned(b"18446744073709551616"), None);
    assert_eq!(parse_unsigned(b"99999999999999999999999"), None);
    assert_eq!(parse_unsigned(b""), None);
    assert_eq!(parse_unsigned(b"+"), None);
    assert_eq!(parse_unsigned(b"-1"), None);
    assert_eq!(parse_unsigned(b"1a"), None);
    assert_eq!(parse_unsigned(b" 1"), None);
    assert_eq!(parse_unsigned(b"1.0"), None);
}

#[test]
fn decimals_are_read_in_millionths() {
    assert_eq!(parse_fixed(b"1"), Some(1_000_000));
    assert_eq!(parse_fixed(b"-1.5"), Some(-1_500_000));
    assert_eq!(parse_fixed(b"+0.000001"), Some(1));
    assert_eq!(parse_fixed(b".5"), Some(500_000));
    assert_eq!(parse_fixed(b"5."), Some(5_000_000));
    assert_eq!(parse_fixed(b"-0"), Some(0));
    assert_eq!(parse_fixed(b"0.95"), Some(950_000));
    // What follows the sixth digit after the point does not count.
    assert_eq!(parse_fixed(b"0.123456789"), Some(123_456));
    assert_eq!(parse_fixed(b"-0.9999999"), Some(-999_999));
    assert_eq!(parse_fixed(b"9223372036854.775807"), Some(i64::MAX));
    assert_eq!(parse_fixed(b"-9223372036854.775808"), Some(i64::MIN));
}

#[test]
fn what_is_no_decimal_is_not_read() {
    for bad in [
        "", ".", "+", "-", "1e3", "1.2.3", "--1", "1 ", " 1", "0x10", "inf", "nan", "1,5", "1.5a",
        "1.a5",
    ] {
        assert_eq!(parse_fixed(bad.as_bytes()), None, "{bad:?}");
    }
    assert_eq!(parse_fixed(b"9223372036854.775808"), None);
    assert_eq!(parse_fixed(b"-9223372036854.775809"), None);
    assert_eq!(parse_fixed(b"99999999999999999999999999"), None);
}

#[test]
fn numbers_are_written_with_six_digits_after_the_point() {
    assert_eq!(text(render_fixed(1_500_000)), "1.500000");
    assert_eq!(text(render_fixed(-1)), "-0.000001");
    assert_eq!(text(render_fixed(0)), "0.000000");
    assert_eq!(text(render_fixed(950_000)), "0.950000");
    assert_eq!(text(render_fixed(i64::MAX)), "9223372036854.775807");
    assert_eq!(text(render_fixed(i64::MIN)), "-9223372036854.775808");
    assert_eq!(text(render_unsigned(0)), "0");
    assert_eq!(text(render_unsigned(1234)), "1234");
    assert_eq!(text(render_unsigned(u64::MAX)), "18446744073709551615");
}

#[test]
fn what_is_written_is_read_back() {
    for value in [
        0i64,
        1,
        -1,
        999_999,
        1_000_000,
        -1_000_001,
        123_456_789,
        i64::MAX,
        i64::MIN,
        i64::MIN + 1,
    ] {
        assert_eq!(parse_fixed(&render_fixed(value)), Some(value));
    }
    for value in [0u64, 9, 10, 12345, u64::MAX] {
        assert_eq!(parse_unsigned(&render_unsigned(value)), Some(value));
    }
}

#[test]
fn bytes_are_found_trimmed_and_compared() {
    let line = b"  a,b \t\r";
    assert_eq!(find_byte(line, b',', 0, line.len()), 3);
    assert_eq!(find_byte(line, b',', 4, line.len()), line.len());
    assert_eq!(find_byte(line, b',', 0, 2), 2);
    assert_eq!(trim(line, 0, line.len()), (2, 5));
    assert_eq!(trim(line, 5, line.len()), (8, 8));
    assert_eq!(trim(b"   ", 0, 3), (3, 3));
    assert!(is_text(line, 2, 5, b"a,b"));
    assert!(!is_text(line, 2, 5, b"a,c"));
    assert!(!is_text(line, 2, 5, b"a,"));
}

#[test]
fn weights_are_written_under_their_header() {
    let mut weights = [0i64; 16];
    weights[0] = 1_500_000;
    weights[15] = -250_000;
    let written = text(render_weights(&weights, ScoringMode::HeuristicsOnly));
    let lines: Vec<&str> = written.split('\n').collect();
    assert_eq!(lines.len(), 18);
    assert_eq!(lines[0], "# scoring-mode: heuristics-only");
    assert_eq!(lines[1], "1.500000");
    assert_eq!(lines[2], "0.000000");
    assert_eq!(lines[16], "-0.250000");
    assert_eq!(lines[17], "");
}

#[test]
fn written_weights_are_read_back() {
    let mut weights = [0i64; 16];
    for (i, weight) in weights.iter_mut().enumerate() {
        *weight = (i as i64 - 7) * 1_234_567;
    }
    weights[3] = i64::MAX;
    weights[4] = i64::MIN;
    for mode in [
        ScoringMode::Full,
        ScoringMode::HeuristicsOnly,
        ScoringMode::RowsOnly,
    ] {
        let written = render_weights(&weights, mode);
        assert_eq!(parse_weights(&written), Ok((weights, mode)));
    }
}

#[test]
fn weights_are_read_past_comments_and_blank_lines() {
    let mut file = String::from("\n  \r\n# scoring-mode:   rows-only  \r\n# a comment\n");
    for i in 0..16 {
        file.push_str(&format!("  {i}.5 \r\n\n"));
    }
    file.push_str("#the end");
    let (weights, mode) = parse_weights(file.as_bytes()).expect("a weight vector");
    assert_eq!(mode, ScoringMode::RowsOnly);
    assert_eq!(weights[0], 500_000);
    assert_eq!(weights[15], 15_500_000);
}

#[test]
fn without_a_header_the_mode_is_full() {
    let file = "1\n".repeat(16);
    assert_eq!(
        parse_weights(file.as_bytes()),
        Ok(([1_000_000; 16], ScoringMode::Full))
    );
    // A header after the first line that holds something is a comment.
    let late = format!("1\n# scoring-mode: rows-only\n{}", "1\n".repeat(15));
    assert_eq!(
        parse_weights(late.as_bytes()),
        Ok(([1_000_000; 16], ScoringMode::Full))
    );
    // A header without a name is a comment too.
    let nameless = format!("# scoring-mode:\n{}", "2\n".repeat(16));
    assert_eq!(
        parse_weights(nameless.as_bytes()),
        Ok(([2_000_000; 16], ScoringMode::Full))
    );
}

#[test]
fn faulty_weight_files_are_refused() {
    let unknown = format!("# scoring-mode: fast\n{}", "1\n".repeat(16));
    assert_eq!(parse_weights(unknown.as_bytes()), Err(WeightsError::UnknownMode));
    // The unknown mode is found before the bad weight.
    let both = "# scoring-mode: fast\nabc\n";
    assert_eq!(parse_weights(both.as_bytes()), Err(WeightsError::UnknownMode));
    let bad = format!("{}x\n", "1\n".repeat(15));
    assert_eq!(parse_weights(bad.as_bytes()), Err(WeightsError::InvalidWeight));
    // The bad weight is found before the wrong count.
    assert_eq!(parse_weights(b"1\n2\nthree\n"), Err(WeightsError::InvalidWeight));
    let short = "1\n".repeat(15);
    assert_eq!(
        parse_weights(short.as_bytes()),
        Err(WeightsError::WrongCount { found: 15 })
    );
    let long = "1\n".repeat(17);
    assert_eq!(
        parse_weights(long.as_bytes()),
        Err(WeightsError::WrongCount { found: 17 })
    );
    assert_eq!(parse_weights(b""), Err(WeightsError::WrongCount { found: 0 }));
}

#[test]
fn seeds_are_read_between_commas() {
    assert_eq!(parse_seeds_csv(b"1,2,3"), Ok(vec![1, 2, 3]));
    assert_eq!(parse_seeds_csv(b" 4 , 5 "), Ok(vec![4, 5]));
    assert_eq!(parse_seeds_csv(b"18446744073709551615"), Ok(vec![u64::MAX]));
    assert_eq!(parse_seeds_csv(b""), Err(SeedsError::Empty));
    assert_eq!(parse_seeds_csv(b"  \t "), Err(SeedsError::Empty));
    assert_eq!(
        parse_seeds_csv(b"1,,2"),
        Err(SeedsError::InvalidSeed { start: 2, end: 2 })
    );
    assert_eq!(
        parse_seeds_csv(b"1,2,"),
        Err(SeedsError::InvalidSeed { start: 4, end: 4 })
    );
    assert_eq!(
        parse_seeds_csv(b"1, x1 ,y"),
        Err(SeedsError::InvalidSeed { start: 2, end: 6 })
    );
    assert_eq!(
        parse_seeds_csv(b","),
        Err(SeedsError::InvalidSeed { start: 0, end: 0 })
    );
}

#[test]
fn seeds_are_read_from_lines() {
    assert_eq!(parse_seeds_lines(b"1\n# c\n\n 2 \r\n3"), Ok(vec![1, 2, 3]));
    assert_eq!(parse_seeds_lines(b""), Err(SeedsError::Empty));
    assert_eq!(parse_seeds_lines(b"#only\n\n"), Err(SeedsError::Empty));
    assert_eq!(
        parse_seeds_lines(b"1\nabc\n2"),
        Err(SeedsError::InvalidSeed { start: 2, end: 5 })
    );
    assert_eq!(
        parse_seeds_lines(b"1,2\n"),
        Err(SeedsError::InvalidSeed { start: 0, end: 3 })
    );
}

#[test]
fn sweeps_have_their_values() {
    assert_eq!(SweepParam::from_name("pitch-adj-rate"), Some(SweepParam::PitchAdjRate));
    assert_eq!(SweepParam::from_name("iterations"), Some(SweepParam::Iterations));
    assert_eq!(SweepParam::from_name("bandwidth"), Some(SweepParam::Bandwidth));
    assert_eq!(SweepParam::from_name("sim-length"), Some(SweepParam::SimLength));
    assert_eq!(SweepParam::from_name("memory-size"), None);
    assert_eq!(SweepParam::Bandwidth.name(), "bandwidth");
    assert_eq!(SweepParam::PitchAdjRate.name(), "pitch-adj-rate");

    let base = sweep_base_config(70, 9, true, 3);
    assert_eq!((base.sim_length, base.n_weights, base.averaged, base.averaged_runs), (70, 9, true, 3));
    assert_eq!(base.memory_size, OptimizeConfig::default().memory_size);

    let rates: Vec<i64> = sweep_configs(SweepParam::PitchAdjRate, base)
        .iter()
        .map(|config| config.pitch_adj_rate)
        .collect();
    assert_eq!(rates, vec![490_000, 590_000, 690_000, 790_000, 890_000, 990_000]);

    let iterations: Vec<usize> = sweep_configs(SweepParam::Iterations, base)
        .iter()
        .map(|config| config.iterations)
        .collect();
    assert_eq!(iterations, (1..=10).map(|i| i * 100).collect::<Vec<_>>());

    let bandwidths: Vec<i64> = sweep_configs(SweepParam::Bandwidth, base)
        .iter()
        .map(|config| config.bandwidth)
        .collect();
    assert_eq!(bandwidths, vec![50_000, 100_000, 500_000, 1_000_000]);

    let lengths: Vec<usize> = sweep_configs(SweepParam::SimLength, base)
        .iter()
        .map(|config| config.sim_length)
        .collect();
    assert_eq!(lengths, (1..=20).map(|i| i * 100).collect::<Vec<_>>());
    // The other parameters stay as they are.
    for config in sweep_configs(SweepParam::SimLength, base) {
        assert_eq!(config.n_weights, 9);
        assert_eq!(config.pitch_adj_rate, base.pitch_adj_rate);
        assert_eq!(config.iterations, base.iterations);
    }
    assert_eq!(SweepParam::SimLength.len(), 20);
    assert_eq!(SweepParam::Bandwidth.value_at(2), 500_000);
}
