use check_jitter::{
    aggregate_jitter, calculate_avg_jitter, calculate_deltas, calculate_max_jitter,
    calculate_median_jitter, calculate_min_jitter, round_jitter, AggregationMethod, CheckJitterError,
    Decimal,
};

#[test]
fn lib_test_with_simple_durations() {
    let simple_durations: Vec<u64> = vec![
        100_000_000,
        100_100_000,
        100_200_000,
        100_300_000,
        100_400_000,
        100_500_000,
        100_600_000,
        100_700_000,
        100_800_000,
        100_900_000,
    ];

    let expected_average_jitter = Decimal::parse("0.1").unwrap();
    let expected_median_jitter = Decimal::parse("0.1").unwrap();
    let expected_max_jitter = Decimal::parse("0.1").unwrap();
    let expected_min_jitter = Decimal::parse("0.1").unwrap();
    let deltas = calculate_deltas(&simple_durations).unwrap();
    println!("{:#?}", deltas.clone());
    let average_jitter = calculate_avg_jitter(&deltas);
    let median_jitter = calculate_median_jitter(&deltas);
    let max_jitter = calculate_max_jitter(&deltas).unwrap();
    let min_jitter = calculate_min_jitter(&deltas).unwrap();
    let rounded_average_jitter = round_jitter(average_jitter, 3);
    let rounded_median_jitter = round_jitter(median_jitter, 3);
    let rounded_max_jitter = round_jitter(max_jitter, 3);
    let rounded_min_jitter = round_jitter(min_jitter, 3);

    assert_eq!(rounded_average_jitter, expected_average_jitter);
    assert_eq!(rounded_median_jitter, expected_median_jitter);
    assert_eq!(rounded_max_jitter, expected_max_jitter);
    assert_eq!(rounded_min_jitter, expected_min_jitter);
}

#[test]
fn test_with_even_number_of_irregular_durations() {
    let irregular_durations: Vec<u64> = vec![
        270_279_792,
        270_400_049,
        270_242_514,
        269_988_869,
        270_157_314,
        270_096_136,
        270_105_637,
        270_003_857,
        270_192_099,
        270_035_557,
    ];

    let expected_average_jitter = Decimal::parse("0.135236").unwrap();
    let expected_median_jitter = Decimal::parse("0.156542").unwrap();
    let expected_max_jitter = Decimal::parse("0.253645").unwrap();
    let expected_min_jitter = Decimal::parse("0.009501").unwrap();
    let deltas = calculate_deltas(&irregular_durations).unwrap();
    println!("{:#?}", deltas.clone());
    let average_jitter = calculate_avg_jitter(&deltas);
    let median_jitter = calculate_median_jitter(&deltas);
    let max_jitter = calculate_max_jitter(&deltas).unwrap();
    let min_jitter = calculate_min_jitter(&deltas).unwrap();
    let rounded_average_jitter = round_jitter(average_jitter, 6);
    let rounded_median_jitter = round_jitter(median_jitter, 6);
    let rounded_max_jitter = round_jitter(max_jitter, 6);
    let rounded_min_jitter = round_jitter(min_jitter, 6);

    assert_eq!(rounded_average_jitter, expected_average_jitter);
    assert_eq!(rounded_median_jitter, expected_median_jitter);
    assert_eq!(rounded_max_jitter, expected_max_jitter);
    assert_eq!(rounded_min_jitter, expected_min_jitter);
}

#[test]
fn test_with_uneven_number_of_irregular_durations() {
    let irregular_durations: Vec<u64> = vec![
        270_279_792,
        270_400_049,
        270_242_514,
        269_988_869,
        270_157_314,
        270_096_136,
        270_105_637,
        270_003_857,
        270_192_099,
    ];

    let expected_average_jitter = Decimal::parse("0.132572").unwrap();
    let expected_median_jitter = Decimal::parse("0.138896").unwrap();
    let expected_max_jitter = Decimal::parse("0.253645").unwrap();
    let expected_min_jitter = Decimal::parse("0.009501").unwrap();
    let deltas = calculate_deltas(&irregular_durations).unwrap();
    println!("{:#?}", deltas.clone());
    let average_jitter = calculate_avg_jitter(&deltas);
    let median_jitter = calculate_median_jitter(&deltas);
    let max_jitter = calculate_max_jitter(&deltas).unwrap();
    let min_jitter = calculate_min_jitter(&deltas).unwrap();
    let rounded_average_jitter = round_jitter(average_jitter, 6);
    let rounded_median_jitter = round_jitter(median_jitter, 6);
    let rounded_max_jitter = round_jitter(max_jitter, 6);
    let rounded_min_jitter = round_jitter(min_jitter, 6);

    assert_eq!(rounded_average_jitter, expected_average_jitter);
    assert_eq!(rounded_median_jitter, expected_median_jitter);
    assert_eq!(rounded_max_jitter, expected_max_jitter);
    assert_eq!(rounded_min_jitter, expected_min_jitter);
}

#[test]
fn four_samples_aggregate_to_a_tenth() {
    let durations: Vec<u64> = vec![100_000_000, 100_100_000, 100_200_000, 100_300_000];
    let tenth = Decimal::parse("0.1").unwrap();
    for method in [
        AggregationMethod::Average,
        AggregationMethod::Median,
        AggregationMethod::Max,
        AggregationMethod::Min,
    ] {
        assert_eq!(aggregate_jitter(method, &durations).unwrap(), tenth);
    }
}

#[test]
fn aggregation_needs_two_samples() {
    assert_eq!(
        aggregate_jitter(AggregationMethod::Median, &[]),
        Err(CheckJitterError::InsufficientSamples(0))
    );
    assert_eq!(
        aggregate_jitter(AggregationMethod::Max, &[5]),
        Err(CheckJitterError::InsufficientSamples(1))
    );
}

#[test]
fn max_and_min_of_no_deltas_fail() {
    assert_eq!(calculate_max_jitter(&vec![]), Err(CheckJitterError::EmptyDeltas));
    assert_eq!(calculate_min_jitter(&vec![]), Err(CheckJitterError::EmptyDeltas));
}

#[test]
fn median_of_even_count_is_mean_of_central_pair() {
    // sorted: 10, 20, 31, 40 -> (20 + 31) / 2 = 25.5 ns
    let median = calculate_median_jitter(&vec![40, 10, 31, 20]);
    assert_eq!(median, Decimal::parse("0.0000255").unwrap());
    assert_eq!(median.to_text(), "0.0000255");
    // odd count: the central element
    assert_eq!(calculate_median_jitter(&vec![9, 1, 5]), Decimal::parse("0.000005").unwrap());
}

#[test]
fn average_truncates_to_whole_nanoseconds() {
    assert_eq!(calculate_avg_jitter(&vec![1, 2]), Decimal::parse("0.000001").unwrap());
}

#[test]
fn rounding_halves_away_from_zero() {
    let v = Decimal::parse("0.1235").unwrap();
    assert_eq!(round_jitter(v, 3).to_text(), "0.124");
    let w = Decimal::parse("0.1234").unwrap();
    assert_eq!(round_jitter(w, 3).to_text(), "0.123");
    assert_eq!(round_jitter(Decimal::parse("2.5").unwrap(), 0).to_text(), "3");
    assert_eq!(round_jitter(Decimal::parse("-2.5").unwrap(), 0).to_text(), "-3");
    assert_eq!(round_jitter(Decimal::parse("0.004").unwrap(), 2).to_text(), "0");
    assert_eq!(round_jitter(v, 200), v);
}

#[test]
fn rounding_twice_changes_nothing() {
    let v = Decimal::parse("0.135236111").unwrap();
    for p in [0u8, 1, 3, 6, 9, 12] {
        let once = round_jitter(v, p);
        let twice = round_jitter(once, p);
        assert_eq!(once, twice);
        assert_eq!(once.to_text(), twice.to_text());
    }
}
