use check_jitter::{calculate_deltas, CheckJitterError};

#[test]
fn test_with_zero_durations() {
    let durations: &[u64] = &[];

    let result = calculate_deltas(durations);

    assert_eq!(result, Err(CheckJitterError::InsufficientSamples(0)));
}

#[test]
fn test_with_one_duration() {
    let durations: &[u64] = &[100_000_000];

    let result = calculate_deltas(durations);

    assert_eq!(result, Err(CheckJitterError::InsufficientSamples(1)));
}

#[test]
fn test_with_two_durations() {
    let durations: &[u64] = &[100_000_000, 100_100_000];

    let expected_deltas: Vec<u64> = vec![100_000];

    let deltas = calculate_deltas(durations).unwrap();

    assert_eq!(deltas, expected_deltas);
}

#[test]
fn test_with_simple_durations() {
    let durations: &[u64] = &[100_000_000, 100_100_000, 100_200_000, 100_300_000];

    let expected_deltas: &[u64] = &[100_000, 100_000, 100_000];

    let deltas = calculate_deltas(durations).unwrap();

    assert_eq!(deltas, expected_deltas);
}

#[test]
fn test_with_irregular_durations() {
    let durations: &[u64] = &[100_000_000, 100_101_200, 101_200_030, 100_310_900];

    let expected_deltas: &[u64] = &[101_200, 1_098_830, 889_130];

    let deltas = calculate_deltas(durations).unwrap();
    assert_eq!(deltas, expected_deltas);
}

#[test]
fn deltas_keep_temporal_order() {
    let durations: &[u64] = &[10, 40, 20, 25];
    assert_eq!(calculate_deltas(durations).unwrap(), vec![30, 20, 5]);
}
