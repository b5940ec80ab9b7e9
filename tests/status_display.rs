use check_jitter::{
    AggregationMethod, CheckJitterError, Decimal, RangeError, Status, ThresholdRange, Thresholds,
    UnknownVariant,
};

#[test]
fn test_with_ok() {
    let t = Thresholds {
        warning: Some(ThresholdRange::parse("0:0.5").unwrap()),
        critical: Some(ThresholdRange::parse("0:1").unwrap()),
    };
    let status = Status::Okay(AggregationMethod::Average, Decimal::parse("0.1").unwrap(), &t);
    let expected = "OK - Average Jitter: 0.1ms|'Average Jitter'=0.1ms;0:0.5;0:1;0";
    let actual = status.message();

    assert_eq!(actual, expected);
}

// The expected value is the same as the previous test, even if the text
// given for the ranges is different.
#[test]
fn test_with_ok_simple_thresholds() {
    let t = Thresholds {
        warning: Some(ThresholdRange::parse("0.5").unwrap()),
        critical: Some(ThresholdRange::parse("1").unwrap()),
    };
    let status = Status::Okay(AggregationMethod::Median, Decimal::parse("0.1").unwrap(), &t);
    let expected = "OK - Median Jitter: 0.1ms|'Median Jitter'=0.1ms;0:0.5;0:1;0";
    let actual = status.message();

    assert_eq!(actual, expected);
}

#[test]
fn test_with_warning() {
    let t = Thresholds {
        warning: Some(ThresholdRange::parse("0:0.5").unwrap()),
        critical: Some(ThresholdRange::parse("0:1").unwrap()),
    };
    let status = Status::Warning(AggregationMethod::Average, Decimal::parse("0.1").unwrap(), &t);
    let expected = "WARNING - Average Jitter: 0.1ms|'Average Jitter'=0.1ms;0:0.5;0:1;0";
    let actual = status.message();

    assert_eq!(actual, expected);
}

#[test]
fn test_with_critical() {
    let t = Thresholds {
        warning: Some(ThresholdRange::parse("0:0.5").unwrap()),
        critical: Some(ThresholdRange::parse("0:1").unwrap()),
    };
    let status = Status::Critical(AggregationMethod::Max, Decimal::parse("0.1").unwrap(), &t);
    let expected = "CRITICAL - Max Jitter: 0.1ms|'Max Jitter'=0.1ms;0:0.5;0:1;0";
    let actual = status.message();

    assert_eq!(actual, expected);
}

#[test]
fn test_with_error() {
    let status = Status::Unknown(UnknownVariant::Error(CheckJitterError::DnsLookupFailed(
        "example.com".to_string(),
    )));

    let expected = "UNKNOWN - An error occurred: 'DNS Lookup failed for: example.com'";
    let actual = status.message();

    assert_eq!(actual, expected);
}

#[test]
fn unknown_messages() {
    let cases = vec![
        (
            UnknownVariant::FailedToInitLogger("busy".to_string()),
            "UNKNOWN - Failed to initialize logger with error: 'busy'",
        ),
        (
            UnknownVariant::InvalidAddr("bad host".to_string()),
            "UNKNOWN - Invalid address or hostname: bad host",
        ),
        (
            UnknownVariant::InvalidMinMaxInterval(100, 10),
            "UNKNOWN - Invalid min/max interval: min: 100, max: 10",
        ),
        (
            UnknownVariant::ClapError("error: error: unexpected argument '-x' found\n\n".to_string()),
            "UNKNOWN - Command line parsing produced an error: unexpected argument '-x' found",
        ),
        (
            UnknownVariant::NoThresholds,
            "UNKNOWN - No thresholds provided. Provide at least one threshold.",
        ),
        (
            UnknownVariant::RangeParseError("5:1".to_string(), RangeError::StartGreaterThanEnd),
            "UNKNOWN - Unable to parse range '5:1' with error: the start point must be lesser than the end point",
        ),
        (UnknownVariant::Timeout(1_500_000_000), "UNKNOWN - Ping timeout occurred after 1.5s"),
        (UnknownVariant::Timeout(100_000_000), "UNKNOWN - Ping timeout occurred after 100ms"),
        (UnknownVariant::Timeout(2_500), "UNKNOWN - Ping timeout occurred after 2.5\u{b5}s"),
        (UnknownVariant::Timeout(7), "UNKNOWN - Ping timeout occurred after 7ns"),
    ];
    for (variant, expected) in cases {
        let status = Status::Unknown(variant);
        assert_eq!(status.message(), expected);
        assert_eq!(status.to_int(), 3);
    }
}

#[test]
fn error_messages() {
    let cases = vec![
        (
            CheckJitterError::DnsResolutionError { addr: "a.example".to_string(), error: "boom".to_string() },
            "DNS resolution error for 'a.example': boom",
        ),
        (CheckJitterError::EmptyDeltas, "The delta count is 0. Cannot calculate jitter."),
        (
            CheckJitterError::InsufficientSamples(1),
            "At least 2 samples are required to calculate jitter, got 1.",
        ),
        (CheckJitterError::InvalidIP("x y".to_string()), "Invalid IP: x y"),
        (CheckJitterError::PermissionDenied, "Ping failed because of insufficient permissions"),
        (CheckJitterError::PingIoError("reset".to_string()), "Ping failed with IO error: reset"),
        (CheckJitterError::Timeout("1000".to_string()), "Ping timed out after: 1000ms"),
    ];
    for (error, expected) in cases {
        assert_eq!(error.message(), expected);
    }
}

#[test]
fn severity_codes() {
    let t = Thresholds { warning: None, critical: None };
    let v = Decimal::parse("0.1").unwrap();
    assert_eq!(Status::Okay(AggregationMethod::Average, v, &t).to_int(), 0);
    assert_eq!(Status::Warning(AggregationMethod::Average, v, &t).to_int(), 1);
    assert_eq!(Status::Critical(AggregationMethod::Average, v, &t).to_int(), 2);
    assert_eq!(Status::Unknown(UnknownVariant::NoThresholds).to_int(), 3);
}

#[test]
fn rendering_is_stable() {
    let t = Thresholds {
        warning: Some(ThresholdRange::parse("0:0.5").unwrap()),
        critical: Some(ThresholdRange::parse("0:1").unwrap()),
    };
    let status = Status::Okay(AggregationMethod::Average, Decimal::parse("0.1").unwrap(), &t);
    let first = status.message();
    let second = status.message();
    assert_eq!(first, second);
    assert_eq!(first, "OK - Average Jitter: 0.1ms|'Average Jitter'=0.1ms;0:0.5;0:1;0");
}
