use check_jitter::{
    get_durations, parse_method, resolution_result, validate_host, validate_host_with, AggregationMethod,
    CheckJitterError, IpAddress, PingErrorWrapper, ProbeOutcome, SampleStep, SocketType,
};

#[test]
fn method_names() {
    assert_eq!(parse_method("average"), Ok(AggregationMethod::Average));
    assert_eq!(parse_method("AVG"), Ok(AggregationMethod::Average));
    assert_eq!(parse_method("Mean"), Ok(AggregationMethod::Average));
    assert_eq!(parse_method("med"), Ok(AggregationMethod::Median));
    assert_eq!(parse_method("Maximum"), Ok(AggregationMethod::Max));
    assert_eq!(parse_method("min"), Ok(AggregationMethod::Min));
    assert_eq!(parse_method("mode"), Err("'mode' is not a valid aggregation method".to_string()));
    assert_eq!("MEDIAN".parse::<AggregationMethod>(), Ok(AggregationMethod::Median));
    assert_eq!(AggregationMethod::Median.label(), "Median");
    assert_eq!(SocketType::Datagram.label(), "Datagram");
}

#[test]
fn first_resolved_address_is_probed() {
    let addrs = vec![IpAddress::V4([192, 0, 2, 1]), IpAddress::V4([192, 0, 2, 2])];
    let run = get_durations("multi.example.com", Ok(addrs), SocketType::Raw, 3, 1000, 0, 0).unwrap();
    assert_eq!(run.target, IpAddress::V4([192, 0, 2, 1]));
    assert_eq!(run.samples, 3);
    assert!(run.durations.is_empty());
    assert!(run.intervals.is_empty());
}

#[test]
fn preparing_a_run_fails_early() {
    let e = get_durations("none.example", Ok(vec![]), SocketType::Raw, 3, 1000, 0, 0).err();
    assert_eq!(e, Some(CheckJitterError::DnsLookupFailed("none.example".to_string())));
    let one = vec![IpAddress::V6([0, 0, 0, 0, 0, 0, 0, 1])];
    let e = get_durations("::1", Ok(one), SocketType::Datagram, 1, 1000, 0, 0).err();
    assert_eq!(e, Some(CheckJitterError::InsufficientSamples(1)));
    let lookup = Err(CheckJitterError::PermissionDenied);
    let e = get_durations("x", lookup, SocketType::Raw, 3, 1000, 0, 0).err();
    assert_eq!(e, Some(CheckJitterError::PermissionDenied));
}

#[test]
fn run_collects_samples_and_waits() {
    let addrs = vec![IpAddress::V4([127, 0, 0, 1])];
    let mut run = get_durations("127.0.0.1", Ok(addrs), SocketType::Raw, 3, 1000, 20, 20).unwrap();
    assert_eq!(run.intervals, vec![20, 20]);
    assert_eq!(run.record(ProbeOutcome::Reply(100)), SampleStep::Wait(20));
    assert_eq!(run.record(ProbeOutcome::Reply(150)), SampleStep::Wait(20));
    assert_eq!(run.record(ProbeOutcome::Reply(120)), SampleStep::Finished);
    assert_eq!(run.durations, vec![100, 150, 120]);
}

#[test]
fn run_without_waits_probes_at_once() {
    let addrs = vec![IpAddress::V4([127, 0, 0, 1])];
    let mut run = get_durations("127.0.0.1", Ok(addrs), SocketType::Raw, 2, 1000, 0, 0).unwrap();
    assert_eq!(run.record(ProbeOutcome::Reply(100)), SampleStep::Probe);
    assert_eq!(run.record(ProbeOutcome::Reply(100)), SampleStep::Finished);
}

#[test]
fn probe_failures_end_the_run() {
    let addrs = vec![IpAddress::V4([127, 0, 0, 1])];
    let mut run = get_durations("127.0.0.1", Ok(addrs), SocketType::Raw, 3, 250, 0, 0).unwrap();
    assert_eq!(run.record(ProbeOutcome::Reply(100)), SampleStep::Probe);
    assert_eq!(
        run.record(ProbeOutcome::TimedOut),
        SampleStep::Failed(CheckJitterError::Timeout("250".to_string()))
    );
    assert_eq!(
        run.record(ProbeOutcome::PermissionDenied),
        SampleStep::Failed(CheckJitterError::PermissionDenied)
    );
    assert_eq!(
        run.record(ProbeOutcome::IoFailure("reset".to_string())),
        SampleStep::Failed(CheckJitterError::PingIoError("reset".to_string()))
    );
    assert_eq!(
        run.record(ProbeOutcome::OtherFailure("DecodeV4Error".to_string())),
        SampleStep::Failed(CheckJitterError::PingError(PingErrorWrapper("DecodeV4Error".to_string())))
    );
    assert_eq!(run.durations, vec![100]);
}

#[test]
fn lookup_outcomes() {
    let one = vec![IpAddress::V4([127, 0, 0, 1])];
    assert_eq!(resolution_result("localhost", Ok(one.clone())), Ok(one));
    assert_eq!(
        resolution_result("unresolved.example.com", Ok(vec![])),
        Err(CheckJitterError::DnsLookupFailed("unresolved.example.com".to_string()))
    );
    assert_eq!(
        resolution_result("error.example.com", Err("mock error".to_string())),
        Err(CheckJitterError::DnsResolutionError {
            addr: "error.example.com".to_string(),
            error: "mock error".to_string(),
        })
    );
}

#[test]
fn host_validation() {
    assert_eq!(validate_host("::1", true), Ok("::1".to_string()));
    assert_eq!(validate_host("example.com", false), Ok("example.com".to_string()));
    assert_eq!(validate_host("[::1]", false), Ok("[::1]".to_string()));
    assert_eq!(
        validate_host("bad host", false),
        Err(CheckJitterError::InvalidIP("bad host".to_string()))
    );
    assert_eq!(validate_host_with("a", false, true), Ok("a".to_string()));
    assert_eq!(validate_host_with("a", false, false), Err(CheckJitterError::InvalidIP("a".to_string())));
}
