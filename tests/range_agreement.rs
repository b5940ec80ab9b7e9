use check_jitter::{Decimal, RangeError, ThresholdRange};
use nagios_range::NagiosRange;

#[test]
fn ranges_read_as_nagios_range_reads_them() {
    let texts = ["0:0.5", "0:1", "0.5", "1", "10", "10:", "~:10", ":10", "10:20", "@10:20", "@-10:20", "@10:", "~:"];
    for text in texts {
        let ours = ThresholdRange::parse(text).unwrap();
        let theirs = NagiosRange::from(text).unwrap();
        assert_eq!(ours.to_text(), theirs.to_string(), "range {}", text);
    }
}

#[test]
fn ranges_alert_as_nagios_range_alerts() {
    let texts = ["0:0.5", "10", "10:", "~:10", "10:20", "@10:20", "@-10:20"];
    let values = ["-20", "-10", "0", "0.1", "0.5", "0.75", "9.999", "10", "15", "20", "20.001", "1000"];
    for text in texts {
        let ours = ThresholdRange::parse(text).unwrap();
        let theirs = NagiosRange::from(text).unwrap();
        for value in values {
            let v = Decimal::parse(value).unwrap();
            let f: f64 = value.parse().unwrap();
            assert_eq!(ours.check(&v), theirs.check(f), "range {} value {}", text, value);
        }
    }
}

#[test]
fn ranges_fail_where_nagios_range_fails() {
    let cases = [
        ("", RangeError::EmptyRange),
        ("@-10:-20", RangeError::StartGreaterThanEnd),
        ("@20:-20", RangeError::StartGreaterThanEnd),
        ("x:5", RangeError::ParseStartPoint),
        ("5:y", RangeError::ParseEndPoint),
    ];
    for (text, expected) in cases {
        assert_eq!(ThresholdRange::parse(text), Err(expected));
        assert!(NagiosRange::from(text).is_err());
    }
}
