//! The outcome of a run, its one-line report and its severity code.

use vstd::prelude::*;
use vstd::string::*;

use crate::decimal::Decimal;
use crate::text::{digits_text, push_digits};
use crate::error::{error_text, CheckJitterError};
use crate::method::AggregationMethod;
use crate::threshold::{range_error_text, range_of, RangeError, ThresholdRange, Thresholds};

verus! {

/// Why a run ended without a classification.
#[non_exhaustive]
#[derive(Clone, Debug, PartialEq, Eq)]
pub enum UnknownVariant {
    Error(CheckJitterError),
    FailedToInitLogger(String),
    InvalidAddr(String),
    InvalidMinMaxInterval(u64, u64),
    ClapError(String),
    NoThresholds,
    RangeParseError(String, RangeError),
    /// The wait that ran out, in nanoseconds.
    Timeout(u64),
}

/// The terminal value of a run.
#[derive(Clone, Debug, PartialEq, Eq)]
pub enum Status<'a> {
    Okay(AggregationMethod, Decimal, &'a Thresholds),
    Warning(AggregationMethod, Decimal, &'a Thresholds),
    Critical(AggregationMethod, Decimal, &'a Thresholds),
    Unknown(UnknownVariant),
}

/// The name of the reported value for `m`.
pub open spec fn label_text(m: AggregationMethod) -> Seq<char> {
    match m {
        AggregationMethod::Average => "Average Jitter"@,
        AggregationMethod::Median => "Median Jitter"@,
        AggregationMethod::Max => "Max Jitter"@,
        AggregationMethod::Min => "Min Jitter"@,
    }
}

/// The name of the reported value for `m`.
pub fn jitter_label(m: AggregationMethod) -> (r: &'static str)
    ensures
        r@ == label_text(m),
{
    match m {
        AggregationMethod::Average => "Average Jitter",
        AggregationMethod::Median => "Median Jitter",
        AggregationMethod::Max => "Max Jitter",
        AggregationMethod::Min => "Min Jitter",
    }
}

/// The text of a range slot of the report; empty for a missing range.
pub open spec fn slot_text(r: Option<ThresholdRange>) -> Seq<char> {
    match r {
        Some(range) => range.text(),
        None => Seq::<char>::empty(),
    }
}

/// `<status> - <label>: <value><uom>|'<label>'=<value><uom>;<warning>;<critical>;0`.
pub open spec fn display_text(
    label: Seq<char>,
    status: Seq<char>,
    uom: Seq<char>,
    f: Decimal,
    t: Thresholds,
) -> Seq<char> {
    status + " - "@ + label + ": "@ + f.text() + uom + "|'"@ + label + "'="@ + f.text() + uom + ";"@
        + slot_text(t.warning) + ";"@ + slot_text(t.critical) + ";"@ + "0"@
}

fn push_slot(out: &mut String, r: &Option<ThresholdRange>)
    requires
        r matches Some(range) ==> range.wf(),
    ensures
        final(out)@ == old(out)@ + slot_text(*r),
{
    match r {
        Some(range) => range.push_text(out),
        None => {
            assert(old(out)@ + slot_text(*r) =~= old(out)@);
        },
    }
}

/// The report line of a classified value, with its performance data.
pub fn display_string(label: &str, status: &str, uom: &str, f: Decimal, t: &Thresholds) -> (r: String)
    requires
        f.wf(),
        t.wf(),
    ensures
        r@ == display_text(label@, status@, uom@, f, *t),
{
    let mut out = String::new();
    out.append(status);
    out.append(" - ");
    out.append(label);
    out.append(": ");
    f.push_text(&mut out);
    out.append(uom);
    out.append("|'");
    out.append(label);
    out.append("'=");
    f.push_text(&mut out);
    out.append(uom);
    out.append(";");
    push_slot(&mut out, &t.warning);
    out.append(";");
    push_slot(&mut out, &t.critical);
    out.append(";");
    out.append("0");
    assert(out@ =~= display_text(label@, status@, uom@, f, *t));
    out
}

/// What `str::trim_end` leaves of a text.
pub uninterp spec fn trim_end_of(s: Seq<char>) -> Seq<char>;

/// Relies on `str::trim_end`: the text without its trailing whitespace,
/// which is a prefix of the text.
#[verifier::external_body]
fn trim_end(s: &str) -> (r: &str)
    ensures
        r@ == trim_end_of(s@),
        r@.len() <= s@.len(),
        r@ == s@.take(r@.len() as int),
{
    s.trim_end()
}

/// The prefix that command-line parse errors start with.
pub open spec fn error_prefix() -> Seq<char> {
    seq!['e', 'r', 'r', 'o', 'r', ':', ' ']
}

/// `cs` without any number of leading `error: ` prefixes.
pub open spec fn without_error_prefix(cs: Seq<char>) -> Seq<char>
    decreases cs.len(),
{
    if cs.len() >= 7 && cs.take(7) == error_prefix() {
        without_error_prefix(cs.skip(7))
    } else {
        cs
    }
}

fn error_prefix_at(s: &str, i: usize) -> (r: bool)
    requires
        i <= s@.len(),
    ensures
        r == (s@.len() - i >= 7 && s@.subrange(i as int, i + 7) == error_prefix()),
{
    if s.unicode_len() - i < 7 {
        return false;
    }
    let r = s.get_char(i) == 'e' && s.get_char(i + 1) == 'r' && s.get_char(i + 2) == 'r'
        && s.get_char(i + 3) == 'o' && s.get_char(i + 4) == 'r' && s.get_char(i + 5) == ':'
        && s.get_char(i + 6) == ' ';
    proof {
        let sub = s@.subrange(i as int, i + 7);
        assert(forall|k: int| 0 <= k < 7 ==> sub[k] == s@[i + k]);
        if r {
            assert(sub =~= error_prefix());
        } else if sub == error_prefix() {
            assert(sub[0] == 'e' && sub[1] == 'r' && sub[2] == 'r' && sub[3] == 'o' && sub[4] == 'r'
                && sub[5] == ':' && sub[6] == ' ');
        }
    }
    r
}

/// `s` without any number of leading `error: ` prefixes.
fn strip_error_prefixes(s: &str) -> (r: &str)
    ensures
        r@ == without_error_prefix(s@),
{
    let n = s.unicode_len();
    let mut i: usize = 0;
    assert(s@.subrange(0, n as int) =~= s@);
    loop
        invariant
            i <= n == s@.len(),
            without_error_prefix(s@.subrange(i as int, n as int)) == without_error_prefix(s@),
        ensures
            i <= n == s@.len(),
            without_error_prefix(s@.subrange(i as int, n as int)) == without_error_prefix(s@),
            without_error_prefix(s@.subrange(i as int, n as int)) == s@.subrange(i as int, n as int),
        decreases n - i,
    {
        let more = error_prefix_at(s, i);
        let ghost rest = s@.subrange(i as int, n as int);
        if n - i >= 7 {
            assert(rest.take(7) =~= s@.subrange(i as int, i + 7));
        }
        if !more {
            assert(without_error_prefix(rest) == rest);
            break;
        }
        assert(rest.skip(7) =~= s@.subrange(i + 7, n as int));
        i = i + 7;
    }
    s.substring_char(i, n)
}

/// How a wait of `nanos` nanoseconds is written: in the largest of seconds,
/// milliseconds, microseconds or nanoseconds that is at least one, with as
/// many fractional digits as needed.
pub open spec fn duration_text(nanos: u64) -> Seq<char> {
    if nanos >= 1_000_000_000 {
        Decimal { negative: false, mantissa: nanos as u128, scale: 9 }.text() + "s"@
    } else if nanos >= 1_000_000 {
        Decimal { negative: false, mantissa: nanos as u128, scale: 6 }.text() + "ms"@
    } else if nanos >= 1_000 {
        Decimal { negative: false, mantissa: nanos as u128, scale: 3 }.text() + "\u{b5}s"@
    } else {
        digits_text(nanos as nat) + "ns"@
    }
}

fn push_duration(out: &mut String, nanos: u64)
    ensures
        final(out)@ == old(out)@ + duration_text(nanos),
{
    let ghost start = out@;
    if nanos >= 1_000_000_000 {
        Decimal { negative: false, mantissa: nanos as u128, scale: 9 }.push_text(out);
        out.append("s");
    } else if nanos >= 1_000_000 {
        Decimal { negative: false, mantissa: nanos as u128, scale: 6 }.push_text(out);
        out.append("ms");
    } else if nanos >= 1_000 {
        Decimal { negative: false, mantissa: nanos as u128, scale: 3 }.push_text(out);
        out.append("\u{b5}s");
    } else {
        push_digits(out, nanos as u128);
        out.append("ns");
    }
    assert(out@ =~= start + duration_text(nanos));
}

/// The report line of a status.
pub open spec fn status_text(st: Status) -> Seq<char> {
    match st {
        Status::Okay(m, v, t) => display_text(label_text(m), "OK"@, "ms"@, v, *t),
        Status::Warning(m, v, t) => display_text(label_text(m), "WARNING"@, "ms"@, v, *t),
        Status::Critical(m, v, t) => display_text(label_text(m), "CRITICAL"@, "ms"@, v, *t),
        Status::Unknown(u) => match u {
            UnknownVariant::Error(e) => "UNKNOWN - An error occurred: '"@ + error_text(e) + "'"@,
            UnknownVariant::FailedToInitLogger(s) =>
                "UNKNOWN - Failed to initialize logger with error: '"@ + s@ + "'"@,
            UnknownVariant::InvalidAddr(s) => "UNKNOWN - Invalid address or hostname: "@ + s@,
            UnknownVariant::InvalidMinMaxInterval(min, max) =>
                "UNKNOWN - Invalid min/max interval: min: "@ + digits_text(min as nat) + ", max: "@
                    + digits_text(max as nat),
            UnknownVariant::ClapError(s) => "UNKNOWN - Command line parsing produced an error: "@
                + without_error_prefix(trim_end_of(s@)),
            UnknownVariant::NoThresholds =>
                "UNKNOWN - No thresholds provided. Provide at least one threshold."@,
            UnknownVariant::RangeParseError(s, e) => "UNKNOWN - Unable to parse range '"@ + s@
                + "' with error: "@ + range_error_text(e),
            UnknownVariant::Timeout(d) => "UNKNOWN - Ping timeout occurred after "@ + duration_text(d),
        },
    }
}

/// The severity code of a status.
pub open spec fn severity(st: Status) -> i32 {
    match st {
        Status::Okay(..) => 0,
        Status::Warning(..) => 1,
        Status::Critical(..) => 2,
        Status::Unknown(_) => 3,
    }
}

impl<'a> Status<'a> {
    /// The value and thresholds of a classification are well formed.
    pub open spec fn wf(&self) -> bool {
        match *self {
            Status::Okay(_, v, t) => v.wf() && t.wf(),
            Status::Warning(_, v, t) => v.wf() && t.wf(),
            Status::Critical(_, v, t) => v.wf() && t.wf(),
            Status::Unknown(_) => true,
        }
    }

    /// The report line.
    pub fn message(&self) -> (r: String)
        requires
            self.wf(),
        ensures
            r@ == status_text(*self),
    {
        match self {
            Status::Okay(m, v, t) => display_string(jitter_label(*m), "OK", "ms", *v, t),
            Status::Warning(m, v, t) => display_string(jitter_label(*m), "WARNING", "ms", *v, t),
            Status::Critical(m, v, t) => display_string(jitter_label(*m), "CRITICAL", "ms", *v, t),
            Status::Unknown(u) => {
                let mut out = String::new();
                match u {
                    UnknownVariant::Error(e) => {
                        out.append("UNKNOWN - An error occurred: '");
                        e.push_message(&mut out);
                        out.append("'");
                    },
                    UnknownVariant::FailedToInitLogger(s) => {
                        out.append("UNKNOWN - Failed to initialize logger with error: '");
                        out.append(s.as_str());
                        out.append("'");
                    },
                    UnknownVariant::InvalidAddr(s) => {
                        out.append("UNKNOWN - Invalid address or hostname: ");
                        out.append(s.as_str());
                    },
                    UnknownVariant::InvalidMinMaxInterval(min, max) => {
                        out.append("UNKNOWN - Invalid min/max interval: min: ");
                        push_digits(&mut out, *min as u128);
                        out.append(", max: ");
                        push_digits(&mut out, *max as u128);
                    },
                    UnknownVariant::ClapError(s) => {
                        out.append("UNKNOWN - Command line parsing produced an error: ");
                        out.append(strip_error_prefixes(trim_end(s.as_str())));
                    },
                    UnknownVariant::NoThresholds => {
                        out.append("UNKNOWN - No thresholds provided. Provide at least one threshold.");
                    },
                    UnknownVariant::RangeParseError(s, e) => {
                        out.append("UNKNOWN - Unable to parse range '");
                        out.append(s.as_str());
                        out.append("' with error: ");
                        out.append(e.message());
                    },
                    UnknownVariant::Timeout(d) => {
                        out.append("UNKNOWN - Ping timeout occurred after ");
                        push_duration(&mut out, *d);
                    },
                }
                assert(out@ =~= status_text(*self));
                out
            },
        }
    }

    /// The severity code: 0 for Ok, 1 for Warning, 2 for Critical, 3 for Unknown.
    pub fn to_int(&self) -> (r: i32)
        ensures
            r == severity(*self),
    {
        match self {
            Status::Okay(..) => 0,
            Status::Warning(..) => 1,
            Status::Critical(..) => 2,
            Status::Unknown(_) => 3,
        }
    }
}

/// The classification of `value`: Critical when the critical range alerts,
/// else Warning when the warning range alerts, else Ok.
pub open spec fn classification<'a>(m: AggregationMethod, value: Decimal, t: &'a Thresholds) -> Status<'a> {
    if t.critical matches Some(c) && c.alerts(value) {
        Status::Critical(m, value, t)
    } else if t.warning matches Some(w) && w.alerts(value) {
        Status::Warning(m, value, t)
    } else {
        Status::Okay(m, value, t)
    }
}

/// Classifies the jitter against the thresholds, the critical range first.
pub fn evaluate_thresholds<'a>(aggr_method: AggregationMethod, value: Decimal, thresholds: &'a Thresholds) -> (r:
    Status<'a>)
    requires
        value.wf(),
        thresholds.wf(),
    ensures
        r == classification(aggr_method, value, thresholds),
        r.wf(),
{
    if let Some(c) = &thresholds.critical {
        if c.check(&value) {
            return Status::Critical(aggr_method, value, thresholds);
        }
    }
    if let Some(w) = &thresholds.warning {
        if w.check(&value) {
            return Status::Warning(aggr_method, value, thresholds);
        }
    }
    Status::Okay(aggr_method, value, thresholds)
}

/// A value on which the critical range alerts is Critical, whatever the
/// warning range says of it.
pub proof fn lemma_critical_first<'a>(m: AggregationMethod, value: Decimal, t: &'a Thresholds)
    requires
        t.critical matches Some(c) && c.alerts(value),
    ensures
        classification(m, value, t) == Status::Critical(m, value, t),
{
}

/// A value on which neither range alerts is Ok.
pub proof fn lemma_quiet_is_okay<'a>(m: AggregationMethod, value: Decimal, t: &'a Thresholds)
    requires
        !(t.critical matches Some(c) && c.alerts(value)),
        !(t.warning matches Some(w) && w.alerts(value)),
    ensures
        classification(m, value, t) == Status::Okay(m, value, t),
{
}

/// The range given for one slot: none, or the parsed text, or the failure
/// that names the text.
pub open spec fn slot_of(text: Option<String>, parsed: Option<ThresholdRange>, failure: Option<UnknownVariant>) -> bool {
    match text {
        None => parsed is None && failure is None,
        Some(t) => match range_of(t@) {
            Ok(range) => parsed == Some(range) && failure is None,
            Err(e) => failure matches Some(UnknownVariant::RangeParseError(s, re)) && s@ == t@ && re == e,
        },
    }
}

/// No text, or a text that is a range.
pub open spec fn slot_parses(text: Option<String>) -> bool {
    match text {
        None => true,
        Some(t) => range_of(t@) is Ok,
    }
}

fn parse_slot(text: Option<String>) -> (r: Result<Option<ThresholdRange>, UnknownVariant>)
    ensures
        match r {
            Ok(p) => slot_of(text, p, None) && (p matches Some(range) ==> range.wf()),
            Err(f) => slot_of(text, None, Some(f)),
        },
{
    match text {
        None => Ok(None),
        Some(t) => match ThresholdRange::parse(t.as_str()) {
            Ok(range) => Ok(Some(range)),
            Err(e) => Err(UnknownVariant::RangeParseError(t, e)),
        },
    }
}

/// The thresholds of the warning and critical texts: `NoThresholds` when
/// neither is given, else the failure of the first text (warning before
/// critical) that is not a range.
pub fn thresholds_from(warning: Option<String>, critical: Option<String>) -> (r: Result<
    Thresholds,
    UnknownVariant,
>)
    ensures
        match r {
            Ok(t) => !(warning is None && critical is None) && slot_of(warning, t.warning, None)
                && slot_of(critical, t.critical, None) && t.wf(),
            Err(f) => if warning is None && critical is None {
                f == UnknownVariant::NoThresholds
            } else if !slot_parses(warning) {
                slot_of(warning, None, Some(f))
            } else {
                !slot_parses(critical) && slot_of(critical, None, Some(f))
            },
        },
{
    if warning.is_none() && critical.is_none() {
        return Err(UnknownVariant::NoThresholds);
    }
    let w = match parse_slot(warning) {
        Ok(w) => w,
        Err(f) => return Err(f),
    };
    let c = match parse_slot(critical) {
        Ok(c) => c,
        Err(f) => return Err(f),
    };
    Ok(Thresholds { warning: w, critical: c })
}

} // verus!
