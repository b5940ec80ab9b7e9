//! How a run probes, and how it reduces the deltas to one value.

use vstd::prelude::*;
use vstd::string::*;

verus! {

/// The kind of socket that carries the echo requests.
#[derive(Clone, Copy, Debug, PartialEq, Eq, Structural)]
pub enum SocketType {
    Datagram,
    Raw,
}

/// The statistic that reduces the deltas to one jitter value.
#[derive(Clone, Copy, Debug, PartialEq, Eq, Structural)]
pub enum AggregationMethod {
    Average,
    Median,
    Max,
    Min,
}

impl SocketType {
    /// The name of the socket type.
    pub fn label(&self) -> (r: &'static str)
        ensures
            r@ == match *self {
                SocketType::Datagram => "Datagram"@,
                SocketType::Raw => "Raw"@,
            },
    {
        match self {
            SocketType::Datagram => "Datagram",
            SocketType::Raw => "Raw",
        }
    }
}

impl AggregationMethod {
    /// The name of the statistic.
    pub fn label(&self) -> (r: &'static str)
        ensures
            r@ == match *self {
                AggregationMethod::Average => "Average"@,
                AggregationMethod::Median => "Median"@,
                AggregationMethod::Max => "Max"@,
                AggregationMethod::Min => "Min"@,
            },
    {
        match self {
            AggregationMethod::Average => "Average",
            AggregationMethod::Median => "Median",
            AggregationMethod::Max => "Max",
            AggregationMethod::Min => "Min",
        }
    }
}

/// What `str::to_lowercase` makes of a text.
pub uninterp spec fn lowercase_of(s: Seq<char>) -> Seq<char>;

/// Relies on `str::to_lowercase`: the lowercase form of the text, which
/// depends on the text alone.
#[verifier::external_body]
fn lowercase(s: &str) -> (r: String)
    ensures
        r@ == lowercase_of(s@),
{
    s.to_lowercase()
}

/// The method that a lowercase name stands for.
pub open spec fn method_named(name: Seq<char>) -> Option<AggregationMethod> {
    if name == "average"@ || name == "avg"@ || name == "mean"@ {
        Some(AggregationMethod::Average)
    } else if name == "median"@ || name == "med"@ {
        Some(AggregationMethod::Median)
    } else if name == "minimum"@ || name == "min"@ {
        Some(AggregationMethod::Min)
    } else if name == "maximum"@ || name == "max"@ {
        Some(AggregationMethod::Max)
    } else {
        None
    }
}

/// The method that a lowercase name stands for: `average`, `avg` or `mean`;
/// `median` or `med`; `minimum` or `min`; `maximum` or `max`.
pub fn method_from_lowercase(name: &str) -> (r: Option<AggregationMethod>)
    ensures
        r == method_named(name@),
{
    let n = name.to_string();
    if n == "average".to_string() || n == "avg".to_string() || n == "mean".to_string() {
        Some(AggregationMethod::Average)
    } else if n == "median".to_string() || n == "med".to_string() {
        Some(AggregationMethod::Median)
    } else if n == "minimum".to_string() || n == "min".to_string() {
        Some(AggregationMethod::Min)
    } else if n == "maximum".to_string() || n == "max".to_string() {
        Some(AggregationMethod::Max)
    } else {
        None
    }
}

/// Parses a method name in any letter case; the error names the text.
pub fn parse_method(s: &str) -> (r: Result<AggregationMethod, String>)
    ensures
        match method_named(lowercase_of(s@)) {
            Some(m) => r == Ok::<AggregationMethod, String>(m),
            None => r matches Err(msg) && msg@ == "'"@ + s@ + "' is not a valid aggregation method"@,
        },
{
    let lower = lowercase(s);
    match method_from_lowercase(lower.as_str()) {
        Some(m) => Ok(m),
        None => {
            let mut msg = String::new();
            msg.append("'");
            msg.append(s);
            msg.append("' is not a valid aggregation method");
            assert(msg@ =~= "'"@ + s@ + "' is not a valid aggregation method"@);
            Err(msg)
        },
    }
}

impl std::str::FromStr for AggregationMethod {
    type Err = String;

    fn from_str(s: &str) -> Result<Self, Self::Err> {
        parse_method(s)
    }
}

} // verus!
