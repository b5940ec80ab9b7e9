//! Network jitter probe: delta computation, aggregation, threshold
//! classification and report rendering, with their contracts.
//!
//! The caller resolves the host and sends the probes; the library prepares
//! the run, decides each next step, reduces the round-trip times to one
//! jitter value, classifies it and renders the report.

use vstd::prelude::*;

pub mod decimal;
pub mod error;
pub mod intervals;
pub mod jitter;
pub mod method;
pub mod sampler;
pub mod status;
pub mod target;
pub mod text;
pub mod threshold;

pub use decimal::Decimal;
pub use error::{CheckJitterError, PingErrorWrapper};
pub use intervals::generate_intervals;
pub use jitter::{
    abs_diff_duration, aggregate_jitter, calculate_avg_jitter, calculate_deltas, calculate_max_jitter,
    calculate_median_jitter, calculate_min_jitter, round_jitter,
};
pub use method::{parse_method, AggregationMethod, SocketType};
pub use sampler::{get_durations, ProbeOutcome, SampleRun, SampleStep};
pub use status::{display_string, evaluate_thresholds, thresholds_from, Status, UnknownVariant};
pub use target::{resolution_result, validate_host, validate_host_with, IpAddress};
pub use threshold::{CheckType, RangeError, ThresholdRange, Thresholds};

verus! {

} // verus!
