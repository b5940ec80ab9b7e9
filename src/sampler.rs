//! Sequential probing of one target, as a state machine: the caller sends
//! each probe and waits, and hands every outcome to [`SampleRun::record`].

use vstd::prelude::*;

use crate::text::{digits_text, integer_text};
use crate::error::{CheckJitterError, PingErrorWrapper};
use crate::intervals::{generate_intervals, intervals_fit};
use crate::method::SocketType;
use crate::target::IpAddress;

verus! {

/// How one probe ended.
#[derive(Clone, Debug, PartialEq, Eq)]
pub enum ProbeOutcome {
    /// A reply came back; the round-trip time in nanoseconds.
    Reply(u64),
    /// The transport could not be opened for lack of privileges.
    PermissionDenied,
    /// No reply came within the timeout.
    TimedOut,
    /// Another I/O failure, with its description.
    IoFailure(String),
    /// Another transport failure, with its description.
    OtherFailure(String),
}

/// What the caller does next.
#[derive(Debug, PartialEq, Eq)]
pub enum SampleStep {
    /// Wait this many milliseconds, then send the next probe.
    Wait(u64),
    /// Send the next probe at once.
    Probe,
    /// All samples are in `durations`.
    Finished,
    /// The run is over; its samples are discarded.
    Failed(CheckJitterError),
}

/// A run of probes in progress.
pub struct SampleRun {
    pub target: IpAddress,
    pub socket_type: SocketType,
    /// The number of probes to send.
    pub samples: u8,
    /// The wait for each reply, in milliseconds.
    pub timeout_ms: u64,
    /// The round-trip times so far, in nanoseconds, in send order.
    pub durations: Vec<u64>,
    /// The waits still to make, in milliseconds; the last one comes first.
    pub intervals: Vec<u64>,
}

impl SampleRun {
    /// Still short of its samples.
    pub open spec fn in_progress(&self) -> bool {
        self.durations@.len() < self.samples
    }

    /// Records the outcome of the latest probe and says what comes next.
    pub fn record(&mut self, outcome: ProbeOutcome) -> (r: SampleStep)
        requires
            old(self).in_progress(),
        ensures
            final(self).target == old(self).target,
            final(self).socket_type == old(self).socket_type,
            final(self).samples == old(self).samples,
            final(self).timeout_ms == old(self).timeout_ms,
            final(self).durations@.len() <= final(self).samples,
            match outcome {
                ProbeOutcome::Reply(ns) => {
                    &&& final(self).durations@ == old(self).durations@.push(ns)
                    &&& if final(self).durations@.len() == old(self).samples {
                        r == SampleStep::Finished && final(self).intervals@ == old(self).intervals@
                    } else if old(self).intervals@.len() > 0 {
                        r == SampleStep::Wait(old(self).intervals@.last())
                            && final(self).intervals@ == old(self).intervals@.drop_last()
                    } else {
                        r == SampleStep::Probe && final(self).intervals@ == old(self).intervals@
                    }
                },
                ProbeOutcome::PermissionDenied => r == SampleStep::Failed(
                    CheckJitterError::PermissionDenied,
                ),
                ProbeOutcome::TimedOut => r matches SampleStep::Failed(CheckJitterError::Timeout(t))
                    && t@ == digits_text(old(self).timeout_ms as nat),
                ProbeOutcome::IoFailure(m) => r == SampleStep::Failed(CheckJitterError::PingIoError(m)),
                ProbeOutcome::OtherFailure(m) => r == SampleStep::Failed(
                    CheckJitterError::PingError(PingErrorWrapper(m)),
                ),
            },
            !(outcome is Reply) ==> final(self).durations@ == old(self).durations@
                && final(self).intervals@ == old(self).intervals@,
    {
        match outcome {
            ProbeOutcome::Reply(ns) => {
                self.durations.push(ns);
                if self.durations.len() == self.samples as usize {
                    SampleStep::Finished
                } else {
                    match self.intervals.pop() {
                        Some(ms) => SampleStep::Wait(ms),
                        None => SampleStep::Probe,
                    }
                }
            },
            ProbeOutcome::PermissionDenied => SampleStep::Failed(CheckJitterError::PermissionDenied),
            ProbeOutcome::TimedOut => SampleStep::Failed(
                CheckJitterError::Timeout(integer_text(self.timeout_ms as u128)),
            ),
            ProbeOutcome::IoFailure(m) => SampleStep::Failed(CheckJitterError::PingIoError(m)),
            ProbeOutcome::OtherFailure(m) => SampleStep::Failed(
                CheckJitterError::PingError(PingErrorWrapper(m)),
            ),
        }
    }
}

/// Prepares a run against the first resolved address of `addr`: fails with
/// the lookup's failure, `DnsLookupFailed` when it gave no address, or
/// `InsufficientSamples` for fewer than two samples; else the run starts
/// with no samples and `samples - 1` waits from the interval generator.
pub fn get_durations(
    addr: &str,
    resolved: Result<Vec<IpAddress>, CheckJitterError>,
    socket_type: SocketType,
    samples: u8,
    timeout_ms: u64,
    min_interval: u64,
    max_interval: u64,
) -> (r: Result<SampleRun, CheckJitterError>)
    ensures
        match resolved {
            Err(e) => r == Err::<SampleRun, CheckJitterError>(e),
            Ok(v) => if v@.len() == 0 {
                r matches Err(CheckJitterError::DnsLookupFailed(h)) && h@ == addr@
            } else if samples < 2 {
                r matches Err(CheckJitterError::InsufficientSamples(n)) && n == samples
            } else {
                r matches Ok(run) && run.target == v@[0] && run.socket_type == socket_type
                    && run.samples == samples && run.timeout_ms == timeout_ms
                    && run.durations@.len() == 0 && run.in_progress() && intervals_fit(
                    run.intervals@,
                    (samples - 1) as nat,
                    min_interval,
                    max_interval,
                )
            },
        },
{
    let list = match resolved {
        Ok(v) => v,
        Err(e) => return Err(e),
    };
    if list.len() == 0 {
        return Err(CheckJitterError::DnsLookupFailed(addr.to_string()));
    }
    let target = list[0];
    if samples < 2 {
        return Err(CheckJitterError::InsufficientSamples(samples));
    }
    let intervals = generate_intervals(samples - 1, min_interval, max_interval);
    Ok(SampleRun { target, socket_type, samples, timeout_ms, durations: Vec::new(), intervals })
}

} // verus!
