//! Failures of the measurement pipeline.

use vstd::prelude::*;
use vstd::string::*;

use crate::text::{digits_text, push_digits};

verus! {

/// The description of a transport error that is neither an I/O error nor a timeout.
#[derive(Clone, Debug, PartialEq, Eq)]
pub struct PingErrorWrapper(pub String);

/// A failure of one stage of the pipeline.
#[non_exhaustive]
#[derive(Clone, Debug, PartialEq, Eq)]
pub enum CheckJitterError {
    DnsLookupFailed(String),
    DnsResolutionError { addr: String, error: String },
    EmptyDeltas,
    InsufficientSamples(u8),
    InvalidIP(String),
    PermissionDenied,
    PingError(PingErrorWrapper),
    PingIoError(String),
    Timeout(String),
}

/// The one-line description of `e`.
pub open spec fn error_text(e: CheckJitterError) -> Seq<char> {
    match e {
        CheckJitterError::DnsLookupFailed(host) => "DNS Lookup failed for: "@ + host@,
        CheckJitterError::DnsResolutionError { addr, error } => "DNS resolution error for '"@ + addr@
            + "': "@ + error@,
        CheckJitterError::EmptyDeltas => "The delta count is 0. Cannot calculate jitter."@,
        CheckJitterError::InsufficientSamples(n) =>
            "At least 2 samples are required to calculate jitter, got "@ + digits_text(n as nat)
                + "."@,
        CheckJitterError::InvalidIP(s) => "Invalid IP: "@ + s@,
        CheckJitterError::PermissionDenied => "Ping failed because of insufficient permissions"@,
        CheckJitterError::PingError(w) => "Ping failed with error: "@ + w.0@,
        CheckJitterError::PingIoError(s) => "Ping failed with IO error: "@ + s@,
        CheckJitterError::Timeout(ms) => "Ping timed out after: "@ + ms@ + "ms"@,
    }
}

impl CheckJitterError {
    /// Appends the description of the error.
    pub fn push_message(&self, out: &mut String)
        ensures
            final(out)@ == old(out)@ + error_text(*self),
    {
        let ghost start = out@;
        match self {
            CheckJitterError::DnsLookupFailed(host) => {
                out.append("DNS Lookup failed for: ");
                out.append(host.as_str());
            },
            CheckJitterError::DnsResolutionError { addr, error } => {
                out.append("DNS resolution error for '");
                out.append(addr.as_str());
                out.append("': ");
                out.append(error.as_str());
            },
            CheckJitterError::EmptyDeltas => {
                out.append("The delta count is 0. Cannot calculate jitter.");
            },
            CheckJitterError::InsufficientSamples(n) => {
                out.append("At least 2 samples are required to calculate jitter, got ");
                push_digits(out, *n as u128);
                out.append(".");
            },
            CheckJitterError::InvalidIP(s) => {
                out.append("Invalid IP: ");
                out.append(s.as_str());
            },
            CheckJitterError::PermissionDenied => {
                out.append("Ping failed because of insufficient permissions");
            },
            CheckJitterError::PingError(w) => {
                out.append("Ping failed with error: ");
                out.append(w.0.as_str());
            },
            CheckJitterError::PingIoError(s) => {
                out.append("Ping failed with IO error: ");
                out.append(s.as_str());
            },
            CheckJitterError::Timeout(ms) => {
                out.append("Ping timed out after: ");
                out.append(ms.as_str());
                out.append("ms");
            },
        }
        assert(out@ =~= start + error_text(*self));
    }

    /// The description of the error.
    pub fn message(&self) -> (r: String)
        ensures
            r@ == error_text(*self),
    {
        let mut out = String::new();
        self.push_message(&mut out);
        assert(out@ =~= error_text(*self));
        out
    }
}

} // verus!
