//! The host to probe: its validation and the choice of one resolved address.

use vstd::prelude::*;

use crate::error::CheckJitterError;

verus! {

/// A resolved network address.
#[derive(Clone, Copy, Debug, PartialEq, Eq)]
pub enum IpAddress {
    V4([u8; 4]),
    V6([u16; 8]),
}

/// Whether `url::Host::parse` accepts the text.
pub uninterp spec fn is_url_host(s: Seq<char>) -> bool;

/// Relies on `url::Host::parse`: whether the text parses as a host (a
/// domain, an IPv4 address or a bracketed IPv6 address).
#[verifier::external_body]
fn parses_as_host(s: &str) -> (r: bool)
    ensures
        r == is_url_host(s@),
{
    url::Host::parse(s).is_ok()
}

/// Accepts the host when it is an IP literal or parses as a host name.
pub fn validate_host_with(s: &str, ip_literal: bool, url_host: bool) -> (r: Result<String, CheckJitterError>)
    ensures
        (ip_literal || url_host) ==> (r matches Ok(h) && h@ == s@),
        !(ip_literal || url_host) ==> (r matches Err(CheckJitterError::InvalidIP(h)) && h@ == s@),
{
    if ip_literal || url_host {
        Ok(s.to_string())
    } else {
        Err(CheckJitterError::InvalidIP(s.to_string()))
    }
}

/// Accepts the host when it is an IP literal (as the caller found) or when
/// `url::Host::parse` accepts it.
pub fn validate_host(s: &str, ip_literal: bool) -> (r: Result<String, CheckJitterError>)
    ensures
        (ip_literal || is_url_host(s@)) ==> (r matches Ok(h) && h@ == s@),
        !(ip_literal || is_url_host(s@)) ==> (r matches Err(CheckJitterError::InvalidIP(h)) && h@
            == s@),
{
    if ip_literal {
        return validate_host_with(s, true, false);
    }
    let url_host = parses_as_host(s);
    validate_host_with(s, false, url_host)
}

/// The outcome of a name lookup of `addr`: its addresses, or a failure when it
/// found none (`DnsLookupFailed`) or could not be made (`DnsResolutionError`).
pub fn resolution_result(addr: &str, lookup: Result<Vec<IpAddress>, String>) -> (r: Result<
    Vec<IpAddress>,
    CheckJitterError,
>)
    ensures
        match lookup {
            Ok(v) => if v@.len() > 0 {
                r matches Ok(w) && w@ == v@
            } else {
                r matches Err(CheckJitterError::DnsLookupFailed(h)) && h@ == addr@
            },
            Err(m) => r matches Err(CheckJitterError::DnsResolutionError { addr: a, error: e })
                && a@ == addr@ && e@ == m@,
        },
{
    match lookup {
        Ok(v) => {
            if v.len() == 0 {
                Err(CheckJitterError::DnsLookupFailed(addr.to_string()))
            } else {
                Ok(v)
            }
        },
        Err(m) => Err(CheckJitterError::DnsResolutionError { addr: addr.to_string(), error: m }),
    }
}

} // verus!
