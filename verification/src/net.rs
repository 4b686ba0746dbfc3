//! Address-resolution policy.
//!
//! A target is resolved once per port, in two steps: first the target and
//! port are joined into a `host:port` candidate and tried as a literal
//! socket address; only if that fails is a forward DNS lookup made, and the
//! first record returned is taken.  No record at all is fatal to the whole
//! run.  The addresses themselves are carried as plain values: an IPv4
//! address as its 32-bit value, an IPv6 address as its 128-bit value.

use vstd::prelude::*;
use crate::decimal::dec_digits;
use crate::decimal::u64_to_decimal;

verus! {

/// An IP address as a plain value.
#[derive(Debug, Clone, Copy, PartialEq, Eq, Structural)]
pub enum IpAddrRepr {
    /// An IPv4 address: its four octets as one big-endian 32-bit value.
    V4 { bits: u32 },
    /// An IPv6 address: its sixteen octets as one big-endian 128-bit value.
    V6 { bits: u128 },
}

/// A resolved socket address: an IP address and a port.
#[derive(Debug, Clone, Copy, PartialEq, Eq, Structural)]
pub struct SocketAddrRepr {
    pub ip: IpAddrRepr,
    pub port: u16,
}

/// What resolution does after the literal-address attempt.
#[derive(Debug, Clone, Copy, PartialEq, Eq, Structural)]
pub enum ResolveStep {
    /// The target was a literal address: use it, with no DNS lookup.
    UseAddress { addr: SocketAddrRepr },
    /// The target is no literal address: a DNS lookup is needed.
    NeedsLookup,
}

/// Resolution failed: neither literal parsing nor DNS produced an address.
#[derive(Debug, Clone, PartialEq, Eq)]
pub struct ResolveError {
    /// The target host that could not be resolved.
    pub host: String,
    /// The port the probe was meant for.
    pub port: u16,
}

impl ResolveError {
    /// The printed form of the error, naming host and port.
    pub fn message(&self) -> (r: String)
        ensures
            r@ == "DNS: Could not find host - "@ + self.host@ + " : "@ + dec_digits(
                self.port as nat,
            ),
    {
        let mut s = String::from_str("DNS: Could not find host - ");
        s.append(self.host.as_str());
        s.append(" : ");
        let p = u64_to_decimal(self.port as u64);
        s.append(p.as_str());
        s
    }
}

/// The `host:port` candidate handed to literal socket-address parsing.
pub fn literal_candidate(target: &str, port: u16) -> (r: String)
    ensures
        r@ == target@ + ":"@ + dec_digits(port as nat),
{
    let mut s = target.to_owned();
    s.append(":");
    let p = u64_to_decimal(port as u64);
    s.append(p.as_str());
    s
}

/// Decide what follows the literal-address attempt: a parsed literal is used
/// as it stands, and only a target that is no literal address goes on to a
/// DNS lookup.
pub fn after_literal_attempt(literal: Option<SocketAddrRepr>) -> (r: ResolveStep)
    ensures
        literal matches Some(addr) ==> r == (ResolveStep::UseAddress { addr }),
        literal is None ==> r == ResolveStep::NeedsLookup,
{
    match literal {
        Some(addr) => ResolveStep::UseAddress { addr },
        None => ResolveStep::NeedsLookup,
    }
}

/// Decide what follows the DNS lookup: the first record returned, joined
/// with the port, or a fatal `ResolveError` naming host and port when the
/// lookup yielded no record.
pub fn after_lookup(first_record: Option<IpAddrRepr>, host: &str, port: u16) -> (r: Result<
    SocketAddrRepr,
    ResolveError,
>)
    ensures
        first_record matches Some(ip) ==> r == Ok::<SocketAddrRepr, ResolveError>(
            SocketAddrRepr { ip, port },
        ),
        first_record is None ==> {
            &&& r is Err
            &&& r->Err_0.host@ == host@
            &&& r->Err_0.port == port
        },
{
    match first_record {
        Some(ip) => Ok(SocketAddrRepr { ip, port }),
        None => Err(ResolveError { host: host.to_owned(), port }),
    }
}

} // verus!
