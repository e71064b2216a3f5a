//! Liveness-probe decision rules.
//!
//! The sockets live outside the library: the runtime sends one datagram or
//! opens one connection, reports what it observed as a plain event, and the
//! functions here decide what follows — retry with linear backoff, report
//! the host up, or give up. A socket error other than a timeout counts as
//! evidence the host is up: the peer's stack had to process the probe to
//! reject it that fast. That heuristic is best-effort, not guaranteed.

use vstd::prelude::*;
use vstd::string::StringExecFns;

verus! {

/// UDP port the liveness probe addresses.
pub const UDP_PING_PORT: u16 = 9989;

/// How long one UDP probe waits, in milliseconds.
pub const UDP_PING_DUR_MS: u64 = 1000;

/// Base backoff between UDP retries, in milliseconds.
pub const UDP_COOL_OFF_MS: u64 = 200;

/// How many UDP retries are allowed after the first attempt.
pub const UDP_MAX_TRIES: u32 = 3;

/// TCP connect timeout, in milliseconds.
pub const TCP_TIMEOUT_MS: u64 = 2000;

/// Which probe found the host up.
#[derive(Clone, Copy, PartialEq, Eq, Structural, Debug)]
pub enum PingType {
    UDP,
    TCP,
}

impl PingType {
    /// The probe's name.
    pub fn text(&self) -> (r: String)
        ensures
            r@ == match *self {
                PingType::UDP => "UDP"@,
                PingType::TCP => "TCP"@,
            },
    {
        match *self {
            PingType::UDP => String::from_str("UDP"),
            PingType::TCP => String::from_str("TCP"),
        }
    }
}

/// What one UDP receive observed.
#[derive(Clone, Copy, PartialEq, Eq, Structural, Debug)]
pub enum ProbeEvent {
    /// A datagram came back.
    Reply,
    /// The read timed out: the host kept silent.
    TimedOut,
    /// The socket failed fast with some other error.
    SocketError,
}

/// What the prober does next.
#[derive(Clone, Copy, PartialEq, Eq, Structural, Debug)]
pub enum ProbeStep {
    /// The host is up; record the elapsed time as its latency.
    ReportUp,
    /// Sleep this many milliseconds, then probe again.
    RetryAfter(u64),
    /// Retries are exhausted; the host is unreachable by UDP.
    ReportUnreachable,
}

/// The rule one UDP probe attempt follows. A reply, or any fast socket
/// error, means the host is up. A pure timeout retries with linearly
/// growing backoff until the attempts are spent.
pub fn udp_probe_next(tries: u32, event: ProbeEvent) -> (r: ProbeStep)
    ensures
        r == match event {
            ProbeEvent::Reply => ProbeStep::ReportUp,
            ProbeEvent::SocketError => ProbeStep::ReportUp,
            ProbeEvent::TimedOut => if tries >= UDP_MAX_TRIES {
                ProbeStep::ReportUnreachable
            } else {
                ProbeStep::RetryAfter((((tries + 1) * UDP_COOL_OFF_MS) as u64))
            },
        },
{
    match event {
        ProbeEvent::Reply => ProbeStep::ReportUp,
        ProbeEvent::SocketError => ProbeStep::ReportUp,
        ProbeEvent::TimedOut => {
            if tries >= UDP_MAX_TRIES {
                ProbeStep::ReportUnreachable
            } else {
                ProbeStep::RetryAfter((tries + 1) as u64 * UDP_COOL_OFF_MS)
            }
        },
    }
}

/// Host-level liveness: the UDP result wins; the TCP fallback on port 80
/// counts only when UDP was exhausted. Latencies are in milliseconds.
pub fn liveness_outcome(udp_ms: Option<u64>, tcp_ms: Option<u64>) -> (r: Option<(u64, PingType)>)
    ensures
        r == match udp_ms {
            Some(ms) => Some((ms, PingType::UDP)),
            None => match tcp_ms {
                Some(ms) => Some((ms, PingType::TCP)),
                None => None::<(u64, PingType)>,
            },
        },
{
    match udp_ms {
        Some(ms) => Some((ms, PingType::UDP)),
        None => match tcp_ms {
            Some(ms) => Some((ms, PingType::TCP)),
            None => None,
        },
    }
}

} // verus!
