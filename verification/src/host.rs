//! One target's record and its pipeline.
//!
//! A record is created unprobed when the target list is built, moves
//! through liveness, resolution and optional port scanning, and ends in a
//! terminal state: unreachable, or reachable with a best-effort name. The
//! open-port set only ever grows within a run. The probes themselves run
//! outside the library; the functions here apply their outcomes.

use vstd::prelude::*;
use crate::addr::Ipv4Addr;
use crate::error::FindiError;
use crate::ping::PingType;
use crate::ports::{insert_port, spec_ascending, TCP_PING_PORT};
use crate::resolve::HostResolutionType;

verus! {

/// The targets of one run.
pub type HostVec = Vec<Host>;

/// One target's aggregate record.
#[derive(PartialEq, Debug)]
pub struct Host {
    /// The target address.
    pub ip: Ipv4Addr,
    /// Latency in milliseconds once a probe succeeded; `None` while
    /// unprobed or when the host proved unreachable.
    pub ping_res: Option<u64>,
    /// Which probe found the host up.
    pub ping_type: Option<PingType>,
    /// Confirmed-open TCP ports, ascending and without duplicates; grows
    /// monotonically within a run.
    pub tcp_ports: Vec<u16>,
    /// The resolution outcome: `None` while pending, a name on success, a
    /// reason on failure.
    pub host_name: Option<Result<String, String>>,
    /// How the name was resolved.
    pub res_type: Option<HostResolutionType>,
    /// Whether the pipeline reached a terminal state.
    pub ping_done: bool,
}

/// Two records that agree on every observable field (the port list
/// compared by contents).
pub open spec fn spec_same_host(a: Host, b: Host) -> bool {
    &&& a.ip == b.ip
    &&& a.ping_res == b.ping_res
    &&& a.ping_type == b.ping_type
    &&& a.tcp_ports@ == b.tcp_ports@
    &&& a.host_name == b.host_name
    &&& a.res_type == b.res_type
    &&& a.ping_done == b.ping_done
}

/// A record's internal invariant: its port set is kept ascending.
pub open spec fn host_wf(h: Host) -> bool {
    spec_ascending(h.tcp_ports@)
}

/// A record is the fresh, unprobed one for a target.
pub open spec fn spec_is_unprobed(h: Host, ip: Ipv4Addr) -> bool {
    &&& h.ip == ip
    &&& h.ping_res is None
    &&& h.ping_type is None
    &&& h.tcp_ports@ == Seq::<u16>::empty()
    &&& h.host_name is None
    &&& h.res_type is None
    &&& !h.ping_done
}

impl Host {
    /// A fresh, unprobed record.
    pub fn new(ip: Ipv4Addr) -> (h: Host)
        ensures
            h.ip == ip,
            h.ping_res is None,
            h.ping_type is None,
            h.tcp_ports@ == Seq::<u16>::empty(),
            h.host_name is None,
            h.res_type is None,
            !h.ping_done,
            host_wf(h),
    {
        Host {
            ip,
            ping_res: None,
            ping_type: None,
            tcp_ports: Vec::new(),
            host_name: None,
            res_type: None,
            ping_done: false,
        }
    }

    /// A field-for-field copy.
    pub fn duplicate(&self) -> (h: Host)
        ensures
            spec_same_host(h, *self),
    {
        let ports = self.tcp_ports.clone();
        proof {
            assert(ports@ =~= self.tcp_ports@);
        }
        Host {
            ip: self.ip,
            ping_res: self.ping_res,
            ping_type: self.ping_type,
            tcp_ports: ports,
            host_name: match &self.host_name {
                None => None,
                Some(Ok(s)) => Some(Ok(s.clone())),
                Some(Err(s)) => Some(Err(s.clone())),
            },
            res_type: self.res_type,
            ping_done: self.ping_done,
        }
    }

    /// Record a liveness outcome, exactly as the probe order found it: the
    /// UDP latency when UDP answered, else the TCP latency — and a TCP
    /// liveness hit confirms port 80 open.
    pub fn apply_ping(&mut self, udp_ms: Option<u64>, tcp_ms: Option<u64>)
        requires
            host_wf(*old(self)),
        ensures
            host_wf(*final(self)),
            final(self).ip == old(self).ip,
            final(self).host_name == old(self).host_name,
            final(self).res_type == old(self).res_type,
            final(self).ping_done == old(self).ping_done,
            match udp_ms {
                Some(ms) => final(self).ping_res == Some(ms) && final(self).ping_type == Some(
                    PingType::UDP,
                ) && final(self).tcp_ports@ == old(self).tcp_ports@,
                None => match tcp_ms {
                    Some(ms) => final(self).ping_res == Some(ms) && final(self).ping_type
                        == Some(PingType::TCP) && (forall|q: u16|
                        final(self).tcp_ports@.contains(q) <==> (old(
                            self,
                        ).tcp_ports@.contains(q) || q == TCP_PING_PORT)),
                    None => final(self).ping_res is None && final(self).ping_type is None
                        && final(self).tcp_ports@ == old(self).tcp_ports@,
                },
            },
    {
        match udp_ms {
            Some(ms) => {
                self.ping_res = Some(ms);
                self.ping_type = Some(PingType::UDP);
            },
            None => match tcp_ms {
                Some(ms) => {
                    self.ping_res = Some(ms);
                    self.ping_type = Some(PingType::TCP);
                    insert_port(&mut self.tcp_ports, TCP_PING_PORT);
                },
                None => {
                    self.ping_res = None;
                    self.ping_type = None;
                },
            },
        }
    }

    /// Record what the resolution chain settled on: a name under its
    /// method, or the failure's reason. A record takes at most one such
    /// outcome per run; the chain stops at its first success.
    pub fn apply_resolution(&mut self, outcome: Result<(String, HostResolutionType), FindiError>)
        requires
            host_wf(*old(self)),
        ensures
            host_wf(*final(self)),
            final(self).ip == old(self).ip,
            final(self).ping_res == old(self).ping_res,
            final(self).ping_type == old(self).ping_type,
            final(self).tcp_ports@ == old(self).tcp_ports@,
            final(self).ping_done == old(self).ping_done,
            match outcome {
                Ok((name, method)) => final(self).host_name matches Some(Ok(n)) && n == name
                    && final(self).res_type == Some(method),
                Err(e) => final(self).host_name matches Some(Err(reason)) && reason@
                    == e.spec_text() && final(self).res_type == old(self).res_type,
            },
    {
        match outcome {
            Ok((name, method)) => {
                self.host_name = Some(Ok(name));
                self.res_type = Some(method);
            },
            Err(e) => {
                self.host_name = Some(Err(e.text()));
            },
        }
    }

    /// Confirm one more open TCP port; the set only grows.
    pub fn add_tcp_port(&mut self, port: u16)
        requires
            host_wf(*old(self)),
        ensures
            host_wf(*final(self)),
            final(self).ip == old(self).ip,
            final(self).ping_res == old(self).ping_res,
            final(self).ping_type == old(self).ping_type,
            final(self).host_name == old(self).host_name,
            final(self).res_type == old(self).res_type,
            final(self).ping_done == old(self).ping_done,
            forall|q: u16|
                final(self).tcp_ports@.contains(q) <==> (old(self).tcp_ports@.contains(q) || q
                    == port),
    {
        insert_port(&mut self.tcp_ports, port);
    }

    /// Mark the pipeline finished.
    pub fn finish(&mut self)
        requires
            host_wf(*old(self)),
        ensures
            host_wf(*final(self)),
            *final(self) == (Host { ping_done: true, ..*old(self) }),
    {
        self.ping_done = true;
    }

    /// The whole per-target pipeline, from the outcomes the runtime
    /// gathered: liveness first; resolution only when the host answered —
    /// a failed liveness skips resolution entirely and ends the pipeline.
    /// The result is always terminal.
    pub fn host_ping(
        ip: Ipv4Addr,
        udp_ms: Option<u64>,
        tcp_ms: Option<u64>,
        resolution: Result<(String, HostResolutionType), FindiError>,
    ) -> (h: Host)
        ensures
            host_wf(h),
            h.ip == ip,
            h.ping_done,
            udp_ms is None && tcp_ms is None ==> h.ping_res is None && h.host_name is None
                && h.res_type is None && h.tcp_ports@ == Seq::<u16>::empty(),
            (match udp_ms {
                Some(ms) => h.ping_res == Some(ms) && h.ping_type == Some(PingType::UDP)
                    && h.tcp_ports@ == Seq::<u16>::empty(),
                None => true,
            }),
            (match (udp_ms, tcp_ms) {
                (None, Some(ms)) => h.ping_res == Some(ms) && h.ping_type == Some(PingType::TCP)
                    && (forall|q: u16| h.tcp_ports@.contains(q) <==> q == TCP_PING_PORT),
                _ => true,
            }),
            (udp_ms is Some || tcp_ms is Some) ==> match resolution {
                Ok((name, method)) => h.host_name matches Some(Ok(n)) && n == name && h.res_type
                    == Some(method),
                Err(e) => h.host_name matches Some(Err(reason)) && reason@ == e.spec_text()
                    && h.res_type is None,
            },
    {
        let mut host = Host::new(ip);
        host.apply_ping(udp_ms, tcp_ms);
        if host.ping_res.is_none() {
            host.finish();
            return host;
        }
        host.apply_resolution(resolution);
        host.finish();
        host
    }
}

/// Law: a target recorded unreachable has no resolution attempt recorded
/// and an empty port set — whatever the resolution chain might have said.
pub proof fn lemma_unreachable_is_bare(
    ip: Ipv4Addr,
    resolution: Result<(String, HostResolutionType), FindiError>,
    h: Host,
)
    requires
        call_ensures(Host::host_ping, (ip, None::<u64>, None::<u64>, resolution), h),
    ensures
        h.ping_res is None,
        h.host_name is None,
        h.res_type is None,
        h.tcp_ports@ == Seq::<u16>::empty(),
        h.ping_done,
{
}

} // verus!
