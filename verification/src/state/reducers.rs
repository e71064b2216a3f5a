//! The pure reducer: every action's exact effect on the state.

use vstd::prelude::*;
use vstd::string::{StrSliceExecFns, StringExecFns};
use vstd::utf8::encode_utf8;
use crate::addr::Ipv4Addr;
use crate::config::AppConfig;
use crate::host::{host_wf, spec_is_unprobed, spec_same_host, Host};
use crate::ports::{
    common_ports, parse_portlist, spec_ascending, spec_common_ports, spec_portlist,
};
use crate::state::application_state::{spec_filtered, state_wf, ApplicationState};
use crate::state::actions::AppAction;
use crate::state::host_modal_state::{
    spec_modal_titles, HostModalAction, HostModalState, TcpPortScanResult,
};
use crate::text::{ascii_view, push_char, spec_decimal};
use crate::ui::{Key, ModalOpt, ModalType, NotificationLevel, SearchFilterOption};

verus! {

/// A record list freshly built from a target list: one unprobed record per
/// target, in order.
pub open spec fn spec_hosts_built(targets: Seq<Ipv4Addr>, hosts: Seq<Host>) -> bool {
    hosts.len() == targets.len() && forall|i: int|
        0 <= i < targets.len() ==> spec_is_unprobed(#[trigger] hosts[i], targets[i])
}

/// The first record with the given address, searching from `i`.
pub open spec fn spec_ip_index(hosts: Seq<Host>, ip: Ipv4Addr, i: int) -> Option<int>
    decreases hosts.len() - i,
{
    if i < 0 || i >= hosts.len() {
        None
    } else if hosts[i].ip == ip {
        Some(i)
    } else {
        spec_ip_index(hosts, ip, i + 1)
    }
}

/// The keyed upsert: replace the first record with the report's address,
/// or change nothing when no record has it.
pub open spec fn spec_upserted(pre: Seq<Host>, h: Host, post: Seq<Host>) -> bool {
    match spec_ip_index(pre, h.ip, 0) {
        Some(j) => post == pre.update(j, h),
        None => post == pre,
    }
}

/// An ascending, deduplicated list spelling exactly the set `ps`.
pub open spec fn spec_port_query_matches(pq: Seq<u16>, ps: Set<u16>) -> bool {
    spec_ascending(pq) && forall|p: u16| pq.contains(p) <==> ps.contains(p)
}

/// A fresh port-result list: exactly the ports of `ps`, ascending, none
/// probed yet.
pub open spec fn spec_fresh_ports(ports: Seq<TcpPortScanResult>, ps: Set<u16>) -> bool {
    &&& forall|i: int| 0 <= i < ports.len() ==> (#[trigger] ports[i]).1 is None
    &&& spec_ascending(Seq::new(ports.len(), |i: int| ports[i].0))
    &&& forall|p: u16|
        (exists|i: int| 0 <= i < ports.len() && (#[trigger] ports[i]).0 == p) <==> ps.contains(p)
}

/// The first port entry for the given port, searching from `i`.
pub open spec fn spec_port_index(ports: Seq<TcpPortScanResult>, port: u16, i: int) -> Option<int>
    decreases ports.len() - i,
{
    if i < 0 || i >= ports.len() {
        None
    } else if ports[i].0 == port {
        Some(i)
    } else {
        spec_port_index(ports, port, i + 1)
    }
}

/// The port query after one key: a character appends, backspace drops the
/// last character, anything else leaves it.
pub open spec fn spec_edited_query(q: Seq<char>, key: Key) -> Seq<char> {
    match key {
        Key::Char(c) => q + seq![c],
        Key::Backspace => if q.len() > 0 {
            q.drop_last()
        } else {
            q
        },
        _ => q,
    }
}

/// The common-ports table as fresh, unprobed entries.
pub open spec fn spec_common_port_results() -> Seq<TcpPortScanResult> {
    Seq::new(spec_common_ports().len(), |i: int| (spec_common_ports()[i], None))
}

/// The first record with the given address gains the port; every other
/// record, and everything else about that record, stands.
pub open spec fn spec_host_port_added(
    pre: Seq<Host>,
    ip: Ipv4Addr,
    port: u16,
    post: Seq<Host>,
) -> bool {
    match spec_ip_index(pre, ip, 0) {
        Some(j) => post.len() == pre.len() && (forall|k: int|
            0 <= k < pre.len() && k != j ==> post[k] == pre[k]) && post[j].ip == pre[j].ip
            && post[j].ping_res == pre[j].ping_res && post[j].ping_type == pre[j].ping_type
            && post[j].host_name == pre[j].host_name && post[j].res_type == pre[j].res_type
            && post[j].ping_done == pre[j].ping_done && (forall|q: u16|
            post[j].tcp_ports@.contains(q) <==> (pre[j].tcp_ports@.contains(q) || q == port)),
        None => post == pre,
    }
}

/// The modal fields a detail-view action leaves alone.
pub open spec fn spec_same_modal_frame(a: HostModalState, b: HostModalState) -> bool {
    &&& a.tab_state == b.tab_state
    &&& a.selected_host == b.selected_host
    &&& a.port_query == b.port_query
    &&& a.port_scan_in_progress == b.port_scan_in_progress
}

/// The exact effect of one detail-view action on the modal and, for a port
/// confirmed open, on the record list.
pub open spec fn spec_modal_reduces(
    ma: HostModalAction,
    ms: HostModalState,
    hosts: Seq<Host>,
    ms2: HostModalState,
    hosts2: Seq<Host>,
) -> bool {
    match ma {
        HostModalAction::SetSelected(idx) => hosts2 == hosts && ms2.tab_state.index == idx
            && ms2.tab_state.titles == ms.tab_state.titles && ms2.selected_host
            == ms.selected_host && ms2.port_query == ms.port_query && ms2.ports == ms.ports
            && ms2.port_scan_in_progress == ms.port_scan_in_progress,
        HostModalAction::SetPortQueryInput(key) => {
            let newq = spec_edited_query(ms.port_query@, key);
            &&& hosts2 == hosts
            &&& ms2.tab_state == ms.tab_state
            &&& ms2.selected_host == ms.selected_host
            &&& ms2.port_scan_in_progress == ms.port_scan_in_progress
            &&& ms2.port_query@ == newq
            &&& match spec_portlist(encode_utf8(newq)) {
                Some(ps) => spec_fresh_ports(ms2.ports@, ps),
                None => ms2.ports == ms.ports,
            }
        },
        HostModalAction::SetPortScanResult(res) => {
            &&& spec_same_modal_frame(ms2, ms)
            &&& match spec_port_index(ms.ports@, res.0, 0) {
                Some(j) => ms2.ports@ == ms.ports@.update(j, res) && (match res.1 {
                    Some(Ok(_)) => spec_host_port_added(
                        hosts,
                        ms.selected_host.ip,
                        res.0,
                        hosts2,
                    ),
                    _ => hosts2 == hosts,
                }),
                None => ms2.ports@ == ms.ports@.push(res) && hosts2 == hosts,
            }
        },
        HostModalAction::SetCommonPortsForScanning => hosts2 == hosts && spec_same_modal_frame(
            ms2,
            ms,
        ) && ms2.ports@ == ms.ports@ + spec_common_port_results(),
        _ => hosts2 == hosts && ms2 == ms,
    }
}

/// The exact effect of one action: what changes, and that nothing else
/// does.
pub open spec fn spec_reduces(
    action: AppAction,
    pre: ApplicationState,
    post: ApplicationState,
) -> bool {
    match action {
        AppAction::BuildHosts(targets) => post == (ApplicationState { hosts: post.hosts, ..pre })
            && spec_hosts_built(targets@, post.hosts@),
        AppAction::UpdateHost(h) => post == (ApplicationState { hosts: post.hosts, ..pre })
            && spec_upserted(pre.hosts@, h, post.hosts@),
        AppAction::SetQuery(q) => post == (ApplicationState { query: q, ..pre }),
        AppAction::SetPortQuery(opt) => match opt {
            Some(pq) => match spec_portlist(encode_utf8(pq@)) {
                Some(ps) => post == (ApplicationState { port_query: post.port_query, ..pre })
                    && spec_port_query_matches(post.port_query@, ps),
                None => post == (ApplicationState { port_query: pre.port_query, ..pre }),
            },
            None => post == (ApplicationState { port_query: post.port_query, ..pre })
                && post.port_query@ == Seq::<u16>::empty(),
        },
        AppAction::SetInputErr(b) => post == (ApplicationState { input_err: b, ..pre }),
        AppAction::SetHostSearchRun(run) => if run {
            &&& post == (ApplicationState {
                search_run: true,
                notification: post.notification,
                ..pre
            })
            &&& post.notification matches Some(nf) && nf.title@ == "Status"@ && nf.message@
                == "Querying "@ + ascii_view(spec_decimal(pre.hosts@.len())) + " hosts..."@
                && nf.level == NotificationLevel::Info
        } else {
            post == (ApplicationState { search_run: false, ..pre })
        },
        AppAction::NewQuery(targets) => post == (ApplicationState {
            hosts: post.hosts,
            search_run: true,
            ..pre
        }) && spec_hosts_built(targets@, post.hosts@),
        AppAction::TableSelect(idx) => post == (ApplicationState { table_selected: idx, ..pre }),
        AppAction::ShiftFocus(c) => post == (ApplicationState { curr_focus: c, ..pre }),
        AppAction::SetNotification(n) => post == (ApplicationState { notification: n, ..pre }),
        AppAction::SetModal(m) => if m is None {
            post == (ApplicationState {
                modal: None,
                selected_host: None,
                modal_state: None,
                ..pre
            })
        } else {
            post == (ApplicationState { modal: m, ..pre })
        },
        AppAction::QueryComplete => {
            &&& post == (ApplicationState {
                query_state: true,
                search_run: false,
                notification: post.notification,
                ..pre
            })
            &&& post.notification matches Some(nf) && nf.title@ == "Status"@ && nf.message@
                == "Host search complete"@ && nf.level == NotificationLevel::Info
        },
        AppAction::SetSearchFilter(o) => post == (ApplicationState {
            search_filter_opt: o,
            ..pre
        }),
        AppAction::SetSelectedHost(sel) => match sel {
            Some(i) => {
                &&& post == (ApplicationState {
                    selected_host: Some(i),
                    modal: post.modal,
                    modal_state: post.modal_state,
                    ..pre
                })
                &&& post.modal matches Some(m) && m.title@ == "Host info"@ && m.message@
                    == "Host information"@ && m.modal_type == ModalType::Custom && m.selected
                    == ModalOpt::Yes
                &&& post.modal_state matches Some(ms) && spec_modal_titles(ms.tab_state.titles@)
                    && ms.tab_state.index == 0 && spec_same_host(
                    ms.selected_host,
                    spec_filtered(pre.hosts@, pre.search_filter_opt, pre.port_query@)[i as int],
                ) && ms.port_query@ == Seq::<char>::empty() && ms.ports@ == Seq::<
                    TcpPortScanResult,
                >::empty() && !ms.port_scan_in_progress
            },
            None => post == (ApplicationState {
                selected_host: None,
                modal: None,
                modal_state: None,
                ..pre
            }),
        },
        AppAction::SetModalAction(ma) => {
            &&& post == (ApplicationState {
                hosts: post.hosts,
                modal_state: post.modal_state,
                ..pre
            })
            &&& pre.modal_state matches Some(ms) && post.modal_state matches Some(ms2)
                && spec_modal_reduces(ma, ms, pre.hosts@, ms2, post.hosts@)
        },
        AppAction::SetConfig(c) => post == (ApplicationState { app_config: c, ..pre }),
        AppAction::SetConfigNWorkers(n) => post == (ApplicationState {
            app_config: AppConfig { nworkers: n, ..pre.app_config },
            ..pre
        }),
        AppAction::SetConfigTick(t) => post == (ApplicationState {
            app_config: AppConfig { tick_len: t, ..pre.app_config },
            ..pre
        }),
        AppAction::SetNetworkNameServer(ip) => post == (ApplicationState {
            network_name_server: Some(ip),
            ..pre
        }),
        _ => post == pre,
    }
}

/// What an action asks of the state it is applied to: reports carry
/// well-kept records, detail-view actions need the detail view open, and
/// selecting a host needs the row to exist.
pub open spec fn spec_action_pre(action: AppAction, s: ApplicationState) -> bool {
    match action {
        AppAction::UpdateHost(h) => host_wf(h),
        AppAction::SetModalAction(_) => s.modal_state is Some,
        AppAction::SetSelectedHost(sel) => match sel {
            Some(i) => i < spec_filtered(s.hosts@, s.search_filter_opt, s.port_query@).len(),
            None => true,
        },
        _ => true,
    }
}

/// Fresh records for a target list.
fn build_hosts(targets: &Vec<Ipv4Addr>) -> (r: Vec<Host>)
    ensures
        spec_hosts_built(targets@, r@),
        forall|i: int| 0 <= i < r@.len() ==> host_wf(#[trigger] r@[i]),
{
    let mut r: Vec<Host> = Vec::new();
    let mut i: usize = 0;
    while i < targets.len()
        invariant
            i <= targets@.len(),
            r@.len() == i,
            forall|j: int| 0 <= j < i ==> spec_is_unprobed(#[trigger] r@[j], targets@[j]),
            forall|j: int| 0 <= j < i ==> host_wf(#[trigger] r@[j]),
        decreases targets@.len() - i,
    {
        r.push(Host::new(targets[i]));
        i = i + 1;
    }
    r
}

/// Fresh unprobed entries for a parsed port list.
fn fresh_port_results(parsed: &Vec<u16>) -> (r: Vec<TcpPortScanResult>)
    ensures
        r@.len() == parsed@.len(),
        forall|i: int| 0 <= i < r@.len() ==> #[trigger] r@[i] == (parsed@[i], None::<Result<
            u64,
            (),
        >>),
    {
    let mut r: Vec<TcpPortScanResult> = Vec::new();
    let mut i: usize = 0;
    while i < parsed.len()
        invariant
            i <= parsed@.len(),
            r@.len() == i,
            forall|j: int| 0 <= j < i ==> #[trigger] r@[j] == (parsed@[j], None::<Result<
                u64,
                (),
            >>),
        decreases parsed@.len() - i,
    {
        r.push((parsed[i], None));
        i = i + 1;
    }
    r
}

impl ApplicationState {
    /// Apply one action in place. The exact effect is `spec_reduces`.
    pub fn apply(&mut self, action: AppAction)
        requires
            state_wf(*old(self)),
            spec_action_pre(action, *old(self)),
        ensures
            state_wf(*final(self)),
            spec_reduces(action, *old(self), *final(self)),
    {
        match action {
            AppAction::BuildHosts(targets) => {
                self.hosts = build_hosts(&targets);
            },
            AppAction::UpdateHost(h) => {
                self.upsert_host(h);
            },
            AppAction::SetQuery(q) => {
                self.query = q;
            },
            AppAction::SetPortQuery(opt) => {
                match opt {
                    Some(pq) => {
                        match parse_portlist(pq.as_str()) {
                            Ok(ports) => {
                                self.port_query = ports;
                            },
                            Err(_) => {},
                        }
                    },
                    None => {
                        self.port_query = Vec::new();
                    },
                }
            },
            AppAction::SetInputErr(b) => {
                self.input_err = b;
            },
            AppAction::SetHostSearchRun(run) => {
                self.search_run = run;
                if run {
                    let mut msg = String::from_str("Querying ");
                    let count = crate::text::decimal_string(self.hosts.len() as u64);
                    msg.append(count.as_str());
                    msg.append(" hosts...");
                    self.notification = Some(
                        crate::ui::Notification {
                            title: String::from_str("Status"),
                            message: msg,
                            level: NotificationLevel::Info,
                        },
                    );
                }
            },
            AppAction::NewQuery(targets) => {
                self.hosts = build_hosts(&targets);
                self.search_run = true;
            },
            AppAction::TableSelect(idx) => {
                self.table_selected = idx;
            },
            AppAction::ShiftFocus(c) => {
                self.curr_focus = c;
            },
            AppAction::SetNotification(n) => {
                self.notification = n;
            },
            AppAction::SetModal(m) => {
                match m {
                    None => {
                        self.modal = None;
                        self.selected_host = None;
                        self.modal_state = None;
                    },
                    Some(modal) => {
                        self.modal = Some(modal);
                    },
                }
            },
            AppAction::QueryComplete => {
                self.query_state = true;
                self.search_run = false;
                self.notification = Some(
                    crate::ui::Notification {
                        title: String::from_str("Status"),
                        message: String::from_str("Host search complete"),
                        level: NotificationLevel::Info,
                    },
                );
            },
            AppAction::SetSearchFilter(o) => {
                self.search_filter_opt = o;
            },
            AppAction::SetSelectedHost(sel) => {
                match sel {
                    Some(i) => {
                        let picked = self.get_selected_host_at(i);
                        self.selected_host = Some(i);
                        self.modal = Some(
                            crate::ui::Modal::new(
                                "Host info",
                                "Host information",
                                ModalType::Custom,
                            ),
                        );
                        self.modal_state = Some(HostModalState::new(picked));
                    },
                    None => {
                        self.selected_host = None;
                        self.modal = None;
                        self.modal_state = None;
                    },
                }
            },
            AppAction::SetModalAction(ma) => {
                self.apply_modal_action(ma);
            },
            AppAction::SetConfig(c) => {
                self.app_config = c;
            },
            AppAction::SetConfigNWorkers(n) => {
                self.app_config.nworkers = n;
            },
            AppAction::SetConfigTick(t) => {
                self.app_config.tick_len = t;
            },
            AppAction::SetNetworkNameServer(ip) => {
                self.network_name_server = Some(ip);
            },
            AppAction::UpdatePingResult(_, _) => {},
            AppAction::RestartQuery => {},
            AppAction::IterateFocus => {},
        }
    }

    /// The filtered record at row `i`, copied out.
    fn get_selected_host_at(&self, i: usize) -> (h: Host)
        requires
            state_wf(*self),
            i < spec_filtered(self.hosts@, self.search_filter_opt, self.port_query@).len(),
        ensures
            spec_same_host(
                h,
                spec_filtered(self.hosts@, self.search_filter_opt, self.port_query@)[i as int],
            ),
            host_wf(h),
    {
        let filtered = self.filtered_hosts();
        let h = filtered[i].duplicate();
        proof {
            crate::state::application_state::lemma_filtered_wf(
                self.hosts@,
                self.search_filter_opt,
                self.port_query@,
            );
        }
        h
    }

    /// Replace the first record carrying the report's address, if any.
    fn upsert_host(&mut self, h: Host)
        requires
            state_wf(*old(self)),
            host_wf(h),
        ensures
            state_wf(*final(self)),
            *final(self) == (ApplicationState { hosts: final(self).hosts, ..*old(self) }),
            spec_upserted(old(self).hosts@, h, final(self).hosts@),
    {
        let ip = h.ip;
        let n = self.hosts.len();
        let mut i: usize = 0;
        while i < n
            invariant
                i <= n,
                n == self.hosts@.len(),
                state_wf(*self),
                host_wf(h),
                ip == h.ip,
                spec_ip_index(self.hosts@, ip, 0) == spec_ip_index(self.hosts@, ip, i as int),
                forall|j: int| 0 <= j < i ==> (#[trigger] self.hosts@[j]).ip != ip,
                self == old(self),
            decreases n - i,
        {
            if self.hosts[i].ip == ip {
                let ghost pre = self.hosts@;
                let ghost gh = h;
                self.hosts.set(i, h);
                proof {
                    assert(old(self).hosts@ == pre);
                    assert(spec_ip_index(pre, ip, i as int) == Some(i as int));
                    assert(spec_ip_index(pre, ip, 0) == Some(i as int));
                    assert(self.hosts@ =~= pre.update(i as int, gh));
                    assert(self.hosts@ == pre.update(i as int, gh));
                    assert(gh.ip == ip);
                    assert(spec_upserted(pre, gh, self.hosts@));
                    assert forall|k: int| 0 <= k < self.hosts@.len() implies host_wf(
                        #[trigger] self.hosts@[k],
                    ) by {
                        if k != i as int {
                            assert(self.hosts@[k] == pre[k]);
                            assert(host_wf(old(self).hosts@[k]));
                        }
                    }
                }
                return;
            }
            i = i + 1;
        }
    }

    /// Apply one detail-view action.
    fn apply_modal_action(&mut self, ma: HostModalAction)
        requires
            state_wf(*old(self)),
            old(self).modal_state is Some,
        ensures
            state_wf(*final(self)),
            *final(self) == (ApplicationState {
                hosts: final(self).hosts,
                modal_state: final(self).modal_state,
                ..*old(self)
            }),
            final(self).modal_state matches Some(ms2) && spec_modal_reduces(
                ma,
                old(self).modal_state.unwrap(),
                old(self).hosts@,
                ms2,
                final(self).hosts@,
            ),
    {
        let taken = self.modal_state.take();
        match taken {
            None => {
                // Unreachable: the caller holds the detail view open.
                proof {
                    assert(false);
                }
            },
            Some(mut ms) => {
                match ma {
                    HostModalAction::SetSelected(idx) => {
                        ms.tab_state.index = idx;
                    },
                    HostModalAction::SetPortQueryInput(key) => {
                        match key {
                            Key::Char(c) => {
                                push_char(&mut ms.port_query, c);
                            },
                            Key::Backspace => {
                                let l = ms.port_query.as_str().unicode_len();
                                if l > 0 {
                                    let newq = String::from_str(
                                        ms.port_query.as_str().substring_char(0, l - 1),
                                    );
                                    proof {
                                        assert(newq@ =~= ms.port_query@.drop_last());
                                    }
                                    ms.port_query = newq;
                                }
                            },
                            _ => {},
                        }
                        match parse_portlist(ms.port_query.as_str()) {
                            Ok(parsed) => {
                                let fresh = fresh_port_results(&parsed);
                                proof {
                                    let ps = spec_portlist(
                                        encode_utf8(ms.port_query@),
                                    ).unwrap();
                                    assert(Seq::new(fresh@.len(), |i: int| fresh@[i].0)
                                        =~= parsed@);
                                    assert forall|p: u16|
                                        (exists|i: int|
                                            0 <= i < fresh@.len() && (#[trigger] fresh@[i]).0
                                                == p) <==> ps.contains(p) by {
                                        if exists|i: int|
                                            0 <= i < fresh@.len() && (#[trigger] fresh@[i]).0
                                                == p {
                                            let i = choose|i: int|
                                                0 <= i < fresh@.len() && (
                                                #[trigger] fresh@[i]).0 == p;
                                            assert(parsed@[i] == p);
                                            assert(parsed@.contains(p));
                                        }
                                        if ps.contains(p) {
                                            assert(parsed@.contains(p));
                                            let i = choose|i: int|
                                                0 <= i < parsed@.len() && parsed@[i] == p;
                                            assert(fresh@[i].0 == p);
                                        }
                                    }
                                }
                                ms.ports = fresh;
                            },
                            Err(_) => {},
                        }
                    },
                    HostModalAction::SetPortScanResult(res) => {
                        let port = res.0;
                        let n = ms.ports.len();
                        let mut i: usize = 0;
                        let mut found = false;
                        while i < n && !found
                            invariant
                                i <= n,
                                n == ms.ports@.len(),
                                spec_port_index(ms.ports@, port, 0) == if found {
                                    Some(i as int)
                                } else {
                                    spec_port_index(ms.ports@, port, i as int)
                                },
                                found ==> i < n && ms.ports@[i as int].0 == port,
                            decreases n - i + (if found { 0int } else { 1int }),
                        {
                            if ms.ports[i].0 == port {
                                found = true;
                            } else {
                                i = i + 1;
                            }
                        }
                        if found {
                            let ghost pre_ports = ms.ports@;
                            ms.ports.set(i, res);
                            proof {
                                assert(ms.ports@ =~= pre_ports.update(i as int, res));
                            }
                            let confirm = match res.1 {
                                Some(Ok(_)) => true,
                                _ => false,
                            };
                            if confirm {
                                self.add_port_to_host(ms.selected_host.ip, port);
                            }
                        } else {
                            ms.ports.push(res);
                        }
                    },
                    HostModalAction::SetCommonPortsForScanning => {
                        let cps = common_ports();
                        let ghost ms0 = ms;
                        let ghost pre_ports = ms.ports@;
                        let mut k: usize = 0;
                        while k < cps.len()
                            invariant
                                k <= cps@.len(),
                                cps@ == spec_common_ports(),
                                ms.tab_state == ms0.tab_state,
                                ms.selected_host == ms0.selected_host,
                                ms.port_query == ms0.port_query,
                                ms.port_scan_in_progress == ms0.port_scan_in_progress,
                                ms.ports@ == pre_ports + spec_common_port_results().take(
                                    k as int,
                                ),
                            decreases cps@.len() - k,
                        {
                            ms.ports.push((cps[k], None));
                            k = k + 1;
                            proof {
                                assert(ms.ports@ =~= pre_ports
                                    + spec_common_port_results().take(k as int));
                            }
                        }
                        proof {
                            assert(spec_common_port_results().take(
                                spec_common_ports().len() as int,
                            ) =~= spec_common_port_results());
                        }
                    },
                    HostModalAction::ClearPortScanResults => {},
                    HostModalAction::FinishPortScan => {},
                }
                self.modal_state = Some(ms);
            },
        }
    }

    /// Confirm one open port on the first record carrying the address.
    fn add_port_to_host(&mut self, ip: Ipv4Addr, port: u16)
        requires
            state_wf(*old(self)),
        ensures
            state_wf(*final(self)),
            *final(self) == (ApplicationState { hosts: final(self).hosts, ..*old(self) }),
            spec_host_port_added(old(self).hosts@, ip, port, final(self).hosts@),
    {
        let n = self.hosts.len();
        let mut i: usize = 0;
        while i < n
            invariant
                i <= n,
                n == self.hosts@.len(),
                state_wf(*self),
                spec_ip_index(self.hosts@, ip, 0) == spec_ip_index(self.hosts@, ip, i as int),
                forall|j: int| 0 <= j < i ==> (#[trigger] self.hosts@[j]).ip != ip,
                self == old(self),
            decreases n - i,
        {
            if self.hosts[i].ip == ip {
                let ghost pre = self.hosts@;
                let mut h = self.hosts[i].duplicate();
                h.add_tcp_port(port);
                self.hosts.set(i, h);
                proof {
                    assert(old(self).hosts@ == pre);
                    assert(spec_ip_index(pre, ip, i as int) == Some(i as int));
                    assert(self.hosts@ =~= pre.update(i as int, h));
                    assert(forall|k: int|
                        0 <= k < pre.len() && k != i as int ==> self.hosts@[k] == pre[k]);
                    assert forall|k: int| 0 <= k < self.hosts@.len() implies host_wf(
                        #[trigger] self.hosts@[k],
                    ) by {
                        if k != i as int {
                            assert(self.hosts@[k] == pre[k]);
                        }
                    }
                }
                return;
            }
            i = i + 1;
        }
    }
}

/// The reducer as a value-to-value function, for callers that hold the
/// state by value.
pub struct AppReducer {}

impl AppReducer {
    /// Apply one action to a state and hand the new state back.
    pub fn reduce(action: AppAction, state: ApplicationState) -> (s2: ApplicationState)
        requires
            state_wf(state),
            spec_action_pre(action, state),
        ensures
            state_wf(s2),
            spec_reduces(action, state, s2),
    {
        let mut s = state;
        s.apply(action);
        s
    }
}

} // verus!
