//! The one state value everything reads.

use vstd::prelude::*;
use crate::addr::Ipv4Addr;
use crate::config::AppConfig;
use crate::host::{host_wf, spec_same_host, Host, HostVec};
use crate::state::host_modal_state::HostModalState;
use crate::ui::{Modal, Notification, PageContent, SearchFilterOption};

verus! {

/// The scan's records and the front end's modelled widgets, together under
/// one lock at run time.
pub struct ApplicationState {
    /// One record per target of the current run.
    pub hosts: HostVec,
    /// The query text the run was started from.
    pub query: String,
    /// The parsed port list of the run, ascending and deduplicated.
    pub port_query: Vec<u16>,
    /// Whether a finished run's completion was recorded.
    pub query_state: bool,
    /// Whether the query input holds a rejected value.
    pub input_err: bool,
    /// The scan-scoped "still running" flag; cleared to cancel.
    pub search_run: bool,
    /// Which part of the page holds the focus.
    pub curr_focus: PageContent,
    /// The host table's selected row, if any.
    pub table_selected: Option<usize>,
    /// The notice in the corner, if any.
    pub notification: Option<Notification>,
    /// The open modal, if any.
    pub modal: Option<Modal>,
    /// Index into the filtered records of the host under detail view.
    pub selected_host: Option<usize>,
    /// The detail modal's own state, if open.
    pub modal_state: Option<HostModalState>,
    /// Which records the table shows.
    pub search_filter_opt: SearchFilterOption,
    /// The run's configuration.
    pub app_config: AppConfig,
    /// A name server learnt from the network, if any.
    pub network_name_server: Option<Ipv4Addr>,
}

/// Every record of the state keeps its invariant.
pub open spec fn state_wf(s: ApplicationState) -> bool {
    &&& forall|i: int| 0 <= i < s.hosts@.len() ==> host_wf(#[trigger] s.hosts@[i])
    &&& match s.modal_state {
        Some(ms) => host_wf(ms.selected_host),
        None => true,
    }
}

impl Default for ApplicationState {
    /// The state before any run: no records, no query, nothing selected.
    fn default() -> (s: ApplicationState)
        ensures
            s.hosts@ == Seq::<Host>::empty(),
            s.query@ == Seq::<char>::empty(),
            s.port_query@ == Seq::<u16>::empty(),
            !s.query_state,
            !s.input_err,
            !s.search_run,
            s.curr_focus == PageContent::HostTable,
            s.table_selected is None,
            s.notification is None,
            s.modal is None,
            s.selected_host is None,
            s.modal_state is None,
            s.search_filter_opt == SearchFilterOption::ShowAll,
            s.app_config == (AppConfig { nworkers: 100, tick_len: 100 }),
            s.network_name_server is None,
            state_wf(s),
    {
        ApplicationState {
            hosts: Vec::new(),
            query: String::new(),
            port_query: Vec::new(),
            query_state: false,
            input_err: false,
            search_run: false,
            curr_focus: Default::default(),
            table_selected: None,
            notification: None,
            modal: None,
            selected_host: None,
            modal_state: None,
            search_filter_opt: Default::default(),
            app_config: Default::default(),
            network_name_server: None,
        }
    }
}

/// Whether one record passes the table's filter. An out-of-range port
/// filter passes nothing.
pub open spec fn spec_filter_pass(h: Host, opt: SearchFilterOption, pq: Seq<u16>) -> bool {
    match opt {
        SearchFilterOption::ShowAll => true,
        SearchFilterOption::ShowFound => h.ping_res is Some || (h.host_name matches Some(
            Ok(_),
        )),
        SearchFilterOption::HasPort(idx) => 0 <= idx < pq.len() && h.tcp_ports@.contains(
            pq[idx as int],
        ),
    }
}

/// The records that pass the filter, in table order.
pub open spec fn spec_filtered(hosts: Seq<Host>, opt: SearchFilterOption, pq: Seq<u16>) -> Seq<
    Host,
>
    decreases hosts.len(),
{
    if hosts.len() == 0 {
        Seq::empty()
    } else if spec_filter_pass(hosts[0], opt, pq) {
        seq![hosts[0]] + spec_filtered(hosts.drop_first(), opt, pq)
    } else {
        spec_filtered(hosts.drop_first(), opt, pq)
    }
}

/// Taking one more record extends the filtered list exactly when it
/// passes.
pub proof fn lemma_filtered_take(hosts: Seq<Host>, opt: SearchFilterOption, pq: Seq<u16>, i: int)
    requires
        0 <= i < hosts.len(),
    ensures
        spec_filtered(hosts.take(i + 1), opt, pq) == if spec_filter_pass(hosts[i], opt, pq) {
            spec_filtered(hosts.take(i), opt, pq) + seq![hosts[i]]
        } else {
            spec_filtered(hosts.take(i), opt, pq)
        },
    decreases i,
{
    if i == 0 {
        assert(hosts.take(1).drop_first() =~= Seq::<Host>::empty());
        assert(hosts.take(0) =~= Seq::<Host>::empty());
        assert(hosts.take(1)[0] == hosts[0]);
        if spec_filter_pass(hosts[0], opt, pq) {
            assert(spec_filtered(hosts.take(1), opt, pq) =~= spec_filtered(
                hosts.take(0),
                opt,
                pq,
            ) + seq![hosts[0]]);
        }
    } else {
        let r = hosts.drop_first();
        assert(hosts.take(i + 1).drop_first() =~= r.take(i));
        assert(hosts.take(i).drop_first() =~= r.take(i - 1));
        assert(hosts.take(i + 1)[0] == hosts[0]);
        assert(hosts.take(i)[0] == hosts[0]);
        lemma_filtered_take(r, opt, pq, i - 1);
        assert(r[i - 1] == hosts[i]);
        if spec_filter_pass(hosts[i], opt, pq) {
            if spec_filter_pass(hosts[0], opt, pq) {
                assert(spec_filtered(hosts.take(i + 1), opt, pq) =~= spec_filtered(
                    hosts.take(i),
                    opt,
                    pq,
                ) + seq![hosts[i]]);
            } else {
                assert(spec_filtered(hosts.take(i + 1), opt, pq) =~= spec_filtered(
                    hosts.take(i),
                    opt,
                    pq,
                ) + seq![hosts[i]]);
            }
        }
    }
}

/// Filtering keeps only records of the list, so their invariants carry
/// over.
pub proof fn lemma_filtered_wf(hosts: Seq<Host>, opt: SearchFilterOption, pq: Seq<u16>)
    requires
        forall|i: int| 0 <= i < hosts.len() ==> host_wf(#[trigger] hosts[i]),
    ensures
        forall|i: int|
            0 <= i < spec_filtered(hosts, opt, pq).len() ==> host_wf(
                #[trigger] spec_filtered(hosts, opt, pq)[i],
            ),
    decreases hosts.len(),
{
    if hosts.len() > 0 {
        assert forall|i: int| 0 <= i < hosts.drop_first().len() implies host_wf(
            #[trigger] hosts.drop_first()[i],
        ) by {
            assert(hosts.drop_first()[i] == hosts[i + 1]);
        }
        lemma_filtered_wf(hosts.drop_first(), opt, pq);
        let f = spec_filtered(hosts, opt, pq);
        let fr = spec_filtered(hosts.drop_first(), opt, pq);
        assert forall|i: int| 0 <= i < f.len() implies host_wf(#[trigger] f[i]) by {
            if spec_filter_pass(hosts[0], opt, pq) {
                if i > 0 {
                    assert(f[i] == fr[i - 1]);
                }
            } else {
                assert(f[i] == fr[i]);
            }
        }
    }
}

impl ApplicationState {
    /// Whether one record passes the current filter.
    fn filter_pass(&self, h: &Host) -> (r: bool)
        ensures
            r == spec_filter_pass(*h, self.search_filter_opt, self.port_query@),
    {
        match self.search_filter_opt {
            SearchFilterOption::ShowAll => true,
            SearchFilterOption::ShowFound => match &h.host_name {
                Some(Ok(_)) => true,
                _ => h.ping_res.is_some(),
            },
            SearchFilterOption::HasPort(idx) => {
                if idx < self.port_query.len() {
                    let want = self.port_query[idx];
                    let mut i: usize = 0;
                    let mut found = false;
                    while i < h.tcp_ports.len()
                        invariant
                            i <= h.tcp_ports@.len(),
                            found == exists|j: int|
                                0 <= j < i && #[trigger] h.tcp_ports@[j] == want,
                        decreases h.tcp_ports@.len() - i,
                    {
                        if h.tcp_ports[i] == want {
                            found = true;
                        }
                        i = i + 1;
                    }
                    proof {
                        if found {
                            let j = choose|j: int|
                                0 <= j < h.tcp_ports@.len() && #[trigger] h.tcp_ports@[j]
                                    == want;
                            assert(h.tcp_ports@.contains(want));
                        }
                        if h.tcp_ports@.contains(want) {
                            let j = choose|j: int|
                                0 <= j < h.tcp_ports@.len() && h.tcp_ports@[j] == want;
                            assert(0 <= j < h.tcp_ports@.len() && h.tcp_ports@[j] == want);
                        }
                    }
                    found
                } else {
                    false
                }
            },
        }
    }

    /// Copies of the records that pass the current filter, in order.
    pub fn filtered_hosts(&self) -> (r: Vec<Host>)
        ensures
            ({
                let f = spec_filtered(self.hosts@, self.search_filter_opt, self.port_query@);
                r@.len() == f.len() && forall|i: int|
                    0 <= i < f.len() ==> spec_same_host(#[trigger] r@[i], f[i])
            }),
    {
        let mut r: Vec<Host> = Vec::new();
        let mut i: usize = 0;
        while i < self.hosts.len()
            invariant
                i <= self.hosts@.len(),
                ({
                    let f = spec_filtered(
                        self.hosts@.take(i as int),
                        self.search_filter_opt,
                        self.port_query@,
                    );
                    r@.len() == f.len() && forall|j: int|
                        0 <= j < f.len() ==> spec_same_host(#[trigger] r@[j], f[j])
                }),
            decreases self.hosts@.len() - i,
        {
            let h = &self.hosts[i];
            proof {
                lemma_filtered_take(
                    self.hosts@,
                    self.search_filter_opt,
                    self.port_query@,
                    i as int,
                );
            }
            if self.filter_pass(h) {
                r.push(h.duplicate());
            }
            i = i + 1;
        }
        proof {
            assert(self.hosts@.take(self.hosts@.len() as int) =~= self.hosts@);
        }
        r
    }

    /// The record under detail view, copied out.
    pub fn get_selected_host(&self) -> (r: Option<Host>)
        requires
            match self.selected_host {
                Some(i) => i < spec_filtered(
                    self.hosts@,
                    self.search_filter_opt,
                    self.port_query@,
                ).len(),
                None => true,
            },
        ensures
            match self.selected_host {
                Some(i) => r matches Some(h) && spec_same_host(
                    h,
                    spec_filtered(self.hosts@, self.search_filter_opt, self.port_query@)[
                        i as int],
                ),
                None => r is None,
            },
    {
        match self.selected_host {
            Some(idx) => {
                let filtered = self.filtered_hosts();
                let h = filtered[idx].duplicate();
                Some(h)
            },
            None => None,
        }
    }
}

} // verus!
