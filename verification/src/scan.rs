//! Scan orchestration: the decisions of the bulk scan and the on-demand
//! port scan.
//!
//! The runtime owns the worker pool, the sockets and the sleeps; it drives
//! them by the rules here. Before submitting a unit it consults
//! [`should_submit`]; a unit consults [`unit_should_start`] before doing any
//! work, runs its pipeline, and commits its record with one keyed upsert;
//! after the pool drains, one completion mark is dispatched. Cancellation
//! is cooperative: flags are polled at these points and nowhere else, and
//! an in-flight probe still runs to its own timeout.

use vstd::prelude::*;
use crate::addr::Ipv4Addr;
use crate::host::Host;
use crate::state::actions::AppAction;
use crate::state::application_state::ApplicationState;
use crate::state::reducers::{spec_hosts_built, spec_ip_index, spec_reduces};

verus! {

/// Pause between unit submissions, in milliseconds.
pub const SUBMIT_STAGGER_MS: u64 = 50;

/// Pause between on-demand port probes, in milliseconds.
pub const PORT_SCAN_DELAY_MS: u64 = 10;

/// Whether the orchestrator may submit one more unit: both the
/// process-wide flag and the scan-scoped flag must still stand.
pub open spec fn spec_should_submit(global_run: bool, s: ApplicationState) -> bool {
    global_run && s.search_run
}

/// Whether a unit that reached a worker may start: the scan-scoped flag
/// must still stand, so stale units of a replaced run do no work.
pub open spec fn spec_unit_should_start(s: ApplicationState) -> bool {
    s.search_run
}

/// Whether the on-demand port scan may probe one more port: the
/// process-wide flag stands and the detail view is still open.
pub open spec fn spec_port_scan_continues(global_run: bool, s: ApplicationState) -> bool {
    global_run && s.modal_state is Some
}

/// The submission guard, checked immediately before each unit goes to the
/// pool.
pub fn should_submit(global_run: bool, state: &ApplicationState) -> (r: bool)
    ensures
        r == spec_should_submit(global_run, *state),
{
    global_run && state.search_run
}

/// The start guard, re-checked by each unit before it does any work.
pub fn unit_should_start(state: &ApplicationState) -> (r: bool)
    ensures
        r == spec_unit_should_start(*state),
{
    state.search_run
}

/// The per-port guard of the on-demand scan, checked before every probe.
pub fn port_scan_should_continue(global_run: bool, state: &ApplicationState) -> (r: bool)
    ensures
        r == spec_port_scan_continues(global_run, *state),
{
    global_run && state.modal_state.is_some()
}

/// Law: setting the cancellation flag prevents any new unit from starting.
/// Once the scan-scoped flag is cleared, the orchestrator submits nothing
/// further and no unit that re-checks the flag begins its pipeline;
/// likewise the on-demand port scan stops at its next check once the
/// process-wide flag falls.
pub proof fn lemma_cancellation_blocks(global_run: bool, s: ApplicationState)
    ensures
        !s.search_run ==> !spec_should_submit(global_run, s),
        !s.search_run ==> !spec_unit_should_start(s),
        !global_run ==> !spec_should_submit(global_run, s),
        !global_run ==> !spec_port_scan_continues(global_run, s),
{
}

/// The first record with the given address, when the addresses are laid
/// out one per target.
proof fn lemma_ip_index_found(hosts: Seq<Host>, ip: Ipv4Addr, k: int, m: int)
    requires
        0 <= k <= m < hosts.len(),
        hosts[m].ip == ip,
        forall|j: int| k <= j < m ==> (#[trigger] hosts[j]).ip != ip,
    ensures
        spec_ip_index(hosts, ip, k) == Some(m),
    decreases m - k,
{
    if k < m {
        lemma_ip_index_found(hosts, ip, k + 1, m);
    }
}

/// What one run keeps invariant while workers commit their reports: one
/// record per target, in target order, finished exactly for the targets
/// already reported.
pub open spec fn spec_run_state(
    targets: Seq<Ipv4Addr>,
    reports: Seq<Host>,
    upto: int,
    s: ApplicationState,
) -> bool {
    &&& s.hosts@.len() == targets.len()
    &&& forall|j: int| 0 <= j < targets.len() ==> (#[trigger] s.hosts@[j]).ip == targets[j]
    &&& forall|j: int|
        0 <= j < targets.len() && (exists|k: int|
            0 <= k < upto && (#[trigger] reports[k]).ip == targets[j]) ==> (
        #[trigger] s.hosts@[j]).ping_done
}

/// The chain of commits, step by step: each report's upsert finishes the
/// record of its own target and touches nothing else.
proof fn lemma_scan_chain(
    targets: Seq<Ipv4Addr>,
    reports: Seq<Host>,
    states: Seq<ApplicationState>,
    i: int,
)
    requires
        forall|a: int, b: int| 0 <= a < b < targets.len() ==> targets[a] != targets[b],
        states.len() == reports.len() + 1,
        0 <= i <= reports.len(),
        spec_hosts_built(targets, states[0].hosts@),
        forall|k: int| 0 <= k < reports.len() ==> (#[trigger] reports[k]).ping_done,
        forall|k: int| 0 <= k < reports.len() ==> targets.contains((#[trigger] reports[k]).ip),
        forall|k: int|
            0 <= k < reports.len() ==> spec_reduces(
                AppAction::UpdateHost(reports[k]),
                #[trigger] states[k],
                states[k + 1],
            ),
    ensures
        spec_run_state(targets, reports, i, states[i]),
    decreases i,
{
    if i == 0 {
        assert forall|j: int| 0 <= j < targets.len() implies (#[trigger] states[0].hosts@[j]).ip
            == targets[j] by {
            assert(crate::host::spec_is_unprobed(states[0].hosts@[j], targets[j]));
        }
    } else {
        lemma_scan_chain(targets, reports, states, i - 1);
        let pre = states[i - 1];
        let post = states[i];
        let h = reports[i - 1];
        assert(spec_reduces(AppAction::UpdateHost(reports[i - 1]), states[i - 1], states[i]));
        // The report's target has exactly one record; the upsert lands on it.
        assert(targets.contains(h.ip));
        let m = choose|m: int| 0 <= m < targets.len() && targets[m] == h.ip;
        assert(pre.hosts@[m].ip == h.ip);
        assert forall|j: int| 0 <= j < m implies (#[trigger] pre.hosts@[j]).ip != h.ip by {
            assert(pre.hosts@[j].ip == targets[j]);
            assert(targets[j] != targets[m]);
        }
        lemma_ip_index_found(pre.hosts@, h.ip, 0, m);
        assert(post.hosts@ == pre.hosts@.update(m, h));
        assert forall|j: int|
            0 <= j < targets.len() && (exists|k: int|
                0 <= k < i && (#[trigger] reports[k]).ip == targets[j]) implies (
        #[trigger] post.hosts@[j]).ping_done by {
            let k = choose|k: int| 0 <= k < i && (#[trigger] reports[k]).ip == targets[j];
            if j == m {
            } else {
                assert(post.hosts@[j] == pre.hosts@[j]);
                if k < i - 1 {
                    assert(exists|k2: int|
                        0 <= k2 < i - 1 && (#[trigger] reports[k2]).ip == targets[j]);
                } else {
                    assert(reports[i - 1].ip == targets[j]);
                    assert(targets[j] == h.ip && targets[m] == h.ip);
                    assert(j == m);
                }
            }
        }
    }
}

/// Law: a scan of K targets that completes without cancellation leaves the
/// store holding exactly K records, each in a terminal pipeline state, and
/// the completion mark dispatched exactly once at the end.
///
/// `states` is the chain the store went through: the freshly built records,
/// then one keyed upsert per worker's terminal report (in whatever order
/// the pool finished them), then the one `QueryComplete`.
pub proof fn lemma_scan_completes(
    targets: Seq<Ipv4Addr>,
    reports: Seq<Host>,
    states: Seq<ApplicationState>,
    end: ApplicationState,
)
    requires
        forall|a: int, b: int| 0 <= a < b < targets.len() ==> targets[a] != targets[b],
        states.len() == reports.len() + 1,
        spec_hosts_built(targets, states[0].hosts@),
        forall|k: int| 0 <= k < reports.len() ==> (#[trigger] reports[k]).ping_done,
        forall|k: int| 0 <= k < reports.len() ==> targets.contains((#[trigger] reports[k]).ip),
        forall|t: Ipv4Addr|
            targets.contains(t) ==> exists|k: int|
                0 <= k < reports.len() && (#[trigger] reports[k]).ip == t,
        forall|k: int|
            0 <= k < reports.len() ==> spec_reduces(
                AppAction::UpdateHost(reports[k]),
                #[trigger] states[k],
                states[k + 1],
            ),
        spec_reduces(AppAction::QueryComplete, states[states.len() - 1], end),
    ensures
        end.hosts@.len() == targets.len(),
        forall|j: int| 0 <= j < end.hosts@.len() ==> (#[trigger] end.hosts@[j]).ping_done,
        forall|j: int| 0 <= j < targets.len() ==> (#[trigger] end.hosts@[j]).ip == targets[j],
        end.query_state,
        !end.search_run,
{
    lemma_scan_chain(targets, reports, states, reports.len() as int);
    let last = states[states.len() - 1];
    assert(spec_run_state(targets, reports, reports.len() as int, last));
    assert forall|j: int| 0 <= j < last.hosts@.len() implies (
    #[trigger] last.hosts@[j]).ping_done by {
        assert(targets.contains(targets[j]));
        assert(exists|k: int|
            0 <= k < reports.len() && (#[trigger] reports[k]).ip == targets[j]);
    }
    assert(end.hosts@ == last.hosts@);
}

} // verus!
