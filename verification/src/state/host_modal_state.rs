//! State of the per-host detail modal.

use vstd::prelude::*;
use vstd::string::StringExecFns;
use crate::host::{spec_same_host, Host};
use crate::ui::Key;

verus! {

/// One port's scan outcome: not yet probed, open with its connect time in
/// milliseconds, or closed.
pub type TcpPortScanResult = (u16, Option<Result<u64, ()>>);

/// What the detail modal can be asked to do.
#[derive(Clone, Copy, PartialEq, Eq, Debug)]
pub enum HostModalAction {
    ClearPortScanResults,
    SetSelected(usize),
    SetPortQueryInput(Key),
    SetPortScanResult(TcpPortScanResult),
    SetCommonPortsForScanning,
    FinishPortScan,
}

/// The modal's tab strip.
#[derive(PartialEq, Debug)]
pub struct TabsState {
    pub titles: Vec<String>,
    pub index: usize,
}

/// Everything the detail modal shows for one host.
#[derive(PartialEq, Debug)]
pub struct HostModalState {
    pub tab_state: TabsState,
    pub selected_host: Host,
    pub port_query: String,
    pub ports: Vec<TcpPortScanResult>,
    pub port_scan_in_progress: bool,
}

/// The modal's three fixed tab titles.
pub open spec fn spec_modal_titles(titles: Seq<String>) -> bool {
    titles.len() == 3 && titles[0]@ == "Host info"@ && titles[1]@ == "Common TCP port scan"@
        && titles[2]@ == "TCP port scan"@
}

impl HostModalState {
    /// A fresh modal for one host: the three tabs with the first selected,
    /// no port query, no results.
    pub fn new(host: Host) -> (m: HostModalState)
        ensures
            spec_modal_titles(m.tab_state.titles@),
            m.tab_state.index == 0,
            m.selected_host == host,
            m.port_query@ == Seq::<char>::empty(),
            m.ports@ == Seq::<TcpPortScanResult>::empty(),
            !m.port_scan_in_progress,
    {
        let mut titles: Vec<String> = Vec::new();
        titles.push(String::from_str("Host info"));
        titles.push(String::from_str("Common TCP port scan"));
        titles.push(String::from_str("TCP port scan"));
        HostModalState {
            tab_state: TabsState { titles, index: 0 },
            selected_host: host,
            port_query: String::new(),
            ports: Vec::new(),
            port_scan_in_progress: false,
        }
    }
}

} // verus!
