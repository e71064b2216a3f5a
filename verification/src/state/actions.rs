//! The actions the store accepts.

use vstd::prelude::*;
use crate::addr::Ipv4Addr;
use crate::config::AppConfig;
use crate::host::Host;
use crate::state::host_modal_state::HostModalAction;
use crate::ui::{Modal, Notification, PageContent, SearchFilterOption};

verus! {

/// Marker for anything a store can dispatch.
pub trait Action {

}

/// Everything the scanner or the front end can ask of the store.
#[derive(Debug)]
pub enum AppAction {
    BuildHosts(Vec<Ipv4Addr>),
    UpdatePingResult(Ipv4Addr, Option<u64>),
    UpdateHost(Host),
    SetQuery(String),
    SetPortQuery(Option<String>),
    SetInputErr(bool),
    SetHostSearchRun(bool),
    NewQuery(Vec<Ipv4Addr>),
    TableSelect(Option<usize>),
    ShiftFocus(PageContent),
    SetNotification(Option<Notification>),
    SetModal(Option<Modal>),
    SetSearchFilter(SearchFilterOption),
    SetSelectedHost(Option<usize>),
    SetModalAction(HostModalAction),
    QueryComplete,
    RestartQuery,
    IterateFocus,
    SetConfig(AppConfig),
    SetConfigNWorkers(usize),
    SetConfigTick(usize),
    SetNetworkNameServer(Ipv4Addr),
}

impl Action for AppAction {

}

} // verus!
