// The reducer, the store, and the scan orchestration guards.

use findi::addr::Ipv4Addr;
use findi::error::FindiError;
use findi::host::Host;
use findi::ping::PingType;
use findi::resolve::HostResolutionType;
use findi::scan::{port_scan_should_continue, should_submit, unit_should_start};
use findi::state::actions::AppAction;
use findi::state::application_state::ApplicationState;
use findi::state::host_modal_state::HostModalAction;
use findi::state::reducers::AppReducer;
use findi::state::store::AppStateStore;
use findi::ui::{Key, SearchFilterOption};

fn test_helper_reduce_state(
    action: AppAction,
    init_state: Option<ApplicationState>,
) -> ApplicationState {
    let state = match init_state {
        Some(state) => state,
        None => ApplicationState::default(),
    };
    AppReducer::reduce(action, state)
}

fn default_addr() -> Ipv4Addr {
    Ipv4Addr::new(10, 0, 0, 1)
}

#[test]
fn test_action_build_hosts() {
    let addr = Ipv4Addr::new(10, 0, 0, 1);
    let host = Host::new(addr);
    let action = AppAction::BuildHosts(vec![addr]);
    let new_state = test_helper_reduce_state(action, None);

    assert_eq!(new_state.hosts[0], host)
}

#[test]
fn test_action_set_port_query() {
    let port_q = "10-12";
    let action = AppAction::SetPortQuery(Some(port_q.to_owned()));
    let new_state = test_helper_reduce_state(action, None);

    assert_eq!(new_state.port_query, vec![10, 11, 12]);
}

#[test]
fn test_action_update_host() {
    let host = Host::new(default_addr());
    let mut init_state = ApplicationState::default();
    init_state.hosts = vec![host];

    let mut updated_host = Host::new(default_addr());
    updated_host.ping_done = true;
    let action = AppAction::UpdateHost(updated_host);

    let new_state = test_helper_reduce_state(action, Some(init_state));

    assert_eq!(new_state.hosts[0].ip, default_addr());
    assert_eq!(new_state.hosts[0].ping_done, true)
}

#[test]
fn test_action_set_search_run() {
    // Run ON
    let action = AppAction::SetHostSearchRun(true);
    let new_state = test_helper_reduce_state(action, None);
    assert_eq!(new_state.notification.unwrap().message, "Querying 0 hosts...".to_owned());

    // Run OFF
    let action1 = AppAction::SetHostSearchRun(false);
    let new_state1 = test_helper_reduce_state(action1, None);
    assert_eq!(new_state1.notification.is_none(), true)
}

#[test]
fn test_action_set_query_complete() {
    let action = AppAction::QueryComplete;
    let new_state = test_helper_reduce_state(action, None);

    assert_eq!(new_state.query_state, true);
    assert_eq!(new_state.search_run, false);
    assert_eq!(new_state.notification.unwrap().message, "Host search complete");
}

#[test]
fn test_action_set_selected_host() {
    let host_ip = Ipv4Addr::new(10, 0, 1, 1);
    let host = Host::new(host_ip);

    let mut init_state = ApplicationState::default();
    init_state.hosts = vec![host];

    let action = AppAction::SetSelectedHost(Some(0));
    let new_state = test_helper_reduce_state(action, Some(init_state));

    assert_eq!(new_state.get_selected_host().unwrap().ip, host_ip);

    assert_eq!(new_state.modal_state.is_some(), true);

    // Clear selected host
    let action = AppAction::SetSelectedHost(None);
    let new_state = test_helper_reduce_state(action, None);

    assert_eq!(new_state.get_selected_host(), None);
}

#[test]
fn test_action_set_config_from_cli() {
    let nworkers = 50;
    let tick_len = 60;

    let action = AppAction::SetConfigNWorkers(nworkers);
    let new_state = test_helper_reduce_state(action, None);
    assert_eq!(new_state.app_config.nworkers, nworkers);

    let action = AppAction::SetConfigTick(tick_len);
    let new_state = test_helper_reduce_state(action, None);
    assert_eq!(new_state.app_config.tick_len, tick_len);
}

#[test]
fn test_dispatch_with_set_query_action() {
    let mut store = AppStateStore::new();
    let query = "Foo Query";
    store.dispatch(AppAction::SetQuery(query.to_string()));
    assert_eq!(store.state.query, query)
}

#[test]
fn test_upsert_ignores_unknown_address() {
    let mut init_state = ApplicationState::default();
    init_state.hosts = vec![Host::new(Ipv4Addr::new(10, 0, 0, 1))];

    let mut stray = Host::new(Ipv4Addr::new(10, 0, 0, 2));
    stray.ping_done = true;
    let new_state = test_helper_reduce_state(AppAction::UpdateHost(stray), Some(init_state));

    assert_eq!(new_state.hosts.len(), 1);
    assert_eq!(new_state.hosts[0].ping_done, false);
}

#[test]
fn test_scan_completes_k_records() {
    // A scan of three targets that runs to the end: three records, each
    // terminal, and the completion mark dispatched once.
    let targets = vec![
        Ipv4Addr::new(10, 0, 0, 1),
        Ipv4Addr::new(10, 0, 0, 2),
        Ipv4Addr::new(10, 0, 0, 3),
    ];
    let mut store = AppStateStore::new();
    store.dispatch(AppAction::BuildHosts(targets.clone()));
    store.dispatch(AppAction::SetHostSearchRun(true));

    // Workers finish in some pool order.
    for ip in [targets[2], targets[0], targets[1]] {
        let report = Host::host_ping(
            ip,
            Some(5),
            None,
            Ok(("h.local".to_string(), HostResolutionType::MDNS)),
        );
        store.dispatch(AppAction::UpdateHost(report));
    }
    store.dispatch(AppAction::QueryComplete);

    assert_eq!(store.state.hosts.len(), 3);
    for (i, h) in store.state.hosts.iter().enumerate() {
        assert_eq!(h.ip, targets[i]);
        assert!(h.ping_done);
    }
    assert!(store.state.query_state);
    assert!(!store.state.search_run);
}

#[test]
fn test_cancellation_blocks_new_units() {
    let mut store = AppStateStore::new();
    store.dispatch(AppAction::BuildHosts(vec![default_addr()]));
    store.dispatch(AppAction::SetHostSearchRun(true));
    assert!(should_submit(true, &store.state));
    assert!(unit_should_start(&store.state));

    // The flag falls mid-scan: nothing new starts...
    store.dispatch(AppAction::SetHostSearchRun(false));
    assert!(!should_submit(true, &store.state));
    assert!(!unit_should_start(&store.state));
    assert!(!should_submit(false, &store.state));

    // ...but a unit already past its check still commits its one record.
    let mut report = Host::new(default_addr());
    report.ping_done = true;
    store.dispatch(AppAction::UpdateHost(report));
    assert!(store.state.hosts[0].ping_done);
}

#[test]
fn test_port_scan_guard() {
    let mut store = AppStateStore::new();
    assert!(!port_scan_should_continue(true, &store.state));
    store.dispatch(AppAction::BuildHosts(vec![default_addr()]));
    store.state.apply(AppAction::SetSelectedHost(Some(0)));
    assert!(port_scan_should_continue(true, &store.state));
    assert!(!port_scan_should_continue(false, &store.state));
}

#[test]
fn test_modal_port_query_input() {
    let mut state = ApplicationState::default();
    state.hosts = vec![Host::new(default_addr())];
    state.apply(AppAction::SetSelectedHost(Some(0)));

    state.apply(AppAction::SetModalAction(HostModalAction::SetPortQueryInput(Key::Char('8'))));
    let ms = state.modal_state.as_ref().unwrap();
    assert_eq!(ms.port_query, "8");
    assert_eq!(ms.ports, vec![(8u16, None)]);

    state.apply(AppAction::SetModalAction(HostModalAction::SetPortQueryInput(Key::Char('0'))));
    let ms = state.modal_state.as_ref().unwrap();
    assert_eq!(ms.port_query, "80");
    assert_eq!(ms.ports, vec![(80u16, None)]);

    state.apply(AppAction::SetModalAction(HostModalAction::SetPortQueryInput(Key::Backspace)));
    let ms = state.modal_state.as_ref().unwrap();
    assert_eq!(ms.port_query, "8");
    assert_eq!(ms.ports, vec![(8u16, None)]);
}

#[test]
fn test_modal_port_scan_result_confirms_port() {
    let mut state = ApplicationState::default();
    state.hosts = vec![Host::new(default_addr())];
    state.apply(AppAction::SetSelectedHost(Some(0)));
    state.apply(AppAction::SetModalAction(HostModalAction::SetPortQueryInput(Key::Char('8'))));

    // The probe finds port 8 open after 3 ms.
    state.apply(
        AppAction::SetModalAction(HostModalAction::SetPortScanResult((8, Some(Ok(3))))),
    );
    let ms = state.modal_state.as_ref().unwrap();
    assert_eq!(ms.ports, vec![(8u16, Some(Ok(3)))]);
    assert_eq!(state.hosts[0].tcp_ports, vec![8]);

    // A result for a port not in the list is appended, closed ports add
    // nothing to the record.
    state.apply(
        AppAction::SetModalAction(HostModalAction::SetPortScanResult((9, Some(Err(()))))),
    );
    let ms = state.modal_state.as_ref().unwrap();
    assert_eq!(ms.ports, vec![(8u16, Some(Ok(3))), (9u16, Some(Err(())))]);
    assert_eq!(state.hosts[0].tcp_ports, vec![8]);
}

#[test]
fn test_modal_common_ports_and_tabs() {
    let mut state = ApplicationState::default();
    state.hosts = vec![Host::new(default_addr())];
    state.apply(AppAction::SetSelectedHost(Some(0)));

    state.apply(AppAction::SetModalAction(HostModalAction::SetCommonPortsForScanning));
    let ms = state.modal_state.as_ref().unwrap();
    assert_eq!(ms.ports.len(), findi::ports::common_ports().len());
    assert_eq!(ms.ports[0], (21u16, None));

    state.apply(AppAction::SetModalAction(HostModalAction::SetSelected(2)));
    let ms = state.modal_state.as_ref().unwrap();
    assert_eq!(ms.tab_state.index, 2);
    assert_eq!(ms.tab_state.titles.len(), 3);
    assert_eq!(ms.tab_state.titles[0], "Host info");
}

#[test]
fn test_port_query_clearing_and_rejection() {
    let with_ports = test_helper_reduce_state(
        AppAction::SetPortQuery(Some("1-3".to_owned())),
        None,
    );
    assert_eq!(with_ports.port_query, vec![1, 2, 3]);

    // A rejected list changes nothing; clearing empties it.
    let unchanged = test_helper_reduce_state(
        AppAction::SetPortQuery(Some("1-".to_owned())),
        Some(with_ports),
    );
    assert_eq!(unchanged.port_query, vec![1, 2, 3]);
    let cleared = test_helper_reduce_state(AppAction::SetPortQuery(None), Some(unchanged));
    assert!(cleared.port_query.is_empty());
}

#[test]
fn test_closing_modal_clears_selection() {
    let mut state = ApplicationState::default();
    state.hosts = vec![Host::new(default_addr())];
    state.apply(AppAction::SetSelectedHost(Some(0)));
    assert!(state.modal.is_some() && state.modal_state.is_some());

    state.apply(AppAction::SetModal(None));
    assert!(state.modal.is_none());
    assert!(state.selected_host.is_none());
    assert!(state.modal_state.is_none());
}

#[test]
fn test_filtered_hosts_show_found() {
    let mut state = ApplicationState::default();
    let mut up = Host::new(Ipv4Addr::new(10, 0, 0, 1));
    up.ping_res = Some(4);
    let down = Host::new(Ipv4Addr::new(10, 0, 0, 2));
    state.hosts = vec![up, down];
    state.search_filter_opt = SearchFilterOption::ShowFound;

    let shown = state.filtered_hosts();
    assert_eq!(shown.len(), 1);
    assert_eq!(shown[0].ip, Ipv4Addr::new(10, 0, 0, 1));
}

#[test]
fn test_error_text_words() {
    assert_eq!(FindiError::ResolutionFailed.text(), "Reverse lookup failed");
    assert_eq!(FindiError::Timeout.text(), "timed out");
    assert_eq!(FindiError::MalformedPacket.text(), "malformed packet");
}

#[test]
fn test_ping_type_words() {
    assert_eq!(PingType::UDP.text(), "UDP");
    assert_eq!(PingType::TCP.text(), "TCP");
    assert_eq!(HostResolutionType::MDNS.text(), "Multicast DNS");
    assert_eq!(HostResolutionType::NBNS.text(), "NetBios Name Service");
}
