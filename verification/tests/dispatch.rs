use charge_point::apply_authorize_outcome;
use charge_point::dispatch_plan;
use charge_point::handshake_response_action;
use charge_point::heartbeat_due;
use charge_point::AuthorizeStatus;
use charge_point::ChargePointStatus;
use charge_point::ChargerState;
use charge_point::Config;
use charge_point::HandshakeAction;
use charge_point::OutletConfig;
use charge_point::OutletMap;
use charge_point::OutletState;
use charge_point::ProtocolOp;
use charge_point::Receiver;
use charge_point::RecvResult;
use charge_point::RegistrationResponse;
use charge_point::RegistrationStatus;
use charge_point::State;
use charge_point::StateUpdate;

fn two_outlet_config() -> Config {
    let mut cfg = Config::default_easee_home("ws://csms.example", "box-1");
    cfg.outlets = vec![
        OutletConfig { id: 1, max_current_milliamps: 32000 },
        OutletConfig { id: 2, max_current_milliamps: 32000 },
    ];
    cfg
}

fn connected(interval: i64, outlets: &[(u64, OutletState)], tag: Option<&str>) -> ChargerState {
    let mut m = OutletMap::new();
    for (id, st) in outlets {
        m.insert(*id, *st);
    }
    ChargerState::Connected {
        heartbeat_interval: interval,
        outlet_states: m,
        pending_rfid_tag: tag.map(|t| t.to_string()),
    }
}

fn plan_between(from: ChargerState, to: ChargerState) -> Vec<ProtocolOp> {
    dispatch_plan(&StateUpdate { from, to })
}

fn next(st: &State, rx: &mut Receiver) -> StateUpdate {
    match st.recv(rx) {
        RecvResult::Next(u) => u,
        other => panic!("expected a transition, got {:?}", other),
    }
}

#[test]
fn booting_triggers_the_handshake() {
    let plan = plan_between(ChargerState::Shutdown, ChargerState::Booting);
    assert_eq!(plan, vec![ProtocolOp::StartHandshake]);
}

#[test]
fn accepted_handshake_connects_and_snapshot_is_sent() {
    let cfg = two_outlet_config();
    let mut st = State::new();
    st.update(|_| (ChargerState::Booting, ()));
    let mut rx = st.subscribe();
    let response = RegistrationResponse { status: RegistrationStatus::Accepted, interval: 30 };
    let action = handshake_response_action(&cfg, &mut st, &response);
    assert_eq!(action, HandshakeAction::Established);
    assert_eq!(
        st.read(),
        connected(
            30,
            &[(1, OutletState::Available), (2, OutletState::Available)],
            None
        )
    );
    let plan = dispatch_plan(&next(&st, &mut rx));
    assert_eq!(
        plan,
        vec![
            ProtocolOp::SendStatus { connector_id: 0, status: ChargePointStatus::Available },
            ProtocolOp::SendStatus { connector_id: 1, status: ChargePointStatus::Available },
            ProtocolOp::SendStatus { connector_id: 2, status: ChargePointStatus::Available },
        ]
    );
}

#[test]
fn pending_and_rejected_handshakes_retry_and_leave_state_alone() {
    let cfg = two_outlet_config();
    let mut st = State::new();
    st.update(|_| (ChargerState::Booting, ()));
    for status in [RegistrationStatus::Pending, RegistrationStatus::Rejected] {
        let response = RegistrationResponse { status, interval: 7 };
        let action = handshake_response_action(&cfg, &mut st, &response);
        assert_eq!(action, HandshakeAction::RetryAfter { seconds: 7 });
        assert_eq!(st.read(), ChargerState::Booting);
    }
}

#[test]
fn one_outlet_change_sends_exactly_one_status() {
    let from = connected(
        30,
        &[(1, OutletState::Available), (2, OutletState::Available)],
        None,
    );
    let to = connected(
        30,
        &[(1, OutletState::Preparing), (2, OutletState::Available)],
        None,
    );
    let plan = plan_between(from, to);
    assert_eq!(
        plan,
        vec![ProtocolOp::SendStatus { connector_id: 1, status: ChargePointStatus::Preparing }]
    );
}

#[test]
fn new_outlet_ids_are_not_diffed() {
    let from = connected(30, &[(1, OutletState::Available)], None);
    let to = connected(
        30,
        &[(1, OutletState::Preparing), (3, OutletState::Preparing)],
        None,
    );
    let plan = plan_between(from, to);
    assert_eq!(
        plan,
        vec![ProtocolOp::SendStatus { connector_id: 1, status: ChargePointStatus::Preparing }]
    );
}

#[test]
fn faulted_outlet_changes_the_aggregate_status() {
    let from = connected(
        30,
        &[(1, OutletState::Available), (2, OutletState::Available)],
        None,
    );
    let to = connected(
        30,
        &[(1, OutletState::Available), (2, OutletState::Faulted)],
        None,
    );
    let plan = plan_between(from, to);
    assert_eq!(
        plan,
        vec![
            ProtocolOp::SendStatus { connector_id: 2, status: ChargePointStatus::Faulted },
            ProtocolOp::SendStatus { connector_id: 0, status: ChargePointStatus::Faulted },
        ]
    );
}

#[test]
fn recovering_outlet_restores_the_aggregate_status() {
    let from = connected(30, &[(1, OutletState::Faulted)], None);
    let to = connected(30, &[(1, OutletState::Available)], None);
    let plan = plan_between(from, to);
    assert_eq!(
        plan,
        vec![
            ProtocolOp::SendStatus { connector_id: 1, status: ChargePointStatus::Available },
            ProtocolOp::SendStatus { connector_id: 0, status: ChargePointStatus::Available },
        ]
    );
}

#[test]
fn new_pending_tag_triggers_authorization() {
    let outlets = [(1, OutletState::Available), (2, OutletState::Available)];
    let from = connected(30, &outlets, None);
    let to = connected(30, &outlets, Some("abc"));
    let plan = plan_between(from, to);
    assert_eq!(plan, vec![ProtocolOp::Authorize { tag: "abc".to_string() }]);
}

#[test]
fn clearing_the_tag_triggers_nothing() {
    let outlets = [(1, OutletState::Available), (2, OutletState::Available)];
    let from = connected(30, &outlets, Some("abc"));
    let to = connected(30, &outlets, None);
    let plan = plan_between(from, to);
    assert_eq!(plan, Vec::<ProtocolOp>::new());
}

#[test]
fn accepted_authorization_clears_the_tag_without_further_traffic() {
    let outlets = [(1, OutletState::Available), (2, OutletState::Available)];
    let mut st = State::new();
    st.update(|_| (connected(30, &outlets, Some("abc")), ()));
    let mut rx = st.subscribe();
    apply_authorize_outcome(&mut st, AuthorizeStatus::Accepted);
    assert_eq!(st.read(), connected(30, &outlets, None));
    let plan = dispatch_plan(&next(&st, &mut rx));
    assert_eq!(plan, Vec::<ProtocolOp>::new());
    assert_eq!(st.recv(&mut rx), RecvResult::Empty);
}

#[test]
fn other_authorization_outcome_leaves_the_tag_pending() {
    let outlets = [(1, OutletState::Available)];
    let mut st = State::new();
    st.update(|_| (connected(30, &outlets, Some("abc")), ()));
    let mut rx = st.subscribe();
    apply_authorize_outcome(&mut st, AuthorizeStatus::Other);
    assert_eq!(st.read(), connected(30, &outlets, Some("abc")));
    assert_eq!(st.recv(&mut rx), RecvResult::Empty);
}

#[test]
fn unchanged_tag_does_not_retrigger_authorization() {
    let outlets = [(1, OutletState::Available)];
    let from = connected(30, &outlets, Some("abc"));
    let to = connected(5, &outlets, Some("abc"));
    let plan = plan_between(from, to);
    assert_eq!(plan, Vec::<ProtocolOp>::new());
}

#[test]
fn replacing_a_pending_tag_triggers_authorization_again() {
    let outlets = [(1, OutletState::Available)];
    let from = connected(30, &outlets, Some("abc"));
    let to = connected(30, &outlets, Some("def"));
    let plan = plan_between(from, to);
    assert_eq!(plan, vec![ProtocolOp::Authorize { tag: "def".to_string() }]);
}

#[test]
fn interval_change_alone_dispatches_nothing() {
    let outlets = [(1, OutletState::Available)];
    let from = connected(30, &outlets, None);
    let to = connected(60, &outlets, None);
    assert_eq!(plan_between(from, to), Vec::<ProtocolOp>::new());
}

#[test]
fn connecting_from_maintenance_sends_no_snapshot() {
    let to = connected(30, &[(1, OutletState::Available)], None);
    assert_eq!(
        plan_between(ChargerState::Maintenance, to),
        Vec::<ProtocolOp>::new()
    );
}

#[test]
fn transitions_out_of_connected_dispatch_nothing() {
    let from = connected(30, &[(1, OutletState::Available)], None);
    let plan = plan_between(from, ChargerState::Shutdown);
    assert_eq!(plan, Vec::<ProtocolOp>::new());
    let plan = plan_between(ChargerState::Maintenance, ChargerState::Shutdown);
    assert_eq!(plan, Vec::<ProtocolOp>::new());
}

#[test]
fn heartbeat_is_sent_only_when_overdue() {
    let state = connected(5, &[(1, OutletState::Available)], None);
    assert!(!heartbeat_due(&state, 4));
    assert!(!heartbeat_due(&state, 5));
    assert!(heartbeat_due(&state, 6));
    assert!(!heartbeat_due(&ChargerState::Shutdown, 100));
    assert!(!heartbeat_due(&ChargerState::Booting, 100));
}

#[test]
fn aggregate_status_is_faulted_iff_any_outlet_is() {
    let healthy = connected(
        30,
        &[(1, OutletState::Available), (2, OutletState::Preparing)],
        None,
    );
    assert_eq!(
        healthy.ocpp_1_6_charge_point_status(),
        ChargePointStatus::Available
    );
    let faulted = connected(
        30,
        &[(1, OutletState::Available), (2, OutletState::Faulted)],
        None,
    );
    assert_eq!(
        faulted.ocpp_1_6_charge_point_status(),
        ChargePointStatus::Faulted
    );
    let empty = connected(30, &[], None);
    assert_eq!(
        empty.ocpp_1_6_charge_point_status(),
        ChargePointStatus::Available
    );
}

#[test]
fn non_operational_states_report_unavailable() {
    assert_eq!(
        ChargerState::Shutdown.ocpp_1_6_charge_point_status(),
        ChargePointStatus::Unavailable
    );
    assert_eq!(
        ChargerState::Booting.ocpp_1_6_charge_point_status(),
        ChargePointStatus::Unavailable
    );
    assert_eq!(
        ChargerState::Maintenance.ocpp_1_6_charge_point_status(),
        ChargePointStatus::Unavailable
    );
}

#[test]
fn outlet_status_mapping() {
    assert_eq!(
        OutletState::Available.ocpp_1_6_status(),
        ChargePointStatus::Available
    );
    assert_eq!(
        OutletState::Preparing.ocpp_1_6_status(),
        ChargePointStatus::Preparing
    );
    assert_eq!(
        OutletState::Faulted.ocpp_1_6_status(),
        ChargePointStatus::Faulted
    );
}

#[test]
fn outlet_map_keeps_ids_sorted_and_unique() {
    let mut m = OutletMap::new();
    m.insert(5, OutletState::Available);
    m.insert(1, OutletState::Available);
    m.insert(3, OutletState::Faulted);
    m.insert(3, OutletState::Preparing);
    assert_eq!(m.len(), 3);
    assert_eq!(m.entry_at(0), (1, OutletState::Available));
    assert_eq!(m.entry_at(1), (3, OutletState::Preparing));
    assert_eq!(m.entry_at(2), (5, OutletState::Available));
    assert_eq!(m.get(3), Some(OutletState::Preparing));
    assert_eq!(m.get(4), None);
}
