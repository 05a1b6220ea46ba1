use charge_point::Charger;
use charge_point::ChargerError;
use charge_point::ChargerState;
use charge_point::Config;
use charge_point::NetworkBridge;
use charge_point::OutletConfig;
use charge_point::OutletMap;
use charge_point::OutletState;
use charge_point::RecvResult;
use charge_point::RegistrationResponse;
use charge_point::RegistrationStatus;
use charge_point::State;
use charge_point::handshake_response_action;

struct NullBridge;

impl NetworkBridge for NullBridge {
    fn disconnect(&self) -> Result<(), String> {
        Ok(())
    }
}

fn two_outlet_config() -> Config {
    let mut cfg = Config::default_easee_home("ws://csms.example", "box-1");
    cfg.outlets = vec![
        OutletConfig { id: 1, max_current_milliamps: 32000 },
        OutletConfig { id: 2, max_current_milliamps: 32000 },
    ];
    cfg
}

fn connected_charger() -> Charger<NullBridge> {
    let mut charger = Charger::new(two_outlet_config(), State::new(), NullBridge);
    charger.startup();
    let response = RegistrationResponse { status: RegistrationStatus::Accepted, interval: 30 };
    let cfg = two_outlet_config();
    handshake_response_action(&cfg, charger.state_mut(), &response);
    charger
}

fn expected_connected(
    interval: i64,
    outlets: &[(u64, OutletState)],
    tag: Option<&str>,
) -> ChargerState {
    let mut m = OutletMap::new();
    for (id, st) in outlets {
        m.insert(*id, *st);
    }
    ChargerState::Connected {
        heartbeat_interval: interval,
        outlet_states: m,
        pending_rfid_tag: tag.map(|t| t.to_string()),
    }
}

#[test]
fn startup_publishes_boot_transition() {
    let mut charger = Charger::new(two_outlet_config(), State::new(), NullBridge);
    let mut rx = charger.state().subscribe();
    charger.startup();
    match charger.state().recv(&mut rx) {
        RecvResult::Next(u) => {
            assert_eq!(u.from, ChargerState::Shutdown);
            assert_eq!(u.to, ChargerState::Booting);
        },
        other => panic!("expected a transition, got {:?}", other),
    }
    assert_eq!(charger.state().recv(&mut rx), RecvResult::Empty);
}

#[test]
fn car_connected_while_shutdown_is_rejected() {
    let mut charger = Charger::new(two_outlet_config(), State::new(), NullBridge);
    let mut rx = charger.state().subscribe();
    let res = charger.car_connected(1);
    assert_eq!(res, Err(ChargerError::NotConnected));
    assert_eq!(charger.state().read(), ChargerState::Shutdown);
    assert_eq!(charger.state().recv(&mut rx), RecvResult::Empty);
}

#[test]
fn blip_rfid_tag_while_shutdown_is_rejected() {
    let mut charger = Charger::new(two_outlet_config(), State::new(), NullBridge);
    let res = charger.blip_rfid_tag("abc");
    assert_eq!(res, Err(ChargerError::NotConnected));
    assert_eq!(charger.state().read(), ChargerState::Shutdown);
}

#[test]
fn not_connected_error_text() {
    assert_eq!(
        ChargerError::NotConnected.message(),
        "Charger is not connected to server"
    );
}

#[test]
fn car_connected_marks_outlet_preparing() {
    let mut charger = connected_charger();
    assert_eq!(charger.car_connected(1), Ok(()));
    assert_eq!(
        charger.state().read(),
        expected_connected(
            30,
            &[(1, OutletState::Preparing), (2, OutletState::Available)],
            None
        )
    );
}

#[test]
fn car_connected_twice_publishes_once() {
    let mut charger = connected_charger();
    let mut rx = charger.state().subscribe();
    assert_eq!(charger.car_connected(1), Ok(()));
    assert_eq!(charger.car_connected(1), Ok(()));
    let mut count = 0;
    while let RecvResult::Next(_) = charger.state().recv(&mut rx) {
        count += 1;
    }
    assert_eq!(count, 1);
}

#[test]
fn car_connected_adds_unknown_outlet() {
    let mut charger = connected_charger();
    assert_eq!(charger.car_connected(7), Ok(()));
    assert_eq!(
        charger.state().read(),
        expected_connected(
            30,
            &[
                (1, OutletState::Available),
                (2, OutletState::Available),
                (7, OutletState::Preparing)
            ],
            None
        )
    );
}

#[test]
fn blip_rfid_tag_sets_pending_tag() {
    let mut charger = connected_charger();
    assert_eq!(charger.blip_rfid_tag("abc"), Ok(()));
    assert_eq!(
        charger.state().read(),
        expected_connected(
            30,
            &[(1, OutletState::Available), (2, OutletState::Available)],
            Some("abc")
        )
    );
}

#[test]
fn disconnect_delegates_to_the_bridge() {
    let charger = Charger::new(two_outlet_config(), State::new(), NullBridge);
    assert_eq!(charger.disconnect(), Ok(()));
}

#[test]
fn default_easee_home_values() {
    let cfg = Config::default_easee_home("ws://csms.example", "box-9");
    assert_eq!(cfg.ocpp_endpoint, "ws://csms.example");
    assert_eq!(cfg.ocpp_identity, "box-9");
    assert_eq!(cfg.ocpp_password, None);
    assert_eq!(cfg.serial_number, Some("box-9".to_string()));
    assert_eq!(cfg.vendor, "easee");
    assert_eq!(cfg.firmware_version, None);
    assert_eq!(cfg.model, "Easee Home");
    assert_eq!(cfg.iccid, None);
    assert_eq!(cfg.imsi, None);
    assert_eq!(cfg.meter_serial_number, None);
    assert_eq!(cfg.meter_type, None);
    assert_eq!(cfg.outlets.len(), 1);
    assert_eq!(cfg.outlets[0].id, 1);
    assert_eq!(cfg.outlets[0].max_current_milliamps, 32000);
}

#[test]
fn initial_outlet_states_deduplicate_ids() {
    let mut cfg = Config::default_easee_home("ws://csms.example", "box-1");
    cfg.outlets = vec![
        OutletConfig { id: 3, max_current_milliamps: 16000 },
        OutletConfig { id: 3, max_current_milliamps: 32000 },
    ];
    let m = cfg.get_initial_outlet_states();
    assert_eq!(m.len(), 1);
    assert_eq!(m.get(3), Some(OutletState::Available));
}
