use egui_btleplug_example::async_msg::{
    AddressType, AsyncMsg, BLEOperation, Characteristic, CharacteristicSet, GenericResult,
    PeripheralProperties,
};
use egui_btleplug_example::sync_gui::{polls, BLEState, CharButton, Click, GuiApp};

fn props(name: &str, address: [u8; 6]) -> PeripheralProperties {
    PeripheralProperties {
        address,
        address_type: Some(AddressType::Random),
        local_name: Some(name.to_string()),
        tx_power_level: Some(4),
        rssi: Some(-70),
        manufacturer_data: vec![],
        service_data: vec![],
        services: vec![],
        class: None,
    }
}

fn ch(uuid: u128, service: u128, properties: u8) -> Characteristic {
    Characteristic { uuid, service_uuid: service, properties, descriptors: vec![] }
}

fn scanned() -> Vec<(usize, PeripheralProperties)> {
    vec![(0, props("Thermo", [1, 1, 1, 1, 1, 1])), (2, props("Heart", [2, 2, 2, 2, 2, 2]))]
}

/// A GUI that has scanned and is offered the peripherals of `scanned()`.
fn connectable() -> GuiApp {
    let mut app = GuiApp::new();
    app.on_click(BLEState::Disconnected, Click::StartScan);
    let handled = app.on_message(
        BLEState::Scanning,
        AsyncMsg::ScanResult { result: GenericResult::ResultSuccess, props_vec: scanned() },
    );
    assert!(handled);
    app
}

/// A GUI connected to a peripheral with two services.
fn connected() -> GuiApp {
    let mut app = connectable();
    app.on_click(BLEState::Connectable, Click::Connect { position: 1 });
    let mut chars = CharacteristicSet::new();
    chars.insert(ch(0x2A24, 0x180A, 0x02));
    chars.insert(ch(0x2A37, 0x180D, 0x10));
    chars.insert(ch(0x2A39, 0x180D, 0x08 | 0x04));
    assert!(app.on_message(BLEState::Connecting, AsyncMsg::Characteristics { chars }));
    assert_eq!(app.ble_state(), BLEState::Connected);
    app
}

#[test]
fn new_gui_is_disconnected_with_standard_names() {
    let mut app = GuiApp::new();
    assert_eq!(app.ble_state(), BLEState::Disconnected);
    assert_eq!(app.filter(), "");
    assert!(app.props_vec().is_empty());
    assert!(app.svc_keys().is_empty());
    assert!(app.waiting_payload().is_none());
    assert_eq!(app.get_char_desc(0x00002A29_0000_1000_8000_00805F9B34FBu128), "Manufacturer");
}

#[test]
fn start_scan_sends_default_scan() {
    let mut app = GuiApp::new();
    app.set_filter(BLEState::Disconnected, "Heart".to_string());
    let sent = app.on_click(BLEState::Disconnected, Click::StartScan);
    assert_eq!(app.ble_state(), BLEState::Scanning);
    match sent {
        Some(AsyncMsg::ScanStart { filter, duration_ms }) => {
            assert_eq!(filter, "");
            assert_eq!(duration_ms, 5000);
        }
        _ => panic!("expected a scan request"),
    }
}

#[test]
fn scan_result_makes_peripherals_connectable() {
    let app = connectable();
    assert_eq!(app.ble_state(), BLEState::Connectable);
    assert_eq!(app.props_vec().len(), 2);
    assert_eq!(app.props_vec()[1].0, 2);
}

#[test]
fn messages_other_than_scan_result_are_ignored_while_scanning() {
    let mut app = GuiApp::new();
    app.on_click(BLEState::Disconnected, Click::StartScan);
    let handled = app.on_message(BLEState::Scanning, AsyncMsg::Error("x".to_string()));
    assert!(!handled);
    assert_eq!(app.ble_state(), BLEState::Scanning);
}

#[test]
fn rescan_from_connectable_uses_filter_and_duration() {
    let mut app = connectable();
    app.set_filter(BLEState::Connectable, "Thermo".to_string());
    match app.on_click(BLEState::Connectable, Click::Rescan) {
        Some(AsyncMsg::ScanStart { filter, duration_ms }) => {
            assert_eq!(filter, "Thermo");
            assert_eq!(duration_ms, 5000);
        }
        _ => panic!("expected a scan request"),
    }
    assert_eq!(app.ble_state(), BLEState::Scanning);
}

#[test]
fn filter_selects_connect_candidates() {
    let mut app = connectable();
    assert_eq!(app.connect_candidates(), vec![0, 1]);
    app.set_filter(BLEState::Connectable, "Heart".to_string());
    assert_eq!(app.connect_candidates(), vec![1]);
    app.set_filter(BLEState::Connectable, "02:02".to_string());
    assert_eq!(app.connect_candidates(), vec![1]);
    app.set_filter(BLEState::Connectable, "nothing".to_string());
    assert!(app.connect_candidates().is_empty());
}

#[test]
fn filter_is_not_edited_outside_its_phases() {
    let mut app = GuiApp::new();
    app.on_click(BLEState::Disconnected, Click::StartScan);
    app.set_filter(BLEState::Scanning, "abc".to_string());
    assert_eq!(app.filter(), "");
}

#[test]
fn connect_sends_listing_index_and_props() {
    let mut app = connectable();
    match app.on_click(BLEState::Connectable, Click::Connect { position: 1 }) {
        Some(AsyncMsg::ConnectStart { index, props }) => {
            assert_eq!(index, 2);
            assert_eq!(props.local_name.as_deref(), Some("Heart"));
        }
        _ => panic!("expected a connection request"),
    }
    assert_eq!(app.ble_state(), BLEState::Connecting);
}

#[test]
fn connect_to_hidden_or_missing_peripheral_does_nothing() {
    let mut app = connectable();
    app.set_filter(BLEState::Connectable, "Heart".to_string());
    assert!(app.on_click(BLEState::Connectable, Click::Connect { position: 0 }).is_none());
    assert!(app.on_click(BLEState::Connectable, Click::Connect { position: 7 }).is_none());
    assert_eq!(app.ble_state(), BLEState::Connectable);
}

#[test]
fn failed_connection_returns_to_disconnected() {
    let mut app = connectable();
    app.on_click(BLEState::Connectable, Click::Connect { position: 0 });
    let p = props("Thermo", [1, 1, 1, 1, 1, 1]);
    assert!(app.on_message(
        BLEState::Connecting,
        AsyncMsg::ConnectResult { result: GenericResult::ResultUnknown, index: 0, props: p },
    ));
    assert_eq!(app.ble_state(), BLEState::Disconnected);
}

#[test]
fn successful_connection_waits_for_characteristics() {
    let mut app = connectable();
    app.on_click(BLEState::Connectable, Click::Connect { position: 0 });
    let p = props("Thermo", [1, 1, 1, 1, 1, 1]);
    assert!(app.on_message(
        BLEState::Connecting,
        AsyncMsg::ConnectResult { result: GenericResult::ResultSuccess, index: 0, props: p },
    ));
    assert_eq!(app.ble_state(), BLEState::Connecting);
}

#[test]
fn rescan_while_connecting_sends_default_scan() {
    let mut app = connectable();
    app.on_click(BLEState::Connectable, Click::Connect { position: 0 });
    match app.on_click(BLEState::Connecting, Click::Rescan) {
        Some(AsyncMsg::ScanStart { filter, duration_ms }) => {
            assert_eq!(filter, "");
            assert_eq!(duration_ms, 5000);
        }
        _ => panic!("expected a scan request"),
    }
}

#[test]
fn characteristics_are_grouped_by_service() {
    let app = connected();
    assert_eq!(app.svc_keys(), &vec![0x180A, 0x180D]);
    let g: Vec<u128> = app.svc_chars(0x180D).unwrap().iter().map(|c| c.uuid).collect();
    assert_eq!(g, vec![0x2A37, 0x2A39]);
    assert!(app.svc_chars(0x1234).is_none());
}

#[test]
fn read_button_sends_and_remembers_request() {
    let mut app = connected();
    let sent = app.on_click(
        BLEState::Connected,
        Click::Char { service: 0x180A, position: 0, button: CharButton::Read },
    );
    match sent {
        Some(AsyncMsg::Payload { payload, char, op }) => {
            assert!(payload.is_empty());
            assert_eq!(char.uuid, 0x2A24);
            assert_eq!(op, BLEOperation::Read);
        }
        _ => panic!("expected a payload request"),
    }
    assert!(matches!(app.waiting_payload(), Some(AsyncMsg::Payload { op: BLEOperation::Read, .. })));
}

#[test]
fn write_buttons_send_their_operations() {
    let mut app = connected();
    match app.on_click(
        BLEState::Connected,
        Click::Char { service: 0x180D, position: 1, button: CharButton::Write },
    ) {
        Some(AsyncMsg::Payload { op, .. }) => assert_eq!(op, BLEOperation::WriteNoResponse),
        _ => panic!("expected a payload request"),
    }
    match app.on_click(
        BLEState::Connected,
        Click::Char { service: 0x180D, position: 1, button: CharButton::WriteWithoutResponse },
    ) {
        Some(AsyncMsg::Payload { op, .. }) => assert_eq!(op, BLEOperation::WriteWithResponse),
        _ => panic!("expected a payload request"),
    }
    match app.on_click(
        BLEState::Connected,
        Click::Char { service: 0x180D, position: 0, button: CharButton::EnableNotify },
    ) {
        Some(AsyncMsg::Payload { op, .. }) => assert_eq!(op, BLEOperation::EnableNotify),
        _ => panic!("expected a payload request"),
    }
}

#[test]
fn button_of_missing_flag_does_nothing() {
    let mut app = connected();
    let sent = app.on_click(
        BLEState::Connected,
        Click::Char { service: 0x180A, position: 0, button: CharButton::EnableNotify },
    );
    assert!(sent.is_none());
    assert!(app.waiting_payload().is_none());
}

#[test]
fn answer_to_waiting_request_is_shown() {
    let mut app = connected();
    let c = app.svc_chars(0x180A).unwrap()[0].clone();
    app.on_click(
        BLEState::Connected,
        Click::Char { service: 0x180A, position: 0, button: CharButton::Read },
    );
    let handled = app.on_message(
        BLEState::Connected,
        AsyncMsg::Payload { payload: b"Model X".to_vec(), char: c, op: BLEOperation::EnableIndicate },
    );
    assert!(handled);
    assert!(app.waiting_payload().is_none());
    assert!(app.has_char_value(0x2A24));
    assert_eq!(app.get_char_value_desc(0x2A24), "Model X");
}

#[test]
fn answer_that_is_not_utf8_is_shown_as_bytes() {
    let mut app = connected();
    let c = app.svc_chars(0x180A).unwrap()[0].clone();
    app.on_click(
        BLEState::Connected,
        Click::Char { service: 0x180A, position: 0, button: CharButton::Read },
    );
    app.on_message(
        BLEState::Connected,
        AsyncMsg::Payload { payload: vec![0xFF, 0x00, 7], char: c, op: BLEOperation::EnableIndicate },
    );
    assert_eq!(app.get_char_value_desc(0x2A24), "[255, 0, 7]");
}

#[test]
fn payload_without_waiting_request_is_dropped() {
    let mut app = connected();
    let c = app.svc_chars(0x180A).unwrap()[0].clone();
    let handled = app.on_message(
        BLEState::Connected,
        AsyncMsg::Payload { payload: vec![1], char: c, op: BLEOperation::Notify },
    );
    assert!(handled);
    assert!(!app.has_char_value(0x2A24));
    assert_eq!(app.get_char_value_desc(0x2A24), "n/a");
}

#[test]
fn char_desc_falls_back_to_uuid_notation() {
    let mut app = GuiApp::new();
    assert_eq!(
        app.get_char_desc(0xa1a2a3a4_b1b2_c1c2_d1d2_d3d4d5d6d7d8u128),
        "a1a2a3a4-b1b2-c1c2-d1d2-d3d4d5d6d7d8"
    );
    assert_eq!(app.get_char_desc(0x2A24), "00000000-0000-0000-0000-000000002a24");
    assert_eq!(
        app.get_char_desc(0x0000180A_0000_1000_8000_00805F9B34FBu128),
        "Device Info Service"
    );
}

#[test]
fn disconnect_sends_held_index_and_props() {
    let mut app = connected();
    match app.on_click(BLEState::Connected, Click::Disconnect) {
        Some(AsyncMsg::DisconnectStart { index, props }) => {
            assert_eq!(index, 1_000_000);
            assert!(props.local_name.is_none());
            assert_eq!(props.address, [0; 6]);
        }
        _ => panic!("expected a disconnection request"),
    }
    assert_eq!(app.ble_state(), BLEState::Disconnected);
}

#[test]
fn clicks_outside_their_phase_do_nothing() {
    let mut app = GuiApp::new();
    assert!(app.on_click(BLEState::Disconnected, Click::Disconnect).is_none());
    assert!(app.on_click(BLEState::Disconnected, Click::Rescan).is_none());
    assert_eq!(app.ble_state(), BLEState::Disconnected);
}

#[test]
fn gui_polls_in_waiting_phases_only() {
    assert!(!polls(BLEState::Disconnected));
    assert!(polls(BLEState::Scanning));
    assert!(!polls(BLEState::Connectable));
    assert!(polls(BLEState::Connecting));
    assert!(polls(BLEState::Connected));
}

#[test]
fn clicks_of_one_frame_use_the_frame_phase() {
    let mut app = connectable();
    // Rescan and then a connect button, both drawn in the connectable phase.
    assert!(app.on_click(BLEState::Connectable, Click::Rescan).is_some());
    assert_eq!(app.ble_state(), BLEState::Scanning);
    assert!(app.on_click(BLEState::Connectable, Click::Connect { position: 0 }).is_some());
    assert_eq!(app.ble_state(), BLEState::Connecting);
}

#[test]
fn rescan_then_characteristics_in_one_frame_connects() {
    let mut app = connectable();
    app.on_click(BLEState::Connectable, Click::Connect { position: 0 });
    app.on_click(BLEState::Connecting, Click::Rescan);
    assert_eq!(app.ble_state(), BLEState::Scanning);
    let mut chars = CharacteristicSet::new();
    chars.insert(ch(1, 2, 0x02));
    assert!(app.on_message(BLEState::Connecting, AsyncMsg::Characteristics { chars }));
    assert_eq!(app.ble_state(), BLEState::Connected);
    assert_eq!(app.svc_keys(), &vec![2]);
    assert!(app.svc_chars(2).is_some());
}
