use egui_btleplug_example::async_ble::{Action, AsyncBLE, Event};
use egui_btleplug_example::sync_gui::{BLEState, Click, GuiApp};
use egui_btleplug_example::async_msg::{
    AsyncMsg, BLEOperation, Characteristic, CharacteristicSet, GenericResult, PeripheralProperties,
};

fn props(name: &str) -> PeripheralProperties {
    PeripheralProperties {
        address: [9, 8, 7, 6, 5, 4],
        address_type: None,
        local_name: Some(name.to_string()),
        tx_power_level: None,
        rssi: None,
        manufacturer_data: vec![],
        service_data: vec![],
        services: vec![],
        class: None,
    }
}

fn ch(uuid: u128) -> Characteristic {
    Characteristic { uuid, service_uuid: 0x180A, properties: 0x12, descriptors: vec![] }
}

fn step(ble: &mut AsyncBLE, e: Event) -> Action {
    assert!(ble.accepts(&e));
    ble.step(e)
}

fn started() -> AsyncBLE {
    let (ble, action) = AsyncBLE::start(1);
    assert!(matches!(action, Action::Receive));
    ble
}

/// A transport that has listed three peripherals, of which the second has
/// no readable properties.
fn scanned() -> AsyncBLE {
    let mut ble = started();
    let a = step(&mut ble, Event::Received(Some(AsyncMsg::ScanStart { filter: String::new(), duration_ms: 1500 })));
    assert!(matches!(a, Action::StartScan));
    let a = step(&mut ble, Event::ScanStarted);
    assert!(matches!(a, Action::Sleep { duration_ms: 1500 }));
    let a = step(&mut ble, Event::Slept);
    assert!(matches!(a, Action::StopScan));
    let a = step(&mut ble, Event::ScanStopped);
    assert!(matches!(a, Action::ListPeripherals));
    let a = step(&mut ble, Event::Peripherals(Some(vec![Some(props("A")), None, Some(props("C"))])));
    match a {
        Action::Send(AsyncMsg::ScanResult { result, props_vec }) => {
            assert_eq!(result, GenericResult::ResultSuccess);
            let idx: Vec<usize> = props_vec.iter().map(|p| p.0).collect();
            assert_eq!(idx, vec![0, 2]);
            assert_eq!(props_vec[1].1.local_name.as_deref(), Some("C"));
        }
        _ => panic!("expected a scan result"),
    }
    assert!(matches!(step(&mut ble, Event::Sent), Action::Receive));
    ble
}

fn connected() -> AsyncBLE {
    let mut ble = scanned();
    let a = step(&mut ble, Event::Received(Some(AsyncMsg::ConnectStart { index: 2, props: props("C") })));
    assert!(matches!(a, Action::Connect { index: 2 }));
    match step(&mut ble, Event::Connected(true)) {
        Action::Send(AsyncMsg::ConnectResult { result, index, props }) => {
            assert_eq!(result, GenericResult::ResultSuccess);
            assert_eq!(index, 2);
            assert_eq!(props.local_name.as_deref(), Some("C"));
        }
        _ => panic!("expected a connection result"),
    }
    assert!(matches!(step(&mut ble, Event::Sent), Action::DiscoverServices { index: 2 }));
    let mut chars = CharacteristicSet::new();
    chars.insert(ch(0x2A24));
    match step(&mut ble, Event::Discovered(Some(chars))) {
        Action::Send(AsyncMsg::Characteristics { chars }) => assert_eq!(chars.len(), 1),
        _ => panic!("expected the characteristics"),
    }
    assert!(matches!(step(&mut ble, Event::Sent), Action::Receive));
    assert_eq!(ble.connected_index(), Some(2));
    ble
}

#[test]
fn without_adapter_the_error_is_reported_and_the_task_ends() {
    let (mut ble, action) = AsyncBLE::start(0);
    match action {
        Action::Send(AsyncMsg::Error(text)) => assert_eq!(text, "No Bluetooth adapters found"),
        _ => panic!("expected the error message"),
    }
    assert!(matches!(step(&mut ble, Event::Sent), Action::Stop { ok: true }));
    assert!(!ble.accepts(&Event::Sent));
}

#[test]
fn scan_keeps_peripherals_with_properties() {
    let ble = scanned();
    assert_eq!(ble.scanned_props().len(), 2);
    assert_eq!(ble.connected_index(), None);
}

#[test]
fn failed_listing_keeps_previous_scan() {
    let mut ble = scanned();
    step(&mut ble, Event::Received(Some(AsyncMsg::ScanStart { filter: String::new(), duration_ms: 10 })));
    step(&mut ble, Event::ScanStarted);
    step(&mut ble, Event::Slept);
    step(&mut ble, Event::ScanStopped);
    assert!(matches!(step(&mut ble, Event::Peripherals(None)), Action::Receive));
    assert_eq!(ble.scanned_props().len(), 2);
}

#[test]
fn connect_is_tried_five_times() {
    let mut ble = scanned();
    let a = step(&mut ble, Event::Received(Some(AsyncMsg::ConnectStart { index: 0, props: props("A") })));
    assert!(matches!(a, Action::Connect { index: 0 }));
    for _ in 0..4 {
        assert!(matches!(step(&mut ble, Event::Connected(false)), Action::Connect { index: 0 }));
    }
    assert!(matches!(step(&mut ble, Event::Connected(false)), Action::Receive));
    assert_eq!(ble.connected_index(), None);
}

#[test]
fn discovery_is_tried_five_times_per_connection() {
    let mut ble = scanned();
    step(&mut ble, Event::Received(Some(AsyncMsg::ConnectStart { index: 0, props: props("A") })));
    step(&mut ble, Event::Connected(true));
    assert!(matches!(step(&mut ble, Event::Sent), Action::DiscoverServices { index: 0 }));
    for _ in 0..4 {
        assert!(matches!(step(&mut ble, Event::Discovered(None)), Action::DiscoverServices { index: 0 }));
    }
    assert!(matches!(step(&mut ble, Event::Discovered(None)), Action::Connect { index: 0 }));
    assert_eq!(ble.connected_index(), Some(0));
}

#[test]
fn connection_request_beyond_listing_is_refused() {
    let ble = scanned();
    let e = Event::Received(Some(AsyncMsg::ConnectStart { index: 3, props: props("X") }));
    assert!(!ble.accepts(&e));
    let e = Event::Received(Some(AsyncMsg::ConnectStart { index: 1, props: props("X") }));
    assert!(ble.accepts(&e));
}

#[test]
fn read_answers_with_enable_indicate_payload() {
    let mut ble = connected();
    let a = step(&mut ble, Event::Received(Some(AsyncMsg::Payload { payload: vec![], char: ch(0x2A24), op: BLEOperation::Read })));
    match a {
        Action::Read { index, char } => {
            assert_eq!(index, 2);
            assert_eq!(char.uuid, 0x2A24);
        }
        _ => panic!("expected a read"),
    }
    match step(&mut ble, Event::ReadDone(Some(vec![65, 66]))) {
        Action::Send(AsyncMsg::Payload { payload, char, op }) => {
            assert_eq!(payload, vec![65, 66]);
            assert_eq!(char.uuid, 0x2A24);
            assert_eq!(op, BLEOperation::EnableIndicate);
        }
        _ => panic!("expected the value"),
    }
}

#[test]
fn failed_read_sends_nothing() {
    let mut ble = connected();
    step(&mut ble, Event::Received(Some(AsyncMsg::Payload { payload: vec![], char: ch(0x2A24), op: BLEOperation::Read })));
    assert!(matches!(step(&mut ble, Event::ReadDone(None)), Action::Receive));
}

#[test]
fn read_without_connection_is_ignored() {
    let mut ble = scanned();
    let a = step(&mut ble, Event::Received(Some(AsyncMsg::Payload { payload: vec![], char: ch(1), op: BLEOperation::Read })));
    assert!(matches!(a, Action::Receive));
}

#[test]
fn subscribe_failure_ends_the_task() {
    let mut ble = connected();
    let a = step(&mut ble, Event::Received(Some(AsyncMsg::Payload { payload: vec![], char: ch(0x2A24), op: BLEOperation::EnableNotify })));
    assert!(matches!(a, Action::Subscribe { index: 2, .. }));
    assert!(matches!(step(&mut ble, Event::Subscribed(false)), Action::Stop { ok: false }));
}

#[test]
fn subscribe_success_goes_on() {
    let mut ble = connected();
    step(&mut ble, Event::Received(Some(AsyncMsg::Payload { payload: vec![], char: ch(0x2A24), op: BLEOperation::EnableNotify })));
    assert!(matches!(step(&mut ble, Event::Subscribed(true)), Action::Receive));
}

#[test]
fn other_payload_operations_are_ignored() {
    let mut ble = connected();
    let a = step(&mut ble, Event::Received(Some(AsyncMsg::Payload { payload: vec![1], char: ch(0x2A24), op: BLEOperation::WriteWithResponse })));
    assert!(matches!(a, Action::Receive));
}

#[test]
fn disconnect_reports_props_at_connected_position() {
    let mut ble = connected();
    let a = step(&mut ble, Event::Received(Some(AsyncMsg::DisconnectStart { index: 77, props: props("Z") })));
    assert!(matches!(a, Action::Disconnect { index: 2 }));
    assert!(!ble.accepts(&Event::Disconnected(true)));
    assert!(ble.accepts(&Event::Disconnected(false)));
    assert!(matches!(step(&mut ble, Event::Disconnected(false)), Action::Receive));
    assert_eq!(ble.connected_index(), Some(2));
}

#[test]
fn disconnect_success_reports_result() {
    let mut ble = scanned();
    step(&mut ble, Event::Received(Some(AsyncMsg::ConnectStart { index: 1, props: props("B") })));
    step(&mut ble, Event::Connected(true));
    step(&mut ble, Event::Sent);
    step(&mut ble, Event::Discovered(Some(CharacteristicSet::new())));
    step(&mut ble, Event::Sent);
    step(&mut ble, Event::Received(Some(AsyncMsg::DisconnectStart { index: 1, props: props("B") })));
    match step(&mut ble, Event::Disconnected(true)) {
        Action::Send(AsyncMsg::DisconnectResult { result, index, props }) => {
            assert_eq!(result, GenericResult::ResultSuccess);
            assert_eq!(index, 1);
            assert_eq!(props.local_name.as_deref(), Some("C"));
        }
        _ => panic!("expected a disconnection result"),
    }
}

#[test]
fn disconnect_without_connection_is_ignored() {
    let mut ble = scanned();
    let a = step(&mut ble, Event::Received(Some(AsyncMsg::DisconnectStart { index: 0, props: props("A") })));
    assert!(matches!(a, Action::Receive));
}

#[test]
fn closed_channel_and_unhandled_messages_keep_waiting() {
    let mut ble = started();
    assert!(matches!(step(&mut ble, Event::Received(None)), Action::Receive));
    let v = AsyncMsg::MsgVersion { major: 1, minor: 2, patch: 3 };
    assert!(matches!(step(&mut ble, Event::Received(Some(v))), Action::Receive));
}

#[test]
fn events_out_of_turn_are_not_accepted() {
    let ble = started();
    assert!(!ble.accepts(&Event::Slept));
    assert!(!ble.accepts(&Event::Connected(true)));
}

#[test]
fn connection_request_from_scan_result_is_accepted() {
    let mut ble = started();
    step(&mut ble, Event::Received(Some(AsyncMsg::ScanStart { filter: String::new(), duration_ms: 1 })));
    step(&mut ble, Event::ScanStarted);
    step(&mut ble, Event::Slept);
    step(&mut ble, Event::ScanStopped);
    let result = step(&mut ble, Event::Peripherals(Some(vec![None, Some(props("Q")), Some(props("R"))])));
    let msg = match result {
        Action::Send(m) => m,
        _ => panic!("expected a scan result"),
    };
    step(&mut ble, Event::Sent);
    let mut gui = GuiApp::new();
    gui.on_click(BLEState::Disconnected, Click::StartScan);
    assert!(gui.on_message(BLEState::Scanning, msg));
    for position in gui.connect_candidates() {
        let mut g = GuiApp::new();
        g.on_click(BLEState::Disconnected, Click::StartScan);
        g.on_message(
            BLEState::Scanning,
            AsyncMsg::ScanResult {
                result: GenericResult::ResultSuccess,
                props_vec: gui.props_vec().clone(),
            },
        );
        let req = g.on_click(BLEState::Connectable, Click::Connect { position }).unwrap();
        assert!(matches!(req, AsyncMsg::ConnectStart { index, .. } if index == position + 1));
        assert!(ble.accepts(&Event::Received(Some(req))));
    }
}
