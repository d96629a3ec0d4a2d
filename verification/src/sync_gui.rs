//! The decisions of the GUI: which state it is in, what each button click
//! sends to the BLE transport, what each message from the transport changes,
//! and the texts it shows for peripherals and characteristics.
//!
//! Each frame the GUI draws the part that belongs to the state it is in at
//! the start of the frame (the *phase*): clicks on that part and the message
//! polled in that part are handled by the rules of the phase, even when an
//! earlier click of the same frame has already changed the state.
use vstd::prelude::*;
use vstd::utf8::{valid_utf8, decode_utf8};
use std::collections::HashMap;
use crate::async_msg::{
    AsyncMsg, BLEOperation, Characteristic, CharacteristicSet, CharacteristicView, GenericResult,
    MsgView, PeripheralProperties, PropertiesView, empty_properties, indexed_props_view,
};
use crate::async_ble::{Event, PhaseView, TransportView, accepts_spec, transport_inv};
use crate::ble_constants::{default_char_descs, descs_view, get_default_char_descs};
use crate::services::{chars_of_service, grouped, groups_view, sort_svcs_chars};
use crate::text::{
    address_chars, address_text, byte_map_debug, byte_map_debug_text, bytes_debug,
    bytes_debug_text, chars_to_string, contains_chars, contains_text, int_text, join, push_all,
    push_int, seq_join, str_chars, texts_view, utf8_string, uuid_chars, uuid_text,
};

verus! {

broadcast use vstd::std_specs::hash::group_hash_axioms;

/// Characteristic property bit: the value can be read.
pub const READ: u8 = 0x02;

/// Characteristic property bit: the value can be written without response.
pub const WRITE_WITHOUT_RESPONSE: u8 = 0x04;

/// Characteristic property bit: the value can be written.
pub const WRITE: u8 = 0x08;

/// Characteristic property bit: the value can be notified.
pub const NOTIFY: u8 = 0x10;

/// Characteristic property bit: the value can be indicated.
pub const INDICATE: u8 = 0x20;

/// Length of a scan, in milliseconds.
pub const SCAN_MS: u32 = 5000;

/// Index the GUI holds as the connected one before any connection.
pub const NO_INDEX: usize = 1_000_000;

/// The states of the GUI.
#[derive(Clone, Copy, Debug, PartialEq, Eq, Structural)]
pub enum BLEState {
    Disconnected,
    Scanning,
    Connectable,
    Connecting,
    Connected,
}

/// The buttons shown beside a characteristic.
#[derive(Clone, Copy, Debug, PartialEq, Eq, Structural)]
pub enum CharButton {
    /// "Read", shown when the characteristic can be read.
    Read,
    /// "Write", shown when the characteristic can be written.
    Write,
    /// "Wr (w/o)", shown when it can be written without response.
    WriteWithoutResponse,
    /// "Enable Notifs", shown when it can be notified.
    EnableNotify,
}

/// A click on a button of the GUI.
#[derive(Clone, Copy, Debug, PartialEq, Eq, Structural)]
pub enum Click {
    /// "Start Scan".
    StartScan,
    /// "Rescan".
    Rescan,
    /// "Connect: ..." beside the peripheral at this position of the scan result.
    Connect { position: usize },
    /// "Disconnect".
    Disconnect,
    /// A button beside the characteristic at `position` of service `service`.
    Char { service: u128, position: usize, button: CharButton },
}

/// Whether every bit of `flag` is set in `bits`.
pub open spec fn has_flag(bits: u8, flag: u8) -> bool {
    bits & flag == flag
}

/// The property bit that shows a button.
pub open spec fn button_flag(b: CharButton) -> u8 {
    match b {
        CharButton::Read => READ,
        CharButton::Write => WRITE,
        CharButton::WriteWithoutResponse => WRITE_WITHOUT_RESPONSE,
        CharButton::EnableNotify => NOTIFY,
    }
}

/// The operation that a button asks for.
pub open spec fn button_op(b: CharButton) -> BLEOperation {
    match b {
        CharButton::Read => BLEOperation::Read,
        CharButton::Write => BLEOperation::WriteNoResponse,
        CharButton::WriteWithoutResponse => BLEOperation::WriteWithResponse,
        CharButton::EnableNotify => BLEOperation::EnableNotify,
    }
}

/// `[t]` when `b` holds, else nothing.
pub open spec fn part_if(b: bool, t: Seq<char>) -> Seq<Seq<char>> {
    if b {
        seq![t]
    } else {
        Seq::empty()
    }
}

/// The short description of characteristic property bits: the present ones
/// of "Rd", "Wr", "Wr(w/o)", "Notif", "Indicate", joined by `/`.
pub open spec fn props_desc(bits: u8) -> Seq<char> {
    seq_join(
        part_if(has_flag(bits, READ), seq!['R', 'd']) + part_if(has_flag(bits, WRITE), seq!['W', 'r'])
            + part_if(
            has_flag(bits, WRITE_WITHOUT_RESPONSE),
            seq!['W', 'r', '(', 'w', '/', 'o', ')'],
        ) + part_if(has_flag(bits, NOTIFY), seq!['N', 'o', 't', 'i', 'f']) + part_if(
            has_flag(bits, INDICATE),
            seq!['I', 'n', 'd', 'i', 'c', 'a', 't', 'e'],
        ),
        seq!['/'],
    )
}

/// The parts of the description of a peripheral: `name=...` when it has a
/// name, `rssi=...` when it has a signal strength, its address, and its
/// manufacturer data when there is any.
pub open spec fn periph_desc_parts(p: PropertiesView) -> Seq<Seq<char>> {
    let name_part = match p.local_name {
        Some(n) => seq![seq!['n', 'a', 'm', 'e', '='] + n],
        None => Seq::empty(),
    };
    let rssi_part = match p.rssi {
        Some(r) => seq![seq!['r', 's', 's', 'i', '='] + int_text(r as int)],
        None => Seq::empty(),
    };
    name_part + rssi_part + seq![address_chars(p.address)] + part_if(
        p.manufacturer_data.len() > 0,
        byte_map_debug(p.manufacturer_data),
    )
}

/// The description of a peripheral: its parts joined by ` : `.
pub open spec fn periph_desc(p: PropertiesView) -> Seq<char> {
    seq_join(periph_desc_parts(p), seq![' ', ':', ' '])
}

/// Whether the GUI offers to connect to a peripheral under a filter: its
/// description contains the filter text.
pub open spec fn shown(p: PropertiesView, filter: Seq<char>) -> bool {
    contains_text(periph_desc(p), filter)
}

/// The text shown for the value read from a characteristic: the text the
/// bytes encode when they are valid UTF-8, else the list of the bytes.
pub open spec fn value_text(bytes: Seq<u8>) -> Seq<char> {
    if valid_utf8(bytes) {
        decode_utf8(bytes)
    } else {
        bytes_debug(bytes)
    }
}

/// The state of the GUI.
pub struct GuiApp {
    ble_state: BLEState,
    filter: String,
    props_vec: Vec<(usize, PeripheralProperties)>,
    connected_index: usize,
    connected_props: PeripheralProperties,
    chars: CharacteristicSet,
    svc_keys: Vec<u128>,
    svc_map: HashMap<u128, Vec<Characteristic>>,
    waiting_payload: Option<AsyncMsg>,
    char_values: HashMap<u128, Vec<u8>>,
    char_descs: HashMap<u128, String>,
    scan_duration_ms: u32,
}

/// Mathematical value of the GUI's state.
#[verifier::ext_equal]
pub struct GuiView {
    pub state: BLEState,
    /// The scan filter text.
    pub filter: Seq<char>,
    /// The peripherals of the last scan result, with their indices.
    pub peripherals: Seq<(usize, PropertiesView)>,
    pub connected_index: usize,
    pub connected_props: PropertiesView,
    /// The characteristics of the connected peripheral.
    pub chars: Seq<CharacteristicView>,
    /// Their service UUIDs, ascending.
    pub svc_keys: Seq<u128>,
    /// For each service UUID, its characteristics.
    pub svc_groups: Map<u128, Seq<CharacteristicView>>,
    /// The payload request last sent and not yet answered.
    pub waiting: Option<MsgView>,
    /// The last value read of each characteristic, by UUID.
    pub char_values: Map<u128, Seq<u8>>,
    /// The names of characteristics, by UUID.
    pub char_descs: Map<u128, Seq<char>>,
    pub scan_duration_ms: u32,
}

pub open spec fn opt_msg_view(m: Option<AsyncMsg>) -> Option<MsgView> {
    match m {
        Some(x) => Some(x@),
        None => None,
    }
}

pub open spec fn values_view(m: Map<u128, Vec<u8>>) -> Map<u128, Seq<u8>> {
    m.map_values(|v: Vec<u8>| v@)
}

impl View for GuiApp {
    type V = GuiView;

    closed spec fn view(&self) -> GuiView {
        GuiView {
            state: self.ble_state,
            filter: self.filter@,
            peripherals: indexed_props_view(self.props_vec@),
            connected_index: self.connected_index,
            connected_props: self.connected_props@,
            chars: self.chars@,
            svc_keys: self.svc_keys@,
            svc_groups: groups_view(self.svc_map@),
            waiting: opt_msg_view(self.waiting_payload),
            char_values: values_view(self.char_values@),
            char_descs: descs_view(self.char_descs@),
            scan_duration_ms: self.scan_duration_ms,
        }
    }
}

/// The state of a GUI just started.
pub open spec fn initial_view() -> GuiView {
    GuiView {
        state: BLEState::Disconnected,
        filter: Seq::empty(),
        peripherals: Seq::empty(),
        connected_index: NO_INDEX,
        connected_props: empty_properties(),
        chars: Seq::empty(),
        svc_keys: Seq::empty(),
        svc_groups: Map::empty(),
        waiting: None,
        char_values: Map::empty(),
        char_descs: default_char_descs(),
        scan_duration_ms: SCAN_MS,
    }
}

/// The request to scan with a filter, for a duration.
pub open spec fn scan_start(filter: Seq<char>, duration_ms: u32) -> MsgView {
    MsgView::ScanStart { filter, duration_ms }
}

/// What a click does: `o` before, `n` after, `sent` the message sent to the
/// transport.
pub open spec fn click_step(
    o: GuiView,
    n: GuiView,
    phase: BLEState,
    click: Click,
    sent: Option<MsgView>,
) -> bool {
    match (phase, click) {
        (BLEState::Disconnected, Click::StartScan) => n == GuiView {
            state: BLEState::Scanning,
            ..o
        } && sent == Some(scan_start(Seq::empty(), SCAN_MS)),
        (BLEState::Connectable, Click::Rescan) => n == GuiView { state: BLEState::Scanning, ..o }
            && sent == Some(scan_start(o.filter, o.scan_duration_ms)),
        (BLEState::Connecting, Click::Rescan) => n == GuiView { state: BLEState::Scanning, ..o }
            && sent == Some(scan_start(Seq::empty(), SCAN_MS)),
        (BLEState::Connectable, Click::Connect { position }) => {
            if position < o.peripherals.len() && shown(o.peripherals[position as int].1, o.filter) {
                n == GuiView { state: BLEState::Connecting, ..o } && sent == Some(
                    MsgView::ConnectStart {
                        index: o.peripherals[position as int].0,
                        props: o.peripherals[position as int].1,
                    },
                )
            } else {
                n == o && sent is None
            }
        },
        (BLEState::Connected, Click::Disconnect) => n == GuiView {
            state: BLEState::Disconnected,
            ..o
        } && sent == Some(
            MsgView::DisconnectStart { index: o.connected_index, props: o.connected_props },
        ),
        (BLEState::Connected, Click::Char { service, position, button }) => {
            if o.svc_groups.contains_key(service) && position < o.svc_groups[service].len()
                && has_flag(o.svc_groups[service][position as int].properties, button_flag(button)) {
                let m = MsgView::Payload {
                    payload: Seq::empty(),
                    char: o.svc_groups[service][position as int],
                    op: button_op(button),
                };
                n == GuiView { waiting: Some(m), ..o } && sent == Some(m)
            } else {
                n == o && sent is None
            }
        },
        _ => n == o && sent is None,
    }
}

/// What a message from the transport does; `handled` tells whether the
/// phase has a rule for it.
pub open spec fn message_step(
    o: GuiView,
    n: GuiView,
    phase: BLEState,
    m: MsgView,
    handled: bool,
) -> bool {
    match (phase, m) {
        (BLEState::Scanning, MsgView::ScanResult { result, props_vec }) => handled && n
            == GuiView { state: BLEState::Connectable, peripherals: props_vec, ..o },
        (BLEState::Connecting, MsgView::ConnectResult { result, index, props }) => handled && if result
            == GenericResult::ResultSuccess {
            n == o
        } else {
            n == GuiView { state: BLEState::Disconnected, ..o }
        },
        (BLEState::Connecting, MsgView::Characteristics { chars }) => handled && grouped(
            chars,
            n.svc_keys,
            n.svc_groups,
        ) && n == GuiView {
            state: BLEState::Connected,
            chars,
            svc_keys: n.svc_keys,
            svc_groups: n.svc_groups,
            ..o
        },
        (BLEState::Connected, MsgView::Payload { payload, char, op }) => handled && if o.waiting is Some {
            n == GuiView { waiting: None, char_values: o.char_values.insert(char.uuid, payload), ..o }
        } else {
            n == o
        },
        _ => !handled && n == o,
    }
}

/// The moves between states that the GUI makes.
pub open spec fn state_edge(from: BLEState, to: BLEState) -> bool {
    ||| from == to
    ||| from == BLEState::Disconnected && to == BLEState::Scanning
    ||| from == BLEState::Scanning && to == BLEState::Connectable
    ||| from == BLEState::Connectable && to == BLEState::Scanning
    ||| from == BLEState::Connectable && to == BLEState::Connecting
    ||| from == BLEState::Connecting && to == BLEState::Scanning
    ||| from == BLEState::Connecting && to == BLEState::Disconnected
    ||| from == BLEState::Connecting && to == BLEState::Connected
    ||| from == BLEState::Connected && to == BLEState::Disconnected
}

fn push_part(parts: &mut Vec<Vec<char>>, t: Vec<char>)
    ensures
        texts_view(final(parts)@) == texts_view(old(parts)@).push(t@),
{
    let ghost tv = t@;
    parts.push(t);
    assert(texts_view(parts@) =~= texts_view(old(parts)@).push(tv));
}

/// The short description of characteristic property bits, such as `Rd/Notif`.
pub fn get_props_desc(flags: u8) -> (res: String)
    ensures
        res@ == props_desc(flags),
{
    let mut parts: Vec<Vec<char>> = Vec::new();
    let ghost p0 = texts_view(parts@);
    assert(p0 =~= Seq::empty());
    if flags & READ == READ {
        push_part(&mut parts, vec!['R', 'd']);
    }
    assert(texts_view(parts@) =~= part_if(has_flag(flags, READ), seq!['R', 'd']));
    let ghost p1 = texts_view(parts@);
    if flags & WRITE == WRITE {
        push_part(&mut parts, vec!['W', 'r']);
    }
    assert(texts_view(parts@) =~= p1 + part_if(has_flag(flags, WRITE), seq!['W', 'r']));
    let ghost p2 = texts_view(parts@);
    if flags & WRITE_WITHOUT_RESPONSE == WRITE_WITHOUT_RESPONSE {
        push_part(&mut parts, vec!['W', 'r', '(', 'w', '/', 'o', ')']);
    }
    assert(texts_view(parts@) =~= p2 + part_if(
        has_flag(flags, WRITE_WITHOUT_RESPONSE),
        seq!['W', 'r', '(', 'w', '/', 'o', ')'],
    ));
    let ghost p3 = texts_view(parts@);
    if flags & NOTIFY == NOTIFY {
        push_part(&mut parts, vec!['N', 'o', 't', 'i', 'f']);
    }
    assert(texts_view(parts@) =~= p3 + part_if(
        has_flag(flags, NOTIFY),
        seq!['N', 'o', 't', 'i', 'f'],
    ));
    let ghost p4 = texts_view(parts@);
    if flags & INDICATE == INDICATE {
        push_part(&mut parts, vec!['I', 'n', 'd', 'i', 'c', 'a', 't', 'e']);
    }
    assert(texts_view(parts@) =~= p4 + part_if(
        has_flag(flags, INDICATE),
        seq!['I', 'n', 'd', 'i', 'c', 'a', 't', 'e'],
    ));
    let sep: Vec<char> = vec!['/'];
    let joined = join(&parts, &sep);
    proof {
        assert(sep@ =~= seq!['/']);
        assert(texts_view(parts@) =~= part_if(has_flag(flags, READ), seq!['R', 'd']) + part_if(
            has_flag(flags, WRITE),
            seq!['W', 'r'],
        ) + part_if(
            has_flag(flags, WRITE_WITHOUT_RESPONSE),
            seq!['W', 'r', '(', 'w', '/', 'o', ')'],
        ) + part_if(has_flag(flags, NOTIFY), seq!['N', 'o', 't', 'i', 'f']) + part_if(
            has_flag(flags, INDICATE),
            seq!['I', 'n', 'd', 'i', 'c', 'a', 't', 'e'],
        ));
    }
    chars_to_string(&joined)
}

/// The characters of the description of a peripheral.
pub fn periph_desc_chars(props: &PeripheralProperties) -> (res: Vec<char>)
    ensures
        res@ == periph_desc(props@),
{
    let ghost p = props@;
    let mut parts: Vec<Vec<char>> = Vec::new();
    assert(texts_view(parts@) =~= Seq::empty());
    match &props.local_name {
        Some(name) => {
            let mut t: Vec<char> = vec!['n', 'a', 'm', 'e', '='];
            let n = str_chars(name.as_str());
            push_all(&mut t, &n);
            push_part(&mut parts, t);
        },
        None => {},
    }
    let ghost name_part = texts_view(parts@);
    match props.rssi {
        Some(r) => {
            let mut t: Vec<char> = vec!['r', 's', 's', 'i', '='];
            push_int(&mut t, r as i64);
            push_part(&mut parts, t);
        },
        None => {},
    }
    let ghost rssi_part = texts_view(parts@).skip(name_part.len() as int);
    assert(texts_view(parts@) =~= name_part + rssi_part);
    let a = address_text(props.address);
    let a_chars = str_chars(a.as_str());
    push_part(&mut parts, a_chars);
    let ghost upto_address = texts_view(parts@);
    if props.manufacturer_data.len() > 0 {
        let md = byte_map_debug_text(&props.manufacturer_data);
        push_part(&mut parts, md);
    }
    proof {
        assert(texts_view(parts@) =~= upto_address + part_if(
            p.manufacturer_data.len() > 0,
            byte_map_debug(p.manufacturer_data),
        ));
        assert(texts_view(parts@) =~= periph_desc_parts(p));
    }
    let sep: Vec<char> = vec![' ', ':', ' '];
    join(&parts, &sep)
}

/// The description of a peripheral, such as
/// `name=Sensor : rssi=-60 : 2A:CC:00:34:FA:00 : {76: [2, 21]}`.
pub fn periph_desc_string(props: &PeripheralProperties) -> (res: String)
    ensures
        res@ == periph_desc(props@),
{
    let chars = periph_desc_chars(props);
    chars_to_string(&chars)
}

/// Whether the GUI polls the transport in a phase.
pub fn polls(phase: BLEState) -> (res: bool)
    ensures
        res == (phase == BLEState::Scanning || phase == BLEState::Connecting || phase
            == BLEState::Connected),
{
    match phase {
        BLEState::Scanning | BLEState::Connecting | BLEState::Connected => true,
        _ => false,
    }
}

fn copy_payload_request(c: &Characteristic, op: BLEOperation) -> (res: AsyncMsg)
    ensures
        res@ == (MsgView::Payload { payload: Seq::empty(), char: c@, op }),
{
    let res = AsyncMsg::Payload { payload: Vec::new(), char: c.copy(), op };
    assert(res@ =~= (MsgView::Payload { payload: Seq::empty(), char: c@, op }));
    res
}

impl GuiApp {
    /// Well-formed: the service table is the grouping of the characteristics.
    pub open spec fn wf(&self) -> bool {
        grouped(self@.chars, self@.svc_keys, self@.svc_groups)
    }

    /// A GUI just started: disconnected, with an empty filter, nothing
    /// scanned, the standard characteristic names and 5 s scans.
    pub fn new() -> (res: GuiApp)
        ensures
            res.wf(),
            res@ == initial_view(),
    {
        let chars = CharacteristicSet::new();
        let (svc_keys, svc_map) = sort_svcs_chars(&chars);
        let res = GuiApp {
            ble_state: BLEState::Disconnected,
            filter: String::new(),
            props_vec: Vec::new(),
            connected_index: NO_INDEX,
            connected_props: PeripheralProperties::empty(),
            chars,
            svc_keys,
            svc_map,
            waiting_payload: None,
            char_values: HashMap::new(),
            char_descs: get_default_char_descs(),
            scan_duration_ms: SCAN_MS,
        };
        proof {
            assert(res@.peripherals =~= Seq::empty());
            assert(res.svc_keys@.to_set() =~= Set::empty());
            assert(res.svc_keys@ =~= Seq::empty()) by {
                if res.svc_keys@.len() > 0 {
                    assert(res.svc_keys@.to_set().contains(res.svc_keys@[0]));
                }
            }
            assert(res@.svc_groups =~= Map::empty());
            assert(res@.char_values =~= Map::empty());
            assert(res@ =~= initial_view());
        }
        res
    }

    /// Handles a click on a button drawn in `phase`, and returns the message
    /// to send to the transport, if any.
    pub fn on_click(&mut self, phase: BLEState, click: Click) -> (sent: Option<AsyncMsg>)
        requires
            old(self).wf(),
        ensures
            final(self).wf(),
            click_step(old(self)@, final(self)@, phase, click, opt_msg_view(sent)),
    {
        let ghost o = self@;
        match (phase, click) {
            (BLEState::Disconnected, Click::StartScan) => {
                self.ble_state = BLEState::Scanning;
                let m = AsyncMsg::ScanStart { filter: String::new(), duration_ms: SCAN_MS };
                assert(self@ =~= GuiView { state: BLEState::Scanning, ..o });
                Some(m)
            },
            (BLEState::Connectable, Click::Rescan) => {
                self.ble_state = BLEState::Scanning;
                let m = AsyncMsg::ScanStart {
                    filter: self.filter.clone(),
                    duration_ms: self.scan_duration_ms,
                };
                assert(self@ =~= GuiView { state: BLEState::Scanning, ..o });
                Some(m)
            },
            (BLEState::Connecting, Click::Rescan) => {
                self.ble_state = BLEState::Scanning;
                let m = AsyncMsg::ScanStart { filter: String::new(), duration_ms: SCAN_MS };
                assert(self@ =~= GuiView { state: BLEState::Scanning, ..o });
                Some(m)
            },
            (BLEState::Connectable, Click::Connect { position }) => {
                if position < self.props_vec.len() {
                    let desc = periph_desc_chars(&self.props_vec[position].1);
                    let f = str_chars(self.filter.as_str());
                    if contains_chars(&desc, &f) {
                        let m = AsyncMsg::ConnectStart {
                            index: self.props_vec[position].0,
                            props: self.props_vec[position].1.copy(),
                        };
                        self.ble_state = BLEState::Connecting;
                        assert(self@ =~= GuiView { state: BLEState::Connecting, ..o });
                        return Some(m);
                    }
                }
                None
            },
            (BLEState::Connected, Click::Disconnect) => {
                self.ble_state = BLEState::Disconnected;
                let m = AsyncMsg::DisconnectStart {
                    index: self.connected_index,
                    props: self.connected_props.copy(),
                };
                assert(self@ =~= GuiView { state: BLEState::Disconnected, ..o });
                Some(m)
            },
            (BLEState::Connected, Click::Char { service, position, button }) => {
                let found = match self.svc_map.get(&service) {
                    Some(group) => {
                        if position < group.len() {
                            Some(group[position].copy())
                        } else {
                            None
                        }
                    },
                    None => None,
                };
                match found {
                    Some(c) => {
                        let (flag, op) = match button {
                            CharButton::Read => (READ, BLEOperation::Read),
                            CharButton::Write => (WRITE, BLEOperation::WriteNoResponse),
                            CharButton::WriteWithoutResponse => (
                                WRITE_WITHOUT_RESPONSE,
                                BLEOperation::WriteWithResponse,
                            ),
                            CharButton::EnableNotify => (NOTIFY, BLEOperation::EnableNotify),
                        };
                        if c.properties & flag == flag {
                            let kept = copy_payload_request(&c, op);
                            let m = copy_payload_request(&c, op);
                            self.waiting_payload = Some(kept);
                            assert(self@ =~= GuiView { waiting: Some(m@), ..o });
                            Some(m)
                        } else {
                            None
                        }
                    },
                    None => None,
                }
            },
            _ => None,
        }
    }

    /// Edits the scan filter; the filter can be edited in the disconnected
    /// and connectable phases only.
    pub fn set_filter(&mut self, phase: BLEState, text: String)
        requires
            old(self).wf(),
        ensures
            final(self).wf(),
            phase == BLEState::Disconnected || phase == BLEState::Connectable ==> final(self)@
                == (GuiView { filter: text@, ..old(self)@ }),
            !(phase == BLEState::Disconnected || phase == BLEState::Connectable) ==> final(self)@
                == old(self)@,
    {
        let ghost o = self@;
        if phase == BLEState::Disconnected || phase == BLEState::Connectable {
            self.filter = text;
            assert(self@ =~= GuiView { filter: text@, ..o });
        }
    }

    /// Handles a message polled from the transport in `phase`; returns
    /// whether the phase has a rule for it.
    pub fn on_message(&mut self, phase: BLEState, msg: AsyncMsg) -> (handled: bool)
        requires
            old(self).wf(),
        ensures
            final(self).wf(),
            message_step(old(self)@, final(self)@, phase, msg@, handled),
    {
        let ghost o = self@;
        let ghost mv = msg@;
        match phase {
            BLEState::Scanning => match msg {
                AsyncMsg::ScanResult { result: _, props_vec } => {
                    self.props_vec = props_vec;
                    self.ble_state = BLEState::Connectable;
                    proof {
                        let pv = mv->props_vec;
                        assert(self@ =~= GuiView { state: BLEState::Connectable, peripherals: pv, ..o });
                    }
                    true
                },
                _ => false,
            },
            BLEState::Connecting => match msg {
                AsyncMsg::ConnectResult { result, index: _, props: _ } => {
                    if result != GenericResult::ResultSuccess {
                        self.ble_state = BLEState::Disconnected;
                        assert(self@ =~= GuiView { state: BLEState::Disconnected, ..o });
                    }
                    true
                },
                AsyncMsg::Characteristics { chars } => {
                    let (keys, map) = sort_svcs_chars(&chars);
                    self.chars = chars;
                    self.svc_keys = keys;
                    self.svc_map = map;
                    self.ble_state = BLEState::Connected;
                    proof {
                        let n = self@;
                        assert(n =~= GuiView {
                            state: BLEState::Connected,
                            chars: mv->chars,
                            svc_keys: n.svc_keys,
                            svc_groups: n.svc_groups,
                            ..o
                        });
                    }
                    true
                },
                _ => false,
            },
            BLEState::Connected => match msg {
                AsyncMsg::Payload { payload, char, op: _ } => {
                    if self.waiting_payload.is_some() {
                        self.waiting_payload = None;
                        let ghost pv = payload@;
                        self.char_values.insert(char.uuid, payload);
                        proof {
                            assert(values_view(self.char_values@) =~= o.char_values.insert(
                                char.uuid,
                                pv,
                            ));
                            assert(self@ =~= GuiView {
                                waiting: None,
                                char_values: o.char_values.insert(char.uuid, pv),
                                ..o
                            });
                        }
                    }
                    true
                },
                _ => false,
            },
            _ => false,
        }
    }

    /// The name of characteristic `u`: its standard name when it has one,
    /// else the notation of its UUID.
    pub fn get_char_desc(&mut self, u: u128) -> (res: String)
        ensures
            *final(self) == *old(self),
            res@ == if old(self)@.char_descs.contains_key(u) {
                old(self)@.char_descs[u]
            } else {
                uuid_chars(u)
            },
    {
        match self.char_descs.get(&u) {
            Some(name) => name.clone(),
            None => uuid_text(u),
        }
    }

    /// The text shown for the last value read of characteristic `u`, or
    /// `n/a` when none was read.
    pub fn get_char_value_desc(&mut self, u: u128) -> (res: String)
        ensures
            *final(self) == *old(self),
            res@ == if old(self)@.char_values.contains_key(u) {
                value_text(old(self)@.char_values[u])
            } else {
                seq!['n', '/', 'a']
            },
    {
        match self.char_values.get(&u) {
            Some(bytes) => {
                let copy = bytes.clone();
                assert(copy@ =~= bytes@);
                match utf8_string(copy) {
                    Some(s) => s,
                    None => {
                        let d = bytes_debug_text(bytes);
                        chars_to_string(&d)
                    },
                }
            },
            None => {
                let na: Vec<char> = vec!['n', '/', 'a'];
                chars_to_string(&na)
            },
        }
    }

    /// The positions in the scan result of the peripherals offered for
    /// connection: those whose description contains the filter, ascending.
    pub fn connect_candidates(&self) -> (res: Vec<usize>)
        ensures
            forall|i: int, j: int| 0 <= i < j < res@.len() ==> res@[i] < res@[j],
            forall|i: int|
                0 <= i < res@.len() ==> res@[i] < self@.peripherals.len() && shown(
                    self@.peripherals[res@[i] as int].1,
                    self@.filter,
                ),
            forall|p: int|
                0 <= p < self@.peripherals.len() && shown(self@.peripherals[p].1, self@.filter)
                    ==> res@.contains(p as usize),
    {
        let f = str_chars(self.filter.as_str());
        let mut out: Vec<usize> = Vec::new();
        let mut i: usize = 0;
        while i < self.props_vec.len()
            invariant
                i <= self.props_vec.len(),
                f@ == self@.filter,
                forall|a: int, b: int| 0 <= a < b < out@.len() ==> out@[a] < out@[b],
                forall|a: int| 0 <= a < out@.len() ==> out@[a] < i,
                forall|a: int|
                    0 <= a < out@.len() ==> shown(self@.peripherals[out@[a] as int].1, self@.filter),
                forall|p: int|
                    0 <= p < i && shown(self@.peripherals[p].1, self@.filter) ==> out@.contains(
                        p as usize,
                    ),
            decreases self.props_vec.len() - i,
        {
            let desc = periph_desc_chars(&self.props_vec[i].1);
            let ghost old_out = out@;
            if contains_chars(&desc, &f) {
                out.push(i);
                assert(out@[out@.len() - 1] == i);
            }
            proof {
                assert forall|p: int|
                    0 <= p < i + 1 && shown(self@.peripherals[p].1, self@.filter) implies out@.contains(
                    p as usize,
                ) by {
                    if p < i {
                        assert(old_out.contains(p as usize));
                        let k = choose|k: int| 0 <= k < old_out.len() && old_out[k] == p as usize;
                        assert(out@[k] == p as usize);
                    } else {
                        assert(out@[out@.len() - 1] == i);
                    }
                }
            }
            i = i + 1;
        }
        out
    }

    /// The state of the GUI.
    pub fn ble_state(&self) -> (res: BLEState)
        ensures
            res == self@.state,
    {
        self.ble_state
    }

    /// The scan filter.
    pub fn filter(&self) -> (res: &String)
        ensures
            res@ == self@.filter,
    {
        &self.filter
    }

    /// The peripherals of the last scan result, with their indices.
    pub fn props_vec(&self) -> (res: &Vec<(usize, PeripheralProperties)>)
        ensures
            indexed_props_view(res@) == self@.peripherals,
    {
        &self.props_vec
    }

    /// The service UUIDs of the connected peripheral, ascending.
    pub fn svc_keys(&self) -> (res: &Vec<u128>)
        ensures
            res@ == self@.svc_keys,
    {
        &self.svc_keys
    }

    /// The characteristics of service `service`, if it is one of them.
    pub fn svc_chars(&self, service: u128) -> (res: Option<&Vec<Characteristic>>)
        ensures
            res is Some == self@.svc_groups.contains_key(service),
            res matches Some(v) ==> v@.map_values(|c: Characteristic| c@) == self@.svc_groups[service],
    {
        self.svc_map.get(&service)
    }

    /// The payload request last sent and not yet answered.
    pub fn waiting_payload(&self) -> (res: &Option<AsyncMsg>)
        ensures
            opt_msg_view(*res) == self@.waiting,
    {
        &self.waiting_payload
    }

    /// Whether a value was read for characteristic `u`.
    pub fn has_char_value(&self, u: u128) -> (res: bool)
        ensures
            res == self@.char_values.contains_key(u),
    {
        self.char_values.contains_key(&u)
    }
}

/// The GUI moves only along its edges (see [`state_edge`]) on a click.
pub proof fn lemma_click_follows_edges(o: GuiView, n: GuiView, click: Click, sent: Option<MsgView>)
    requires
        click_step(o, n, o.state, click, sent),
    ensures
        state_edge(o.state, n.state),
{
}

/// The GUI moves only along its edges (see [`state_edge`]) on a message.
pub proof fn lemma_message_follows_edges(o: GuiView, n: GuiView, m: MsgView, handled: bool)
    requires
        message_step(o, n, o.state, m, handled),
    ensures
        state_edge(o.state, n.state),
{
}

/// A request for a characteristic is remembered as the waiting one: what
/// is sent is what is kept.
pub proof fn lemma_request_is_remembered(
    o: GuiView,
    n: GuiView,
    service: u128,
    position: usize,
    button: CharButton,
    m: MsgView,
)
    requires
        click_step(o, n, BLEState::Connected, Click::Char { service, position, button }, Some(m)),
    ensures
        n.waiting == Some(m),
        m matches MsgView::Payload { char, op, .. } && char == o.svc_groups[service][position as int]
            && op == button_op(button),
{
}

/// The answer to a waiting request is kept as the value of its
/// characteristic, and no request waits any more; the GUI then shows
/// [`value_text`] of that value.
pub proof fn lemma_payload_read_back(
    o: GuiView,
    n: GuiView,
    payload: Seq<u8>,
    char: CharacteristicView,
    op: BLEOperation,
    handled: bool,
)
    requires
        message_step(o, n, BLEState::Connected, MsgView::Payload { payload, char, op }, handled),
        o.waiting is Some,
    ensures
        handled,
        n.waiting is None,
        n.char_values.contains_key(char.uuid),
        n.char_values[char.uuid] == payload,
        forall|u: u128| u != char.uuid ==> n.char_values.contains_key(u) == o.char_values.contains_key(u),
{
}

/// After the characteristics arrive, the GUI's service table is their
/// grouping by service.
pub proof fn lemma_characteristics_grouped(
    o: GuiView,
    n: GuiView,
    chars: Seq<CharacteristicView>,
    handled: bool,
)
    requires
        message_step(o, n, BLEState::Connecting, MsgView::Characteristics { chars }, handled),
    ensures
        n.state == BLEState::Connected,
        n.chars == chars,
        grouped(chars, n.svc_keys, n.svc_groups),
{
}

/// A connection request that the GUI sends while it holds the transport's
/// last scan result names a peripheral of the transport's listing, so the
/// transport accepts it.
pub proof fn lemma_connect_request_accepted(
    g: GuiView,
    g2: GuiView,
    position: usize,
    m: MsgView,
    t: TransportView,
)
    requires
        click_step(g, g2, BLEState::Connectable, Click::Connect { position }, Some(m)),
        g.peripherals == t.scanned_props,
        transport_inv(t),
        t.phase == PhaseView::Idle,
    ensures
        m matches MsgView::ConnectStart { index, .. } && index < t.n_periphs,
        forall|x: AsyncMsg| x@ == m ==> accepts_spec(t, Event::Received(Some(x))),
{
    assert(t.scanned_props[position as int].0 < t.n_periphs);
}

/// A run of clicks, all handled under `phase`: `views[i]` before the
/// `i`-th click and `views[i + 1]` after it, `sent[i]` what it sent.
pub open spec fn clicks_run(
    views: Seq<GuiView>,
    phase: BLEState,
    clicks: Seq<Click>,
    sent: Seq<Option<MsgView>>,
) -> bool {
    &&& views.len() == clicks.len() + 1
    &&& sent.len() == clicks.len()
    &&& forall|i: int|
        0 <= i < clicks.len() ==> #[trigger] click_step(views[i], views[i + 1], phase, clicks[i], sent[i])
}

/// One frame of the GUI: the clicks of the frame, all handled under the
/// phase the frame starts in, then at most one polled message, handled under
/// the same phase; `last` is the state at the end of the frame.
pub open spec fn frame_run(
    views: Seq<GuiView>,
    clicks: Seq<Click>,
    sent: Seq<Option<MsgView>>,
    polled: Option<(MsgView, bool)>,
    last: GuiView,
) -> bool {
    &&& clicks_run(views, views[0].state, clicks, sent)
    &&& match polled {
        None => last == views.last(),
        Some(p) => message_step(views.last(), last, views[0].state, p.0, p.1),
    }
}

/// The state after some clicks of a frame: the phase itself, or a state
/// that a click of the phase moves to.
pub open spec fn after_clicks(phase: BLEState, s: BLEState) -> bool {
    &&& state_edge(phase, s)
    &&& (s == phase || s == BLEState::Scanning || s == BLEState::Connecting || s
        == BLEState::Disconnected)
}

proof fn lemma_clicks_stay_near_phase(
    views: Seq<GuiView>,
    phase: BLEState,
    clicks: Seq<Click>,
    sent: Seq<Option<MsgView>>,
    k: int,
)
    requires
        clicks_run(views, phase, clicks, sent),
        views[0].state == phase,
        0 <= k <= clicks.len(),
    ensures
        after_clicks(phase, views[k].state),
    decreases k,
{
    if k > 0 {
        lemma_clicks_stay_near_phase(views, phase, clicks, sent, k - 1);
        let j = k - 1;
        assert(click_step(views[j], views[j + 1], phase, clicks[j], sent[j]));
        assert(j + 1 == k);
    }
}

/// Over a whole frame (any clicks handled under the starting phase, then
/// at most one polled message), the GUI moves only along its edges; it
/// becomes connectable only on a polled scan result, and connected only on
/// polled characteristics.
pub proof fn lemma_frame_follows_edges(
    views: Seq<GuiView>,
    clicks: Seq<Click>,
    sent: Seq<Option<MsgView>>,
    polled: Option<(MsgView, bool)>,
    last: GuiView,
)
    requires
        frame_run(views, clicks, sent, polled, last),
    ensures
        state_edge(views[0].state, last.state),
        last.state == BLEState::Connectable && views[0].state != BLEState::Connectable ==> (
        polled matches Some(p) && p.0 is ScanResult),
        last.state == BLEState::Connected && views[0].state != BLEState::Connected ==> (polled matches Some(
            p,
        ) && p.0 is Characteristics),
{
    let phase = views[0].state;
    lemma_clicks_stay_near_phase(views, phase, clicks, sent, clicks.len() as int);
    assert(views.last() == views[clicks.len() as int]);
}

/// In every state that the GUI's operations keep (all of them, from
/// [`GuiApp::new`] on), the service table is the grouping of the
/// characteristics: every listed service UUID has its group of
/// characteristics, and no other UUID has one.
pub proof fn lemma_service_table(v: GuiView)
    requires
        grouped(v.chars, v.svc_keys, v.svc_groups),
    ensures
        forall|i: int| 0 <= i < v.svc_keys.len() ==> v.svc_groups.contains_key(#[trigger] v.svc_keys[i]),
        forall|u: u128| #[trigger] v.svc_groups.contains_key(u) ==> v.svc_keys.contains(u),
        forall|u: u128| #[trigger] v.svc_groups.contains_key(u) ==> v.svc_groups[u] == chars_of_service(v.chars, u),
{
    assert forall|i: int| 0 <= i < v.svc_keys.len() implies v.svc_groups.contains_key(#[trigger] v.svc_keys[i]) by {
        assert(v.svc_keys.to_set().contains(v.svc_keys[i]));
    }
}

/// The buttons of a characteristic, by their property bits: "Read" acts
/// exactly when bit 0x02 is set and asks to read, "Write" exactly when bit
/// 0x08 is set and asks for a write without response, "Wr (w/o)" exactly
/// when bit 0x04 is set and asks for a write with response, "Enable Notifs"
/// exactly when bit 0x10 is set and asks to enable notifications. What a
/// button sends (an empty payload for that characteristic) is what the GUI
/// then waits for; a button that does not act changes nothing.
pub proof fn lemma_char_button_bits(
    o: GuiView,
    n: GuiView,
    service: u128,
    position: usize,
    button: CharButton,
    sent: Option<MsgView>,
    c: CharacteristicView,
)
    requires
        click_step(o, n, BLEState::Connected, Click::Char { service, position, button }, sent),
        o.svc_groups.contains_key(service),
        position < o.svc_groups[service].len(),
        c == o.svc_groups[service][position as int],
    ensures
        button == CharButton::Read ==> (sent is Some <==> c.properties & 0x02u8 == 0x02u8),
        button == CharButton::Write ==> (sent is Some <==> c.properties & 0x08u8 == 0x08u8),
        button == CharButton::WriteWithoutResponse ==> (sent is Some <==> c.properties & 0x04u8
            == 0x04u8),
        button == CharButton::EnableNotify ==> (sent is Some <==> c.properties & 0x10u8 == 0x10u8),
        button == CharButton::Read && sent is Some ==> sent == Some(
            (MsgView::Payload { payload: Seq::empty(), char: c, op: BLEOperation::Read }),
        ),
        button == CharButton::Write && sent is Some ==> sent == Some(
            (MsgView::Payload { payload: Seq::empty(), char: c, op: BLEOperation::WriteNoResponse }),
        ),
        button == CharButton::WriteWithoutResponse && sent is Some ==> sent == Some(
            (MsgView::Payload { payload: Seq::empty(), char: c, op: BLEOperation::WriteWithResponse }),
        ),
        button == CharButton::EnableNotify && sent is Some ==> sent == Some(
            (MsgView::Payload { payload: Seq::empty(), char: c, op: BLEOperation::EnableNotify }),
        ),
        sent is Some ==> n == (GuiView { waiting: sent, ..o }),
        sent is None ==> n == o,
{
}

/// The description of property bits names each property exactly when its
/// own bit is set, in this order: "Rd" for 0x02, "Wr" for 0x08, "Wr(w/o)"
/// for 0x04, "Notif" for 0x10, "Indicate" for 0x20, separated by `/`; other
/// bits play no part.
pub proof fn lemma_props_desc_bits(bits: u8)
    ensures
        props_desc(bits) == seq_join(
            part_if(bits & 0x02u8 == 0x02u8, seq!['R', 'd']) + part_if(
                bits & 0x08u8 == 0x08u8,
                seq!['W', 'r'],
            ) + part_if(bits & 0x04u8 == 0x04u8, seq!['W', 'r', '(', 'w', '/', 'o', ')'])
                + part_if(bits & 0x10u8 == 0x10u8, seq!['N', 'o', 't', 'i', 'f']) + part_if(
                bits & 0x20u8 == 0x20u8,
                seq!['I', 'n', 'd', 'i', 'c', 'a', 't', 'e'],
            ),
            seq!['/'],
        ),
        props_desc(bits) == props_desc(bits & 0x3Eu8),
{
    let m = bits & 0x3Eu8;
    assert((bits & 0x02u8 == 0x02u8) == (m & 0x02u8 == 0x02u8)) by (bit_vector)
        requires
            m == bits & 0x3Eu8,
    ;
    assert((bits & 0x04u8 == 0x04u8) == (m & 0x04u8 == 0x04u8)) by (bit_vector)
        requires
            m == bits & 0x3Eu8,
    ;
    assert((bits & 0x08u8 == 0x08u8) == (m & 0x08u8 == 0x08u8)) by (bit_vector)
        requires
            m == bits & 0x3Eu8,
    ;
    assert((bits & 0x10u8 == 0x10u8) == (m & 0x10u8 == 0x10u8)) by (bit_vector)
        requires
            m == bits & 0x3Eu8,
    ;
    assert((bits & 0x20u8 == 0x20u8) == (m & 0x20u8 == 0x20u8)) by (bit_vector)
        requires
            m == bits & 0x3Eu8,
    ;
}

/// A scan result taken while scanning is kept whole: the GUI's list of
/// peripherals is the message's list, entry for entry, and the GUI becomes
/// connectable; nothing else changes.
pub proof fn lemma_scan_result_kept(
    o: GuiView,
    n: GuiView,
    result: GenericResult,
    props_vec: Seq<(usize, PropertiesView)>,
    handled: bool,
)
    requires
        message_step(o, n, BLEState::Scanning, MsgView::ScanResult { result, props_vec }, handled),
    ensures
        handled,
        n.state == BLEState::Connectable,
        n.peripherals.len() == props_vec.len(),
        forall|i: int| 0 <= i < props_vec.len() ==> n.peripherals[i] == props_vec[i],
        n.filter == o.filter,
        n.chars == o.chars,
        n.waiting == o.waiting,
        n.char_values == o.char_values,
{
}

/// A value that is the UTF-8 encoding of a text is shown as that text,
/// whatever characters it holds; a value that is not valid UTF-8 is shown as
/// its list of bytes.
pub proof fn lemma_value_text_utf8(text: Seq<char>, bytes: Seq<u8>)
    ensures
        value_text(vstd::utf8::encode_utf8(text)) == text,
        !valid_utf8(bytes) ==> value_text(bytes) == bytes_debug(bytes),
        valid_utf8(bytes) ==> value_text(bytes) == decode_utf8(bytes),
{
    vstd::utf8::encode_utf8_valid_utf8(text);
    vstd::utf8::encode_utf8_decode_utf8(text);
}

} // verus!
