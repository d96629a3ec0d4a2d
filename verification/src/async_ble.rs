//! The decisions of the BLE transport task. The task waits for messages
//! from the GUI and answers them with Bluetooth work: scanning, connecting
//! (up to five attempts, each followed by up to five attempts to discover
//! the services), reading, subscribing and disconnecting.
//!
//! The machine here decides; the caller does the work. Each step takes the
//! outcome of the work last asked for (an [`Event`]) and returns the next
//! work to do (an [`Action`]). The peripherals themselves stay with the
//! caller, which holds them in the order of the last listing; the machine
//! refers to them by their index in that list.
use vstd::prelude::*;
use vstd::string::*;
use crate::async_msg::{
    AsyncMsg, BLEOperation, Characteristic, CharacteristicSet, CharacteristicView, GenericResult,
    MsgView, PeripheralProperties, PropertiesView, copy_indexed_props, indexed_props_view,
};

verus! {

/// Number of attempts at connecting, and at discovering services after
/// each successful connection.
pub const ATTEMPTS: u32 = 5;

/// The work the caller is asked to do next.
pub enum Action {
    /// Wait for the next message from the GUI.
    Receive,
    /// Start scanning (with the default scan filter).
    StartScan,
    /// Wait this long.
    Sleep { duration_ms: u32 },
    /// Stop scanning.
    StopScan,
    /// List the peripherals and read the properties of each.
    ListPeripherals,
    /// Connect to the peripheral at this index of the list.
    Connect { index: usize },
    /// Discover the services of the peripheral at this index.
    DiscoverServices { index: usize },
    /// Read this characteristic of the peripheral at this index.
    Read { index: usize, char: Characteristic },
    /// Subscribe to this characteristic of the peripheral at this index.
    Subscribe { index: usize, char: Characteristic },
    /// Disconnect from the peripheral at this index.
    Disconnect { index: usize },
    /// Send this message to the GUI.
    Send(AsyncMsg),
    /// End the task, successfully or with an error.
    Stop { ok: bool },
}

/// The outcome of the work last asked for.
pub enum Event {
    /// A message from the GUI, or `None` when none can come any more.
    Received(Option<AsyncMsg>),
    /// The message was sent (or could not be; the task goes on either way).
    Sent,
    /// The scan was started (or failed to start; the task goes on).
    ScanStarted,
    /// The wait is over.
    Slept,
    /// The scan was stopped (or failed to stop; the task goes on).
    ScanStopped,
    /// The list of peripherals, each with its properties when they could
    /// be read; `None` when the list could not be had.
    Peripherals(Option<Vec<Option<PeripheralProperties>>>),
    /// Whether the connection succeeded.
    Connected(bool),
    /// The characteristics of the peripheral when the services were
    /// discovered, `None` when discovery failed.
    Discovered(Option<CharacteristicSet>),
    /// The value read, `None` when reading failed.
    ReadDone(Option<Vec<u8>>),
    /// Whether subscribing succeeded.
    Subscribed(bool),
    /// Whether disconnecting succeeded.
    Disconnected(bool),
}

/// Where the task stands.
pub enum Phase {
    Idle,
    ScanStarting { duration_ms: u32 },
    ScanSleeping,
    ScanStopping,
    Listing,
    Connecting { index: usize, props: PeripheralProperties, tries: u32 },
    Announcing { index: usize, props: PeripheralProperties, tries: u32 },
    Discovering { index: usize, props: PeripheralProperties, tries: u32, discover_tries: u32 },
    Reading { char: Characteristic },
    Subscribing,
    Disconnecting { index: usize },
    Finishing,
    Stopped,
}

/// Mathematical value of an action.
pub enum ActionView {
    Receive,
    StartScan,
    Sleep { duration_ms: u32 },
    StopScan,
    ListPeripherals,
    Connect { index: usize },
    DiscoverServices { index: usize },
    Read { index: usize, char: CharacteristicView },
    Subscribe { index: usize, char: CharacteristicView },
    Disconnect { index: usize },
    Send(MsgView),
    Stop { ok: bool },
}

/// Mathematical value of a phase.
pub enum PhaseView {
    Idle,
    ScanStarting { duration_ms: u32 },
    ScanSleeping,
    ScanStopping,
    Listing,
    Connecting { index: usize, props: PropertiesView, tries: u32 },
    Announcing { index: usize, props: PropertiesView, tries: u32 },
    Discovering { index: usize, props: PropertiesView, tries: u32, discover_tries: u32 },
    Reading { char: CharacteristicView },
    Subscribing,
    Disconnecting { index: usize },
    Finishing,
    Stopped,
}

impl View for Action {
    type V = ActionView;

    open spec fn view(&self) -> ActionView {
        match self {
            Action::Receive => ActionView::Receive,
            Action::StartScan => ActionView::StartScan,
            Action::Sleep { duration_ms } => ActionView::Sleep { duration_ms: *duration_ms },
            Action::StopScan => ActionView::StopScan,
            Action::ListPeripherals => ActionView::ListPeripherals,
            Action::Connect { index } => ActionView::Connect { index: *index },
            Action::DiscoverServices { index } => ActionView::DiscoverServices { index: *index },
            Action::Read { index, char } => ActionView::Read { index: *index, char: char@ },
            Action::Subscribe { index, char } => ActionView::Subscribe { index: *index, char: char@ },
            Action::Disconnect { index } => ActionView::Disconnect { index: *index },
            Action::Send(m) => ActionView::Send(m@),
            Action::Stop { ok } => ActionView::Stop { ok: *ok },
        }
    }
}

impl View for Phase {
    type V = PhaseView;

    open spec fn view(&self) -> PhaseView {
        match self {
            Phase::Idle => PhaseView::Idle,
            Phase::ScanStarting { duration_ms } => PhaseView::ScanStarting {
                duration_ms: *duration_ms,
            },
            Phase::ScanSleeping => PhaseView::ScanSleeping,
            Phase::ScanStopping => PhaseView::ScanStopping,
            Phase::Listing => PhaseView::Listing,
            Phase::Connecting { index, props, tries } => PhaseView::Connecting {
                index: *index,
                props: props@,
                tries: *tries,
            },
            Phase::Announcing { index, props, tries } => PhaseView::Announcing {
                index: *index,
                props: props@,
                tries: *tries,
            },
            Phase::Discovering { index, props, tries, discover_tries } => PhaseView::Discovering {
                index: *index,
                props: props@,
                tries: *tries,
                discover_tries: *discover_tries,
            },
            Phase::Reading { char } => PhaseView::Reading { char: char@ },
            Phase::Subscribing => PhaseView::Subscribing,
            Phase::Disconnecting { index } => PhaseView::Disconnecting { index: *index },
            Phase::Finishing => PhaseView::Finishing,
            Phase::Stopped => PhaseView::Stopped,
        }
    }
}

/// The state of the transport task.
pub struct AsyncBLE {
    scanned_props: Vec<(usize, PeripheralProperties)>,
    n_periphs: usize,
    connected_index: Option<usize>,
    phase: Phase,
}

/// Mathematical value of the transport's state.
#[verifier::ext_equal]
pub struct TransportView {
    /// The peripherals of the last listing whose properties could be read,
    /// with their indices in the listing.
    pub scanned_props: Seq<(usize, PropertiesView)>,
    /// The number of peripherals in the last listing.
    pub n_periphs: usize,
    /// The index of the peripheral last connected.
    pub connected_index: Option<usize>,
    pub phase: PhaseView,
}

impl View for AsyncBLE {
    type V = TransportView;

    closed spec fn view(&self) -> TransportView {
        TransportView {
            scanned_props: indexed_props_view(self.scanned_props@),
            n_periphs: self.n_periphs,
            connected_index: self.connected_index,
            phase: self.phase@,
        }
    }
}

/// The properties in a listing, each by its view.
pub open spec fn listing_view(v: Seq<Option<PeripheralProperties>>) -> Seq<Option<PropertiesView>> {
    v.map_values(
        |p: Option<PeripheralProperties>|
            match p {
                Some(q) => Some(q@),
                None => None,
            },
    )
}

/// The peripherals of a listing whose properties could be read, each with
/// its index in the listing, in the order of the listing.
pub open spec fn present_props(list: Seq<Option<PropertiesView>>) -> Seq<(usize, PropertiesView)>
    decreases list.len(),
{
    if list.len() == 0 {
        Seq::empty()
    } else {
        let rest = present_props(list.drop_last());
        match list.last() {
            Some(p) => rest.push(((list.len() - 1) as usize, p)),
            None => rest,
        }
    }
}

/// Indices ascending, each below `n`.
pub open spec fn indices_below(s: Seq<(usize, PropertiesView)>, n: int) -> bool {
    &&& forall|i: int| 0 <= i < s.len() ==> #[trigger] s[i].0 < n
    &&& forall|i: int, j: int| #![trigger s[i], s[j]] 0 <= i < j < s.len() ==> s[i].0 < s[j].0
}

/// The attempt counters of a phase stay within the allowed attempts.
pub open spec fn attempts_bounded(p: PhaseView) -> bool {
    match p {
        PhaseView::Connecting { tries, .. } => 1 <= tries <= ATTEMPTS,
        PhaseView::Announcing { tries, .. } => 1 <= tries <= ATTEMPTS,
        PhaseView::Discovering { tries, discover_tries, .. } => 1 <= tries <= ATTEMPTS && 1
            <= discover_tries <= ATTEMPTS,
        _ => true,
    }
}

/// The invariant of the transport: every scanned peripheral is named by
/// an index of the listing, ascending, and the attempt counters are within
/// bounds.
pub open spec fn transport_inv(v: TransportView) -> bool {
    indices_below(v.scanned_props, v.n_periphs as int) && attempts_bounded(v.phase)
}

/// The events that the caller can hand over in a state: the outcome of the
/// work asked for, and none on which the task would fail on an index out
/// of range.
pub open spec fn accepts_spec(v: TransportView, e: Event) -> bool {
    match v.phase {
        PhaseView::Idle => match e {
            Event::Sent => true,
            Event::Received(None) => true,
            Event::Received(Some(m)) => match m {
                AsyncMsg::ConnectStart { index, .. } => index < v.n_periphs,
                AsyncMsg::Payload { op, .. } => (op == BLEOperation::Read || op
                    == BLEOperation::EnableNotify) ==> (v.connected_index matches Some(ci) ==> ci
                    < v.n_periphs),
                AsyncMsg::DisconnectStart { .. } => v.connected_index matches Some(ci) ==> ci
                    < v.n_periphs,
                _ => true,
            },
            _ => false,
        },
        PhaseView::ScanStarting { .. } => e is ScanStarted,
        PhaseView::ScanSleeping => e is Slept,
        PhaseView::ScanStopping => e is ScanStopped,
        PhaseView::Listing => e is Peripherals,
        PhaseView::Connecting { .. } => e is Connected,
        PhaseView::Announcing { .. } => e is Sent,
        PhaseView::Discovering { .. } => e is Discovered,
        PhaseView::Reading { .. } => e is ReadDone,
        PhaseView::Subscribing => e is Subscribed,
        PhaseView::Disconnecting { index } => match e {
            Event::Disconnected(ok) => ok ==> index < v.scanned_props.len(),
            _ => false,
        },
        PhaseView::Finishing => e is Sent,
        PhaseView::Stopped => false,
    }
}

/// `o` with another phase.
pub open spec fn with_phase(o: TransportView, p: PhaseView) -> TransportView {
    TransportView { phase: p, ..o }
}

/// The next try at connecting after a failed attempt, or giving up after
/// the last one.
pub open spec fn retry_connect(
    o: TransportView,
    index: usize,
    props: PropertiesView,
    tries: u32,
    n: TransportView,
    a: ActionView,
) -> bool {
    if tries < ATTEMPTS {
        n == with_phase(o, PhaseView::Connecting { index, props, tries: (tries + 1) as u32 })
            && a == ActionView::Connect { index }
    } else {
        n == with_phase(o, PhaseView::Idle) && a == ActionView::Receive
    }
}

/// What a message from the GUI starts.
pub open spec fn receive_step(o: TransportView, m: AsyncMsg, n: TransportView, a: ActionView) -> bool {
    match m {
        AsyncMsg::ScanStart { duration_ms, .. } => n == with_phase(
            o,
            PhaseView::ScanStarting { duration_ms },
        ) && a == ActionView::StartScan,
        AsyncMsg::ConnectStart { index, props } => n == with_phase(
            o,
            PhaseView::Connecting { index, props: props@, tries: 1 },
        ) && a == ActionView::Connect { index },
        AsyncMsg::Payload { payload, char, op } => match o.connected_index {
            Some(ci) => if op == BLEOperation::Read {
                n == with_phase(o, PhaseView::Reading { char: char@ }) && a == ActionView::Read {
                    index: ci,
                    char: char@,
                }
            } else if op == BLEOperation::EnableNotify {
                n == with_phase(o, PhaseView::Subscribing) && a == ActionView::Subscribe {
                    index: ci,
                    char: char@,
                }
            } else {
                n == o && a == ActionView::Receive
            },
            None => n == o && a == ActionView::Receive,
        },
        AsyncMsg::DisconnectStart { .. } => match o.connected_index {
            Some(ci) => n == with_phase(o, PhaseView::Disconnecting { index: ci }) && a
                == ActionView::Disconnect { index: ci },
            None => n == o && a == ActionView::Receive,
        },
        _ => n == o && a == ActionView::Receive,
    }
}

/// One step of the transport: from state `o`, on event `e`, to state `n`,
/// asking for action `a`.
pub open spec fn step_spec(o: TransportView, e: Event, n: TransportView, a: ActionView) -> bool {
    match o.phase {
        PhaseView::Idle => match e {
            Event::Received(Some(m)) => receive_step(o, m, n, a),
            _ => n == o && a == ActionView::Receive,
        },
        PhaseView::ScanStarting { duration_ms } => n == with_phase(o, PhaseView::ScanSleeping)
            && a == ActionView::Sleep { duration_ms },
        PhaseView::ScanSleeping => n == with_phase(o, PhaseView::ScanStopping) && a
            == ActionView::StopScan,
        PhaseView::ScanStopping => n == with_phase(o, PhaseView::Listing) && a
            == ActionView::ListPeripherals,
        PhaseView::Listing => match e {
            Event::Peripherals(Some(list)) => {
                let sp = present_props(listing_view(list@));
                n == TransportView {
                    scanned_props: sp,
                    n_periphs: list.len(),
                    phase: PhaseView::Idle,
                    ..o
                } && a == ActionView::Send(
                    MsgView::ScanResult { result: GenericResult::ResultSuccess, props_vec: sp },
                )
            },
            _ => n == with_phase(o, PhaseView::Idle) && a == ActionView::Receive,
        },
        PhaseView::Connecting { index, props, tries } => match e {
            Event::Connected(true) => n == TransportView {
                connected_index: Some(index),
                phase: PhaseView::Announcing { index, props, tries },
                ..o
            } && a == ActionView::Send(
                MsgView::ConnectResult { result: GenericResult::ResultSuccess, index, props },
            ),
            _ => retry_connect(o, index, props, tries, n, a),
        },
        PhaseView::Announcing { index, props, tries } => n == with_phase(
            o,
            PhaseView::Discovering { index, props, tries, discover_tries: 1 },
        ) && a == ActionView::DiscoverServices { index },
        PhaseView::Discovering { index, props, tries, discover_tries } => match e {
            Event::Discovered(Some(chars)) => n == with_phase(o, PhaseView::Idle) && a
                == ActionView::Send(MsgView::Characteristics { chars: chars@ }),
            _ => if discover_tries < ATTEMPTS {
                n == with_phase(
                    o,
                    PhaseView::Discovering {
                        index,
                        props,
                        tries,
                        discover_tries: (discover_tries + 1) as u32,
                    },
                ) && a == ActionView::DiscoverServices { index }
            } else {
                retry_connect(o, index, props, tries, n, a)
            },
        },
        PhaseView::Reading { char } => match e {
            Event::ReadDone(Some(buf)) => n == with_phase(o, PhaseView::Idle) && a
                == ActionView::Send(
                MsgView::Payload { payload: buf@, char, op: BLEOperation::EnableIndicate },
            ),
            _ => n == with_phase(o, PhaseView::Idle) && a == ActionView::Receive,
        },
        PhaseView::Subscribing => match e {
            Event::Subscribed(true) => n == with_phase(o, PhaseView::Idle) && a
                == ActionView::Receive,
            _ => n == with_phase(o, PhaseView::Stopped) && a == ActionView::Stop { ok: false },
        },
        PhaseView::Disconnecting { index } => match e {
            Event::Disconnected(true) => n == with_phase(o, PhaseView::Idle) && a
                == ActionView::Send(
                MsgView::DisconnectResult {
                    result: GenericResult::ResultSuccess,
                    index,
                    props: o.scanned_props[index as int].1,
                },
            ),
            _ => n == with_phase(o, PhaseView::Idle) && a == ActionView::Receive,
        },
        PhaseView::Finishing => n == with_phase(o, PhaseView::Stopped) && a == ActionView::Stop {
            ok: true,
        },
        PhaseView::Stopped => n == o && a == ActionView::Stop { ok: true },
    }
}

/// The characters of "No Bluetooth adapters found".
pub open spec fn no_adapter_text() -> Seq<char> {
    "No Bluetooth adapters found"@
}

proof fn lemma_present_props(list: Seq<Option<PropertiesView>>)
    requires
        list.len() <= usize::MAX,
    ensures
        indices_below(present_props(list), list.len() as int),
    decreases list.len(),
{
    if list.len() > 0 {
        let rest = present_props(list.drop_last());
        lemma_present_props(list.drop_last());
        match list.last() {
            Some(p) => {
                let s = rest.push(((list.len() - 1) as usize, p));
                assert(present_props(list) == s);
                assert forall|i: int, j: int|
                    #![trigger s[i], s[j]]
                    0 <= i < j < s.len() implies s[i].0 < s[j].0 by {
                    assert(s[i] == rest[i]);
                    if j < rest.len() {
                        assert(s[j] == rest[j]);
                        assert(rest[i].0 < rest[j].0);
                    } else {
                        assert(s[j].0 == list.len() - 1);
                        assert(rest[i].0 < list.len() - 1);
                    }
                }
                assert forall|i: int| 0 <= i < s.len() implies #[trigger] s[i].0 < list.len() by {
                    if i < rest.len() {
                        assert(s[i] == rest[i]);
                        assert(rest[i].0 < list.len() - 1);
                    }
                }
            },
            None => {},
        }
    }
}

/// Every step keeps the invariant of the transport: scanned peripherals
/// are named by ascending indices of the listing, and no more than
/// [`ATTEMPTS`] connection attempts, each with no more than [`ATTEMPTS`]
/// discovery attempts, are made for one request.
pub proof fn lemma_step_keeps_invariant(o: TransportView, e: Event, n: TransportView, a: ActionView)
    requires
        transport_inv(o),
        accepts_spec(o, e),
        step_spec(o, e, n, a),
    ensures
        transport_inv(n),
{
    if let PhaseView::Listing = o.phase {
        if let Event::Peripherals(Some(list)) = e {
            lemma_present_props(listing_view(list@));
        }
    }
}

/// A scan result that the transport sends lists exactly the peripherals
/// it keeps, each named by its index in the listing, ascending.
pub proof fn lemma_scan_result_indices(o: TransportView, e: Event, n: TransportView, a: ActionView)
    requires
        transport_inv(o),
        accepts_spec(o, e),
        step_spec(o, e, n, a),
        a matches ActionView::Send(MsgView::ScanResult { .. }),
    ensures
        a matches ActionView::Send(MsgView::ScanResult { props_vec, result }) && props_vec
            == n.scanned_props && indices_below(props_vec, n.n_periphs as int) && result
            == GenericResult::ResultSuccess,
{
    lemma_step_keeps_invariant(o, e, n, a);
}

/// On a payload request, the transport reads only when asked to read and
/// subscribes only when asked to enable notifications, in both cases on the
/// connected peripheral and for the requested characteristic; any other
/// payload request, or one while nothing is connected, leaves it waiting
/// for the next message with nothing changed.
pub proof fn lemma_payload_request(o: TransportView, m: AsyncMsg, n: TransportView, a: ActionView)
    requires
        o.phase == PhaseView::Idle,
        step_spec(o, Event::Received(Some(m)), n, a),
        m is Payload,
    ensures
        match m {
            AsyncMsg::Payload { char, op, .. } => {
                &&& a is Read ==> op == BLEOperation::Read
                &&& a is Subscribe ==> op == BLEOperation::EnableNotify
                &&& (op != BLEOperation::Read && op != BLEOperation::EnableNotify) ==> (n == o && a
                    == ActionView::Receive)
                &&& o.connected_index is None ==> (n == o && a == ActionView::Receive)
                &&& (op == BLEOperation::Read && o.connected_index is Some) ==> a == ActionView::Read {
                    index: o.connected_index->0,
                    char: char@,
                }
                &&& (op == BLEOperation::EnableNotify && o.connected_index is Some) ==> a
                    == ActionView::Subscribe { index: o.connected_index->0, char: char@ }
            },
            _ => true,
        },
{
}

fn copy_phase(p: &Phase) -> (res: Phase)
    ensures
        res@ == p@,
{
    match p {
        Phase::Idle => Phase::Idle,
        Phase::ScanStarting { duration_ms } => Phase::ScanStarting { duration_ms: *duration_ms },
        Phase::ScanSleeping => Phase::ScanSleeping,
        Phase::ScanStopping => Phase::ScanStopping,
        Phase::Listing => Phase::Listing,
        Phase::Connecting { index, props, tries } => Phase::Connecting {
            index: *index,
            props: props.copy(),
            tries: *tries,
        },
        Phase::Announcing { index, props, tries } => Phase::Announcing {
            index: *index,
            props: props.copy(),
            tries: *tries,
        },
        Phase::Discovering { index, props, tries, discover_tries } => Phase::Discovering {
            index: *index,
            props: props.copy(),
            tries: *tries,
            discover_tries: *discover_tries,
        },
        Phase::Reading { char } => Phase::Reading { char: char.copy() },
        Phase::Subscribing => Phase::Subscribing,
        Phase::Disconnecting { index } => Phase::Disconnecting { index: *index },
        Phase::Finishing => Phase::Finishing,
        Phase::Stopped => Phase::Stopped,
    }
}

/// The present peripherals of a listing, with their indices.
fn collect_present(list: &Vec<Option<PeripheralProperties>>) -> (res: Vec<
    (usize, PeripheralProperties),
>)
    ensures
        indexed_props_view(res@) == present_props(listing_view(list@)),
{
    let ghost lv = listing_view(list@);
    let mut out: Vec<(usize, PeripheralProperties)> = Vec::new();
    let mut i: usize = 0;
    while i < list.len()
        invariant
            i <= list.len(),
            lv == listing_view(list@),
            indexed_props_view(out@) == present_props(lv.take(i as int)),
        decreases list.len() - i,
    {
        proof {
            assert(lv.take(i + 1).drop_last() =~= lv.take(i as int));
            assert(lv.take(i + 1).last() == lv[i as int]);
        }
        match &list[i] {
            Some(p) => {
                let ghost before = indexed_props_view(out@);
                out.push((i, p.copy()));
                assert(indexed_props_view(out@) =~= before.push((i, p@)));
            },
            None => {},
        }
        i = i + 1;
    }
    assert(lv.take(i as int) =~= lv);
    out
}

impl AsyncBLE {
    /// Well-formed: the invariant of the transport holds.
    pub open spec fn wf(&self) -> bool {
        transport_inv(self@)
    }

    /// Starts the task once the adapters are listed: with no adapter it
    /// reports the error to the GUI and then ends; otherwise it waits for
    /// messages, with nothing scanned and nothing connected.
    pub fn start(n_adapters: usize) -> (res: (AsyncBLE, Action))
        ensures
            res.0.wf(),
            res.0@.scanned_props.len() == 0,
            res.0@.n_periphs == 0,
            res.0@.connected_index is None,
            n_adapters == 0 ==> res.0@.phase == PhaseView::Finishing && res.1@ == ActionView::Send(
                MsgView::Error(no_adapter_text()),
            ),
            n_adapters > 0 ==> res.0@.phase == PhaseView::Idle && res.1@ == ActionView::Receive,
    {
        let phase = if n_adapters == 0 {
            Phase::Finishing
        } else {
            Phase::Idle
        };
        let ble = AsyncBLE {
            scanned_props: Vec::new(),
            n_periphs: 0,
            connected_index: None,
            phase,
        };
        assert(ble@.scanned_props =~= Seq::empty());
        if n_adapters == 0 {
            (ble, Action::Send(AsyncMsg::Error(String::from_str("No Bluetooth adapters found"))))
        } else {
            (ble, Action::Receive)
        }
    }

    /// Whether `e` can be handed over now (see [`accepts_spec`]); where it
    /// cannot because an index is out of range, the task fails.
    pub fn accepts(&self, e: &Event) -> (res: bool)
        ensures
            res == accepts_spec(self@, *e),
    {
        match &self.phase {
            Phase::Idle => match e {
                Event::Sent => true,
                Event::Received(None) => true,
                Event::Received(Some(m)) => match m {
                    AsyncMsg::ConnectStart { index, .. } => *index < self.n_periphs,
                    AsyncMsg::Payload { op, .. } => {
                        if *op == BLEOperation::Read || *op == BLEOperation::EnableNotify {
                            match self.connected_index {
                                Some(ci) => ci < self.n_periphs,
                                None => true,
                            }
                        } else {
                            true
                        }
                    },
                    AsyncMsg::DisconnectStart { .. } => match self.connected_index {
                        Some(ci) => ci < self.n_periphs,
                        None => true,
                    },
                    _ => true,
                },
                _ => false,
            },
            Phase::ScanStarting { .. } => matches!(e, Event::ScanStarted),
            Phase::ScanSleeping => matches!(e, Event::Slept),
            Phase::ScanStopping => matches!(e, Event::ScanStopped),
            Phase::Listing => matches!(e, Event::Peripherals(_)),
            Phase::Connecting { .. } => matches!(e, Event::Connected(_)),
            Phase::Announcing { .. } => matches!(e, Event::Sent),
            Phase::Discovering { .. } => matches!(e, Event::Discovered(_)),
            Phase::Reading { .. } => matches!(e, Event::ReadDone(_)),
            Phase::Subscribing => matches!(e, Event::Subscribed(_)),
            Phase::Disconnecting { index } => match e {
                Event::Disconnected(ok) => !*ok || *index < self.scanned_props.len(),
                _ => false,
            },
            Phase::Finishing => matches!(e, Event::Sent),
            Phase::Stopped => false,
        }
    }

    /// One step: takes the outcome of the work last asked for and returns
    /// the next work (see [`step_spec`]).
    pub fn step(&mut self, e: Event) -> (a: Action)
        requires
            old(self).wf(),
            accepts_spec(old(self)@, e),
        ensures
            final(self).wf(),
            step_spec(old(self)@, e, final(self)@, a@),
    {
        let ghost o = self@;
        let cur = copy_phase(&self.phase);
        match cur {
            Phase::Idle => match e {
                Event::Received(Some(m)) => self.receive(m),
                _ => Action::Receive,
            },
            Phase::ScanStarting { duration_ms } => {
                self.phase = Phase::ScanSleeping;
                assert(self@ =~= with_phase(o, PhaseView::ScanSleeping));
                Action::Sleep { duration_ms }
            },
            Phase::ScanSleeping => {
                self.phase = Phase::ScanStopping;
                assert(self@ =~= with_phase(o, PhaseView::ScanStopping));
                Action::StopScan
            },
            Phase::ScanStopping => {
                self.phase = Phase::Listing;
                assert(self@ =~= with_phase(o, PhaseView::Listing));
                Action::ListPeripherals
            },
            Phase::Listing => match e {
                Event::Peripherals(Some(list)) => {
                    let sp = collect_present(&list);
                    let report = copy_indexed_props(&sp);
                    self.scanned_props = sp;
                    self.n_periphs = list.len();
                    self.phase = Phase::Idle;
                    proof {
                        lemma_present_props(listing_view(list@));
                        assert(self@ =~= TransportView {
                            scanned_props: present_props(listing_view(list@)),
                            n_periphs: list.len(),
                            phase: PhaseView::Idle,
                            ..o
                        });
                    }
                    Action::Send(
                        AsyncMsg::ScanResult {
                            result: GenericResult::ResultSuccess,
                            props_vec: report,
                        },
                    )
                },
                _ => {
                    self.phase = Phase::Idle;
                    assert(self@ =~= with_phase(o, PhaseView::Idle));
                    Action::Receive
                },
            },
            Phase::Connecting { index, props, tries } => match e {
                Event::Connected(true) => {
                    let report = props.copy();
                    self.connected_index = Some(index);
                    self.phase = Phase::Announcing { index, props, tries };
                    assert(self@ =~= TransportView {
                        connected_index: Some(index),
                        phase: PhaseView::Announcing { index, props: report@, tries },
                        ..o
                    });
                    Action::Send(
                        AsyncMsg::ConnectResult {
                            result: GenericResult::ResultSuccess,
                            index,
                            props: report,
                        },
                    )
                },
                _ => self.retry_connect(index, props, tries),
            },
            Phase::Announcing { index, props, tries } => {
                self.phase = Phase::Discovering { index, props, tries, discover_tries: 1 };
                assert(self@ =~= with_phase(o, self.phase@));
                Action::DiscoverServices { index }
            },
            Phase::Discovering { index, props, tries, discover_tries } => match e {
                Event::Discovered(Some(chars)) => {
                    self.phase = Phase::Idle;
                    assert(self@ =~= with_phase(o, PhaseView::Idle));
                    Action::Send(AsyncMsg::Characteristics { chars })
                },
                _ => {
                    if discover_tries < ATTEMPTS {
                        self.phase = Phase::Discovering {
                            index,
                            props,
                            tries,
                            discover_tries: discover_tries + 1,
                        };
                        assert(self@ =~= with_phase(o, self.phase@));
                        Action::DiscoverServices { index }
                    } else {
                        self.retry_connect(index, props, tries)
                    }
                },
            },
            Phase::Reading { char } => match e {
                Event::ReadDone(Some(buf)) => {
                    self.phase = Phase::Idle;
                    assert(self@ =~= with_phase(o, PhaseView::Idle));
                    Action::Send(
                        AsyncMsg::Payload { payload: buf, char, op: BLEOperation::EnableIndicate },
                    )
                },
                _ => {
                    self.phase = Phase::Idle;
                    assert(self@ =~= with_phase(o, PhaseView::Idle));
                    Action::Receive
                },
            },
            Phase::Subscribing => match e {
                Event::Subscribed(true) => {
                    self.phase = Phase::Idle;
                    assert(self@ =~= with_phase(o, PhaseView::Idle));
                    Action::Receive
                },
                _ => {
                    self.phase = Phase::Stopped;
                    assert(self@ =~= with_phase(o, PhaseView::Stopped));
                    Action::Stop { ok: false }
                },
            },
            Phase::Disconnecting { index } => match e {
                Event::Disconnected(true) => {
                    let props = self.scanned_props[index].1.copy();
                    self.phase = Phase::Idle;
                    assert(self@ =~= with_phase(o, PhaseView::Idle));
                    Action::Send(
                        AsyncMsg::DisconnectResult {
                            result: GenericResult::ResultSuccess,
                            index,
                            props,
                        },
                    )
                },
                _ => {
                    self.phase = Phase::Idle;
                    assert(self@ =~= with_phase(o, PhaseView::Idle));
                    Action::Receive
                },
            },
            Phase::Finishing => {
                self.phase = Phase::Stopped;
                assert(self@ =~= with_phase(o, PhaseView::Stopped));
                Action::Stop { ok: true }
            },
            Phase::Stopped => Action::Stop { ok: true },
        }
    }

    fn retry_connect(&mut self, index: usize, props: PeripheralProperties, tries: u32) -> (a: Action)
        requires
            old(self).wf(),
            1 <= tries <= ATTEMPTS,
        ensures
            final(self).wf(),
            retry_connect(old(self)@, index, props@, tries, final(self)@, a@),
    {
        let ghost o = self@;
        if tries < ATTEMPTS {
            self.phase = Phase::Connecting { index, props, tries: tries + 1 };
            assert(self@ =~= with_phase(o, self.phase@));
            Action::Connect { index }
        } else {
            self.phase = Phase::Idle;
            assert(self@ =~= with_phase(o, PhaseView::Idle));
            Action::Receive
        }
    }

    fn receive(&mut self, m: AsyncMsg) -> (a: Action)
        requires
            old(self).wf(),
            old(self)@.phase == PhaseView::Idle,
        ensures
            final(self).wf(),
            receive_step(old(self)@, m, final(self)@, a@),
    {
        let ghost o = self@;
        match m {
            AsyncMsg::ScanStart { filter: _, duration_ms } => {
                self.phase = Phase::ScanStarting { duration_ms };
                assert(self@ =~= with_phase(o, self.phase@));
                Action::StartScan
            },
            AsyncMsg::ConnectStart { index, props } => {
                self.phase = Phase::Connecting { index, props, tries: 1 };
                assert(self@ =~= with_phase(o, self.phase@));
                Action::Connect { index }
            },
            AsyncMsg::Payload { payload: _, char, op } => match self.connected_index {
                Some(ci) => {
                    if op == BLEOperation::Read {
                        let c = char.copy();
                        self.phase = Phase::Reading { char };
                        assert(self@ =~= with_phase(o, self.phase@));
                        Action::Read { index: ci, char: c }
                    } else if op == BLEOperation::EnableNotify {
                        self.phase = Phase::Subscribing;
                        assert(self@ =~= with_phase(o, PhaseView::Subscribing));
                        Action::Subscribe { index: ci, char }
                    } else {
                        Action::Receive
                    }
                },
                None => Action::Receive,
            },
            AsyncMsg::DisconnectStart { .. } => match self.connected_index {
                Some(ci) => {
                    self.phase = Phase::Disconnecting { index: ci };
                    assert(self@ =~= with_phase(o, self.phase@));
                    Action::Disconnect { index: ci }
                },
                None => Action::Receive,
            },
            _ => Action::Receive,
        }
    }

    /// The peripherals of the last listing whose properties could be read.
    pub fn scanned_props(&self) -> (res: &Vec<(usize, PeripheralProperties)>)
        ensures
            indexed_props_view(res@) == self@.scanned_props,
    {
        &self.scanned_props
    }

    /// The index of the peripheral last connected.
    pub fn connected_index(&self) -> (res: Option<usize>)
        ensures
            res == self@.connected_index,
    {
        self.connected_index
    }
}

} // verus!
