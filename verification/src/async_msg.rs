//! The messages that travel between the GUI and the BLE transport, and the
//! plain-value descriptions of peripherals and GATT characteristics that
//! they carry.
use vstd::prelude::*;

verus! {

/// Generic outcome of a request, borrowed from the GoPro bluetooth definitions.
#[derive(Clone, Copy, Debug, PartialEq, Eq, Structural)]
pub enum GenericResult {
    ResultUnknown,
    ResultSuccess,
    ResultIllFormed,
    ResultNotSupported,
    ResultArgumentOutOfBounds,
    ResultArgumentInvalid,
    ResultResourceNotAvailable,
}

/// The operation that a payload message asks for, or reports.
#[derive(Clone, Copy, Debug, PartialEq, Eq, Structural)]
pub enum BLEOperation {
    Unknown,
    Read,
    WriteWithResponse,
    WriteNoResponse,
    EnableNotify,
    Notify,
    EnableIndicate,
    Indicate,
}

/// Kind of a Bluetooth device address.
#[derive(Clone, Copy, Debug, PartialEq, Eq, Structural)]
pub enum AddressType {
    Random,
    Public,
}

/// A GATT descriptor, identified by its own UUID and the UUIDs of the
/// service and characteristic it belongs to (each UUID as its 128-bit value).
#[derive(Clone, Copy, Debug, PartialEq, Eq, Structural)]
pub struct Descriptor {
    pub uuid: u128,
    pub service_uuid: u128,
    pub characteristic_uuid: u128,
}

/// A GATT characteristic. `properties` holds the characteristic property
/// bits (read = 0x02, write without response = 0x04, write = 0x08,
/// notify = 0x10, indicate = 0x20, ...). `descriptors` lists the
/// descriptors in the order given (ascending when they come from a set).
#[derive(Clone, Debug)]
pub struct Characteristic {
    pub uuid: u128,
    pub service_uuid: u128,
    pub properties: u8,
    pub descriptors: Vec<Descriptor>,
}

/// Mathematical value of a characteristic.
pub struct CharacteristicView {
    pub uuid: u128,
    pub service_uuid: u128,
    pub properties: u8,
    pub descriptors: Seq<Descriptor>,
}

impl View for Characteristic {
    type V = CharacteristicView;

    open spec fn view(&self) -> CharacteristicView {
        CharacteristicView {
            uuid: self.uuid,
            service_uuid: self.service_uuid,
            properties: self.properties,
            descriptors: self.descriptors@,
        }
    }
}

/// What the advertising reports say of a peripheral. The two maps of the
/// advertisement are held as lists of pairs, in the order in which they
/// were read.
#[derive(Clone, Debug)]
pub struct PeripheralProperties {
    pub address: [u8; 6],
    pub address_type: Option<AddressType>,
    pub local_name: Option<String>,
    pub tx_power_level: Option<i16>,
    pub rssi: Option<i16>,
    pub manufacturer_data: Vec<(u16, Vec<u8>)>,
    pub service_data: Vec<(u128, Vec<u8>)>,
    pub services: Vec<u128>,
    pub class: Option<u32>,
}

/// Mathematical value of peripheral properties.
pub struct PropertiesView {
    pub address: Seq<u8>,
    pub address_type: Option<AddressType>,
    pub local_name: Option<Seq<char>>,
    pub tx_power_level: Option<i16>,
    pub rssi: Option<i16>,
    pub manufacturer_data: Seq<(u16, Seq<u8>)>,
    pub service_data: Seq<(u128, Seq<u8>)>,
    pub services: Seq<u128>,
    pub class: Option<u32>,
}

pub open spec fn opt_string_view(s: Option<String>) -> Option<Seq<char>> {
    match s {
        Some(t) => Some(t@),
        None => None,
    }
}

pub open spec fn manufacturer_view(v: Seq<(u16, Vec<u8>)>) -> Seq<(u16, Seq<u8>)> {
    v.map_values(|p: (u16, Vec<u8>)| (p.0, p.1@))
}

pub open spec fn service_data_view(v: Seq<(u128, Vec<u8>)>) -> Seq<(u128, Seq<u8>)> {
    v.map_values(|p: (u128, Vec<u8>)| (p.0, p.1@))
}

impl View for PeripheralProperties {
    type V = PropertiesView;

    open spec fn view(&self) -> PropertiesView {
        PropertiesView {
            address: self.address@,
            address_type: self.address_type,
            local_name: opt_string_view(self.local_name),
            tx_power_level: self.tx_power_level,
            rssi: self.rssi,
            manufacturer_data: manufacturer_view(self.manufacturer_data@),
            service_data: service_data_view(self.service_data@),
            services: self.services@,
            class: self.class,
        }
    }
}

/// The properties of a peripheral of which nothing is known.
pub open spec fn empty_properties() -> PropertiesView {
    PropertiesView {
        address: seq![0u8, 0u8, 0u8, 0u8, 0u8, 0u8],
        address_type: None,
        local_name: None,
        tx_power_level: None,
        rssi: None,
        manufacturer_data: Seq::empty(),
        service_data: Seq::empty(),
        services: Seq::empty(),
        class: None,
    }
}

/// The view of a list of indexed peripheral properties.
pub open spec fn indexed_props_view(v: Seq<(usize, PeripheralProperties)>) -> Seq<(usize, PropertiesView)> {
    v.map_values(|p: (usize, PeripheralProperties)| (p.0, p.1@))
}

/// Lexicographic order of descriptors by (uuid, service uuid, characteristic uuid).
pub open spec fn descriptor_lt(a: Descriptor, b: Descriptor) -> bool {
    ||| a.uuid < b.uuid
    ||| a.uuid == b.uuid && a.service_uuid < b.service_uuid
    ||| a.uuid == b.uuid && a.service_uuid == b.service_uuid && a.characteristic_uuid
        < b.characteristic_uuid
}

/// Lexicographic order of descriptor lists (a proper prefix comes first).
pub open spec fn descriptors_lt(s: Seq<Descriptor>, t: Seq<Descriptor>) -> bool
    decreases s.len(),
{
    if s.len() == 0 {
        t.len() > 0
    } else if t.len() == 0 {
        false
    } else if s[0] == t[0] {
        descriptors_lt(s.drop_first(), t.drop_first())
    } else {
        descriptor_lt(s[0], t[0])
    }
}

/// Order of characteristics: by uuid, then service uuid, then property
/// bits, then descriptor list.
pub open spec fn characteristic_lt(a: CharacteristicView, b: CharacteristicView) -> bool {
    ||| a.uuid < b.uuid
    ||| a.uuid == b.uuid && a.service_uuid < b.service_uuid
    ||| a.uuid == b.uuid && a.service_uuid == b.service_uuid && a.properties < b.properties
    ||| a.uuid == b.uuid && a.service_uuid == b.service_uuid && a.properties == b.properties
        && descriptors_lt(a.descriptors, b.descriptors)
}

/// Every element comes strictly before every later one.
pub open spec fn strictly_sorted(s: Seq<CharacteristicView>) -> bool {
    forall|i: int, j: int|
        #![trigger s[i], s[j]]
        0 <= i < j < s.len() ==> characteristic_lt(s[i], s[j])
}

proof fn lemma_descriptors_lt_irreflexive(s: Seq<Descriptor>)
    ensures
        !descriptors_lt(s, s),
    decreases s.len(),
{
    if s.len() > 0 {
        lemma_descriptors_lt_irreflexive(s.drop_first());
    }
}

proof fn lemma_descriptors_lt_transitive(s: Seq<Descriptor>, t: Seq<Descriptor>, u: Seq<Descriptor>)
    requires
        descriptors_lt(s, t),
        descriptors_lt(t, u),
    ensures
        descriptors_lt(s, u),
    decreases s.len(),
{
    if s.len() > 0 && t.len() > 0 && u.len() > 0 {
        if s[0] == t[0] && t[0] == u[0] {
            lemma_descriptors_lt_transitive(s.drop_first(), t.drop_first(), u.drop_first());
        }
    }
}

proof fn lemma_descriptors_lt_total(s: Seq<Descriptor>, t: Seq<Descriptor>)
    requires
        s != t,
    ensures
        descriptors_lt(s, t) || descriptors_lt(t, s),
    decreases s.len(),
{
    if s.len() > 0 && t.len() > 0 && s[0] == t[0] {
        if s.drop_first() == t.drop_first() {
            assert(s =~= seq![s[0]] + s.drop_first());
            assert(t =~= seq![t[0]] + t.drop_first());
        }
        lemma_descriptors_lt_total(s.drop_first(), t.drop_first());
    } else if s.len() == 0 && t.len() == 0 {
        assert(s =~= t);
    }
}

/// The order of characteristics is a strict total order.
pub proof fn lemma_characteristic_order(
    a: CharacteristicView,
    b: CharacteristicView,
    c: CharacteristicView,
)
    ensures
        !characteristic_lt(a, a),
        characteristic_lt(a, b) && characteristic_lt(b, c) ==> characteristic_lt(a, c),
        a != b ==> characteristic_lt(a, b) || characteristic_lt(b, a),
{
    lemma_descriptors_lt_irreflexive(a.descriptors);
    if characteristic_lt(a, b) && characteristic_lt(b, c) && a.uuid == b.uuid && b.uuid == c.uuid
        && a.service_uuid == b.service_uuid && b.service_uuid == c.service_uuid && a.properties
        == b.properties && b.properties == c.properties {
        lemma_descriptors_lt_transitive(a.descriptors, b.descriptors, c.descriptors);
    }
    if a != b && a.uuid == b.uuid && a.service_uuid == b.service_uuid && a.properties
        == b.properties {
        lemma_descriptors_lt_total(a.descriptors, b.descriptors);
    }
}

/// Whether `a` comes strictly before `b` in the order of characteristics.
pub fn characteristic_less(a: &Characteristic, b: &Characteristic) -> (res: bool)
    ensures
        res == characteristic_lt(a@, b@),
{
    if a.uuid != b.uuid {
        return a.uuid < b.uuid;
    }
    if a.service_uuid != b.service_uuid {
        return a.service_uuid < b.service_uuid;
    }
    if a.properties != b.properties {
        return a.properties < b.properties;
    }
    descriptors_less(&a.descriptors, &b.descriptors)
}

fn descriptors_less(a: &Vec<Descriptor>, b: &Vec<Descriptor>) -> (res: bool)
    ensures
        res == descriptors_lt(a@, b@),
{
    let mut k: usize = 0;
    assert(a@.skip(0) =~= a@);
    assert(b@.skip(0) =~= b@);
    while k < a.len() && k < b.len() && a[k] == b[k]
        invariant
            k <= a.len(),
            k <= b.len(),
            descriptors_lt(a@, b@) == descriptors_lt(a@.skip(k as int), b@.skip(k as int)),
        decreases a.len() - k,
    {
        assert(a@.skip(k as int).drop_first() =~= a@.skip(k + 1));
        assert(b@.skip(k as int).drop_first() =~= b@.skip(k + 1));
        k = k + 1;
    }
    if k == a.len() {
        k < b.len()
    } else if k == b.len() {
        false
    } else {
        let x = a[k];
        let y = b[k];
        x.uuid < y.uuid || (x.uuid == y.uuid && (x.service_uuid < y.service_uuid || (
        x.service_uuid == y.service_uuid && x.characteristic_uuid < y.characteristic_uuid)))
    }
}

/// Whether two characteristics are equal.
pub fn characteristic_equal(a: &Characteristic, b: &Characteristic) -> (res: bool)
    ensures
        res == (a@ == b@),
{
    if a.uuid != b.uuid || a.service_uuid != b.service_uuid || a.properties != b.properties
        || a.descriptors.len() != b.descriptors.len() {
        return false;
    }
    let mut k: usize = 0;
    while k < a.descriptors.len()
        invariant
            k <= a.descriptors.len(),
            a.descriptors.len() == b.descriptors.len(),
            forall|i: int| 0 <= i < k ==> a.descriptors@[i] == b.descriptors@[i],
        decreases a.descriptors.len() - k,
    {
        if a.descriptors[k] != b.descriptors[k] {
            return false;
        }
        k = k + 1;
    }
    assert(a.descriptors@ =~= b.descriptors@);
    true
}

impl Characteristic {
    /// A copy of this characteristic.
    pub fn copy(&self) -> (res: Characteristic)
        ensures
            res@ == self@,
    {
        let mut descriptors: Vec<Descriptor> = Vec::new();
        let mut k: usize = 0;
        while k < self.descriptors.len()
            invariant
                k <= self.descriptors.len(),
                descriptors@ =~= self.descriptors@.take(k as int),
            decreases self.descriptors.len() - k,
        {
            descriptors.push(self.descriptors[k]);
            k = k + 1;
        }
        assert(self.descriptors@.take(k as int) =~= self.descriptors@);
        Characteristic {
            uuid: self.uuid,
            service_uuid: self.service_uuid,
            properties: self.properties,
            descriptors,
        }
    }
}

fn copy_bytes(v: &Vec<u8>) -> (res: Vec<u8>)
    ensures
        res@ == v@,
{
    let mut out: Vec<u8> = Vec::new();
    let mut k: usize = 0;
    while k < v.len()
        invariant
            k <= v.len(),
            out@ =~= v@.take(k as int),
        decreases v.len() - k,
    {
        out.push(v[k]);
        k = k + 1;
    }
    assert(v@.take(k as int) =~= v@);
    out
}

fn copy_opt_string(s: &Option<String>) -> (res: Option<String>)
    ensures
        opt_string_view(res) == opt_string_view(*s),
{
    match s {
        Some(t) => Some(t.clone()),
        None => None,
    }
}

impl PeripheralProperties {
    /// A copy of these properties.
    pub fn copy(&self) -> (res: PeripheralProperties)
        ensures
            res@ == self@,
    {
        let mut manufacturer_data: Vec<(u16, Vec<u8>)> = Vec::new();
        let mut k: usize = 0;
        while k < self.manufacturer_data.len()
            invariant
                k <= self.manufacturer_data.len(),
                manufacturer_data@.len() == k,
                manufacturer_view(manufacturer_data@) =~= manufacturer_view(
                    self.manufacturer_data@,
                ).take(k as int),
            decreases self.manufacturer_data.len() - k,
        {
            let entry = &self.manufacturer_data[k];
            let bytes = copy_bytes(&entry.1);
            manufacturer_data.push((entry.0, bytes));
            proof {
                let mv = manufacturer_view(manufacturer_data@);
                let sv = manufacturer_view(self.manufacturer_data@);
                assert(mv[k as int] == sv[k as int]);
                assert(mv =~= sv.take(k + 1));
            }
            k = k + 1;
        }
        let mut service_data: Vec<(u128, Vec<u8>)> = Vec::new();
        let mut j: usize = 0;
        while j < self.service_data.len()
            invariant
                j <= self.service_data.len(),
                service_data@.len() == j,
                service_data_view(service_data@) =~= service_data_view(self.service_data@).take(
                    j as int,
                ),
            decreases self.service_data.len() - j,
        {
            let entry = &self.service_data[j];
            let bytes = copy_bytes(&entry.1);
            service_data.push((entry.0, bytes));
            proof {
                let mv = service_data_view(service_data@);
                let sv = service_data_view(self.service_data@);
                assert(mv[j as int] == sv[j as int]);
                assert(mv =~= sv.take(j + 1));
            }
            j = j + 1;
        }
        let mut services: Vec<u128> = Vec::new();
        let mut i: usize = 0;
        while i < self.services.len()
            invariant
                i <= self.services.len(),
                services@ =~= self.services@.take(i as int),
            decreases self.services.len() - i,
        {
            services.push(self.services[i]);
            i = i + 1;
        }
        assert(manufacturer_view(self.manufacturer_data@).take(k as int) =~= manufacturer_view(
            self.manufacturer_data@,
        ));
        assert(service_data_view(self.service_data@).take(j as int) =~= service_data_view(
            self.service_data@,
        ));
        assert(self.services@.take(i as int) =~= self.services@);
        PeripheralProperties {
            address: self.address,
            address_type: self.address_type,
            local_name: copy_opt_string(&self.local_name),
            tx_power_level: self.tx_power_level,
            rssi: self.rssi,
            manufacturer_data,
            service_data,
            services,
            class: self.class,
        }
    }

    /// Properties with every field empty and the all-zero address, as
    /// `PeripheralProperties::default()` makes them.
    pub fn empty() -> (res: PeripheralProperties)
        ensures
            res@ == empty_properties(),
    {
        let res = PeripheralProperties {
            address: [0u8, 0u8, 0u8, 0u8, 0u8, 0u8],
            address_type: None,
            local_name: None,
            tx_power_level: None,
            rssi: None,
            manufacturer_data: Vec::new(),
            service_data: Vec::new(),
            services: Vec::new(),
            class: None,
        };
        assert(res@.address =~= seq![0u8, 0u8, 0u8, 0u8, 0u8, 0u8]);
        assert(res@.manufacturer_data =~= Seq::empty());
        assert(res@.service_data =~= Seq::empty());
        assert(res@.services =~= Seq::empty());
        res
    }
}

/// A copy of a list of indexed peripheral properties.
pub fn copy_indexed_props(v: &Vec<(usize, PeripheralProperties)>) -> (res: Vec<
    (usize, PeripheralProperties),
>)
    ensures
        indexed_props_view(res@) == indexed_props_view(v@),
{
    let mut out: Vec<(usize, PeripheralProperties)> = Vec::new();
    let mut k: usize = 0;
    while k < v.len()
        invariant
            k <= v.len(),
            out@.len() == k,
            indexed_props_view(out@) =~= indexed_props_view(v@).take(k as int),
        decreases v.len() - k,
    {
        let p = v[k].1.copy();
        out.push((v[k].0, p));
        proof {
            let ov = indexed_props_view(out@);
            let vv = indexed_props_view(v@);
            assert(ov[k as int] == vv[k as int]);
            assert(ov =~= vv.take(k + 1));
        }
        k = k + 1;
    }
    assert(indexed_props_view(v@).take(k as int) =~= indexed_props_view(v@));
    out
}

/// A set of characteristics, held in ascending order without repetition.
#[derive(Debug)]
pub struct CharacteristicSet {
    items: Vec<Characteristic>,
}

impl View for CharacteristicSet {
    type V = Seq<CharacteristicView>;

    closed spec fn view(&self) -> Seq<CharacteristicView> {
        self.items@.map_values(|c: Characteristic| c@)
    }
}

impl CharacteristicSet {
    #[verifier::type_invariant]
    closed spec fn ascending(&self) -> bool {
        strictly_sorted(self@)
    }

    /// The empty set.
    pub fn new() -> (res: CharacteristicSet)
        ensures
            res@ == Seq::<CharacteristicView>::empty(),
    {
        let res = CharacteristicSet { items: Vec::new() };
        assert(res@ =~= Seq::<CharacteristicView>::empty());
        res
    }

    /// Number of characteristics in the set; a set is always ascending,
    /// with each characteristic at most once.
    pub fn len(&self) -> (res: usize)
        ensures
            res == self@.len(),
            strictly_sorted(self@),
    {
        proof {
            use_type_invariant(self);
        }
        self.items.len()
    }

    /// The characteristic at position `i` in ascending order.
    pub fn get(&self, i: usize) -> (res: &Characteristic)
        requires
            i < self@.len(),
        ensures
            res@ == self@[i as int],
    {
        &self.items[i]
    }

    /// Adds `c`; returns whether it was not already there. The set stays
    /// ascending, and `c` lands at the one place where the order puts it.
    pub fn insert(&mut self, c: Characteristic) -> (res: bool)
        ensures
            res == !old(self)@.contains(c@),
            final(self)@.to_set() == old(self)@.to_set().insert(c@),
            strictly_sorted(final(self)@),
            res ==> final(self)@.len() == old(self)@.len() + 1,
            !res ==> final(self)@ == old(self)@,
    {
        proof {
            use_type_invariant(&*self);
        }
        let ghost old_view = self@;
        let mut i: usize = 0;
        while i < self.items.len() && characteristic_less(&self.items[i], &c)
            invariant
                i <= self.items.len(),
                self@ == old_view,
                strictly_sorted(old_view),
                forall|j: int| 0 <= j < i ==> characteristic_lt(#[trigger] old_view[j], c@),
            decreases self.items.len() - i,
        {
            i = i + 1;
        }
        if i < self.items.len() && characteristic_equal(&self.items[i], &c) {
            proof {
                assert(old_view.contains(c@)) by {
                    assert(old_view[i as int] == c@);
                }
                assert(old_view.to_set().insert(c@) =~= old_view.to_set());
            }
            return false;
        }
        proof {
            assert forall|j: int| 0 <= j < old_view.len() implies old_view[j] != c@ by {
                if j < i {
                    lemma_characteristic_order(old_view[j], c@, c@);
                } else {
                    lemma_characteristic_order(old_view[i as int], c@, c@);
                    lemma_characteristic_order(c@, old_view[i as int], c@);
                    if j > i {
                        lemma_characteristic_order(old_view[i as int], old_view[j], c@);
                        assert(characteristic_lt(old_view[i as int], old_view[j]));
                    }
                }
            }
        }
        let ghost new_view = old_view.insert(i as int, c@);
        let mut items: Vec<Characteristic> = Vec::new();
        std::mem::swap(&mut items, &mut self.items);
        items.insert(i, c);
        proof {
            assert(items@.map_values(|c: Characteristic| c@) =~= new_view);
            assert forall|a: int, b: int| 0 <= a < b < new_view.len() implies characteristic_lt(
                new_view[a],
                new_view[b],
            ) by {
                if b < i {
                } else if a < i && b == i {
                } else if a < i {
                    lemma_characteristic_order(old_view[a], c@, old_view[b - 1]);
                    lemma_characteristic_order(old_view[i as int], c@, c@);
                    lemma_characteristic_order(c@, old_view[i as int], c@);
                    lemma_characteristic_order(old_view[a], old_view[i as int], old_view[b - 1]);
                    if b - 1 > i {
                        assert(characteristic_lt(old_view[i as int], old_view[b - 1]));
                    }
                    assert(characteristic_lt(old_view[a], old_view[b - 1]));
                } else if a == i {
                    lemma_characteristic_order(old_view[i as int], c@, c@);
                    lemma_characteristic_order(c@, old_view[i as int], c@);
                    lemma_characteristic_order(c@, old_view[i as int], old_view[b - 1]);
                    if b - 1 > i {
                        assert(characteristic_lt(old_view[i as int], old_view[b - 1]));
                    }
                } else {
                    assert(characteristic_lt(old_view[a - 1], old_view[b - 1]));
                }
            }
            assert(!old_view.contains(c@));
            assert(new_view.to_set() =~= old_view.to_set().insert(c@)) by {
                assert forall|x: CharacteristicView| new_view.to_set().contains(x) implies old_view.to_set().insert(c@).contains(x) by {
                    let k = choose|k: int| 0 <= k < new_view.len() && new_view[k] == x;
                    if k < i {
                        assert(old_view[k] == x);
                    } else if k > i {
                        assert(old_view[k - 1] == x);
                    }
                }
                assert forall|x: CharacteristicView| old_view.to_set().insert(c@).contains(x) implies new_view.to_set().contains(x) by {
                    if x == c@ {
                        assert(new_view[i as int] == x);
                    } else {
                        let k = choose|k: int| 0 <= k < old_view.len() && old_view[k] == x;
                        if k < i {
                            assert(new_view[k] == x);
                        } else {
                            assert(new_view[k + 1] == x);
                        }
                    }
                }
            }
        }
        self.items = items;
        true
    }
}

/// A message between the GUI and the BLE transport. Scan durations are
/// given in milliseconds.
#[derive(Debug)]
pub enum AsyncMsg {
    Error(String),
    MsgVersion { major: i32, minor: i32, patch: i32 },
    ScanStart { filter: String, duration_ms: u32 },
    ScanResult { result: GenericResult, props_vec: Vec<(usize, PeripheralProperties)> },
    ConnectStart { index: usize, props: PeripheralProperties },
    ConnectResult { result: GenericResult, index: usize, props: PeripheralProperties },
    Characteristics { chars: CharacteristicSet },
    DisconnectStart { index: usize, props: PeripheralProperties },
    DisconnectResult { result: GenericResult, index: usize, props: PeripheralProperties },
    Payload { payload: Vec<u8>, char: Characteristic, op: BLEOperation },
    PayloadUuid { payload: Vec<u8>, uuid: u128, op: BLEOperation },
}

/// Mathematical value of a message.
pub enum MsgView {
    Error(Seq<char>),
    MsgVersion { major: i32, minor: i32, patch: i32 },
    ScanStart { filter: Seq<char>, duration_ms: u32 },
    ScanResult { result: GenericResult, props_vec: Seq<(usize, PropertiesView)> },
    ConnectStart { index: usize, props: PropertiesView },
    ConnectResult { result: GenericResult, index: usize, props: PropertiesView },
    Characteristics { chars: Seq<CharacteristicView> },
    DisconnectStart { index: usize, props: PropertiesView },
    DisconnectResult { result: GenericResult, index: usize, props: PropertiesView },
    Payload { payload: Seq<u8>, char: CharacteristicView, op: BLEOperation },
    PayloadUuid { payload: Seq<u8>, uuid: u128, op: BLEOperation },
}

impl View for AsyncMsg {
    type V = MsgView;

    open spec fn view(&self) -> MsgView {
        match self {
            AsyncMsg::Error(s) => MsgView::Error(s@),
            AsyncMsg::MsgVersion { major, minor, patch } => MsgView::MsgVersion {
                major: *major,
                minor: *minor,
                patch: *patch,
            },
            AsyncMsg::ScanStart { filter, duration_ms } => MsgView::ScanStart {
                filter: filter@,
                duration_ms: *duration_ms,
            },
            AsyncMsg::ScanResult { result, props_vec } => MsgView::ScanResult {
                result: *result,
                props_vec: indexed_props_view(props_vec@),
            },
            AsyncMsg::ConnectStart { index, props } => MsgView::ConnectStart {
                index: *index,
                props: props@,
            },
            AsyncMsg::ConnectResult { result, index, props } => MsgView::ConnectResult {
                result: *result,
                index: *index,
                props: props@,
            },
            AsyncMsg::Characteristics { chars } => MsgView::Characteristics { chars: chars@ },
            AsyncMsg::DisconnectStart { index, props } => MsgView::DisconnectStart {
                index: *index,
                props: props@,
            },
            AsyncMsg::DisconnectResult { result, index, props } => MsgView::DisconnectResult {
                result: *result,
                index: *index,
                props: props@,
            },
            AsyncMsg::Payload { payload, char, op } => MsgView::Payload {
                payload: payload@,
                char: char@,
                op: *op,
            },
            AsyncMsg::PayloadUuid { payload, uuid, op } => MsgView::PayloadUuid {
                payload: payload@,
                uuid: *uuid,
                op: *op,
            },
        }
    }
}

} // verus!
