//! One discovered device: its merged advertisement state, connection state,
//! characteristic cache and notification fan-out.
use crate::advertisement::{
    bytes_view, decode_manufacturer_data, decode_service_data, entries_map, entries_view,
    section_is_well_formed, section_well_formed, sections_view, service_data_map, DataSection, ManufacturerEntry,
};
use dashmap::DashMap;
use std::collections::HashMap;
use tokio::sync::broadcast;
use vstd::prelude::*;

verus! {

broadcast use vstd::std_specs::hash::group_hash_axioms;

/// Capacity of a peripheral's notification broadcast channel.
pub const NOTIFICATION_CAPACITY: usize = 16;

/// A device's 48-bit hardware address, held in the low bits of an integer.
#[derive(Clone, Copy, PartialEq, Eq, Structural, Hash, Debug)]
pub struct BDAddr {
    pub address: u64,
}

#[derive(Clone, Copy, PartialEq, Eq, Structural, Debug)]
pub enum AddressType {
    Public,
    Random,
}

/// A GATT characteristic: its UUID and its property flags
/// (read, write, notify, indicate support, one bit each).
#[derive(Clone, Copy, PartialEq, Eq, Structural, Debug)]
pub struct Characteristic {
    pub uuid: u128,
    pub properties: u8,
}

#[derive(Clone, Copy, PartialEq, Eq, Structural, Debug)]
pub enum WriteType {
    WithResponse,
    WithoutResponse,
}

/// The GATT operation that was attempted.
#[derive(Clone, Copy, PartialEq, Eq, Structural, Debug)]
pub enum Operation {
    Read,
    Write,
    Subscribe,
    Unsubscribe,
}

#[derive(Clone, Copy, PartialEq, Eq, Structural, Debug)]
pub enum Error {
    /// The operation needs a connection and none is held.
    NotConnected,
    /// The operation was attempted on a characteristic that was never discovered.
    NotSupported(Operation),
}

/// A value received from a subscribed characteristic.
#[derive(Clone, Debug)]
pub struct ValueNotification {
    pub uuid: u128,
    pub value: Vec<u8>,
}

/// A transport operation that a peripheral has cleared to run against a
/// cached characteristic.
#[derive(Clone, Debug)]
pub enum GattRequest {
    Read(Characteristic),
    Write { characteristic: Characteristic, data: Vec<u8>, write_type: WriteType },
    Subscribe(Characteristic),
    Unsubscribe(Characteristic),
}

/// An event about a device, delivered to the adapter's consumers.
#[derive(Clone, Debug)]
pub enum CentralEvent {
    DeviceDiscovered(BDAddr),
    DeviceUpdated(BDAddr),
    DeviceConnected(BDAddr),
    DeviceDisconnected(BDAddr),
    DeviceLost(BDAddr),
    ManufacturerDataAdvertisement { address: BDAddr, manufacturer_data: HashMap<u16, Vec<u8>> },
    ServiceDataAdvertisement { address: BDAddr, service_data: HashMap<u128, Vec<u8>> },
    ServicesAdvertisement { address: BDAddr, services: Vec<u128> },
}

pub enum EventView {
    DeviceDiscovered(BDAddr),
    DeviceUpdated(BDAddr),
    DeviceConnected(BDAddr),
    DeviceDisconnected(BDAddr),
    DeviceLost(BDAddr),
    ManufacturerDataAdvertisement(BDAddr, Map<u16, Seq<u8>>),
    ServiceDataAdvertisement(BDAddr, Map<u128, Seq<u8>>),
    ServicesAdvertisement(BDAddr, Set<u128>),
}

/// The set of the elements of a sequence.
pub open spec fn seq_set(s: Seq<u128>) -> Set<u128> {
    Set::new(|x: u128| s.contains(x))
}

impl View for CentralEvent {
    type V = EventView;

    open spec fn view(&self) -> EventView {
        match self {
            CentralEvent::DeviceDiscovered(a) => EventView::DeviceDiscovered(*a),
            CentralEvent::DeviceUpdated(a) => EventView::DeviceUpdated(*a),
            CentralEvent::DeviceConnected(a) => EventView::DeviceConnected(*a),
            CentralEvent::DeviceDisconnected(a) => EventView::DeviceDisconnected(*a),
            CentralEvent::DeviceLost(a) => EventView::DeviceLost(*a),
            CentralEvent::ManufacturerDataAdvertisement { address, manufacturer_data } =>
                EventView::ManufacturerDataAdvertisement(*address, bytes_view(manufacturer_data@)),
            CentralEvent::ServiceDataAdvertisement { address, service_data } =>
                EventView::ServiceDataAdvertisement(*address, bytes_view(service_data@)),
            CentralEvent::ServicesAdvertisement { address, services } =>
                EventView::ServicesAdvertisement(*address, seq_set(services@)),
        }
    }
}

impl CentralEvent {
    /// A copy of the event with the same contents.
    pub fn duplicate(&self) -> (r: CentralEvent)
        ensures
            r@ == self@,
    {
        match self {
            CentralEvent::DeviceDiscovered(a) => CentralEvent::DeviceDiscovered(*a),
            CentralEvent::DeviceUpdated(a) => CentralEvent::DeviceUpdated(*a),
            CentralEvent::DeviceConnected(a) => CentralEvent::DeviceConnected(*a),
            CentralEvent::DeviceDisconnected(a) => CentralEvent::DeviceDisconnected(*a),
            CentralEvent::DeviceLost(a) => CentralEvent::DeviceLost(*a),
            CentralEvent::ManufacturerDataAdvertisement { address, manufacturer_data } =>
                CentralEvent::ManufacturerDataAdvertisement {
                address: *address,
                manufacturer_data: manufacturer_data.clone(),
            },
            CentralEvent::ServiceDataAdvertisement { address, service_data } =>
                CentralEvent::ServiceDataAdvertisement {
                address: *address,
                service_data: service_data.clone(),
            },
            CentralEvent::ServicesAdvertisement { address, services } => {
                let copy = services.clone();
                assert(copy@ =~= services@);
                CentralEvent::ServicesAdvertisement { address: *address, services: copy }
            },
        }
    }
}

pub open spec fn events_view(v: Seq<CentralEvent>) -> Seq<EventView> {
    v.map_values(|e: CentralEvent| e@)
}

/// The accumulated advertised state of a device.
#[derive(Clone, Debug)]
pub struct PeripheralProperties {
    pub address: BDAddr,
    pub address_type: Option<AddressType>,
    pub local_name: Option<String>,
    pub tx_power_level: Option<i8>,
    pub rssi: Option<i16>,
    pub manufacturer_data: HashMap<u16, Vec<u8>>,
    pub service_data: HashMap<u128, Vec<u8>>,
    pub services: Vec<u128>,
    pub discovery_count: u64,
}

pub struct PropertiesView {
    pub address: BDAddr,
    pub address_type: Option<AddressType>,
    pub local_name: Option<Seq<char>>,
    pub tx_power_level: Option<i8>,
    pub rssi: Option<i16>,
    pub manufacturer_data: Map<u16, Seq<u8>>,
    pub service_data: Map<u128, Seq<u8>>,
    pub services: Set<u128>,
    pub discovery_count: nat,
}

pub open spec fn option_string_view(s: Option<String>) -> Option<Seq<char>> {
    match s {
        Some(x) => Some(x@),
        None => None,
    }
}

impl View for PeripheralProperties {
    type V = PropertiesView;

    open spec fn view(&self) -> PropertiesView {
        PropertiesView {
            address: self.address,
            address_type: self.address_type,
            local_name: option_string_view(self.local_name),
            tx_power_level: self.tx_power_level,
            rssi: self.rssi,
            manufacturer_data: bytes_view(self.manufacturer_data@),
            service_data: bytes_view(self.service_data@),
            services: seq_set(self.services@),
            discovery_count: self.discovery_count as nat,
        }
    }
}

/// The properties of a device before any report: nothing known, nothing counted.
pub open spec fn initial_properties(address: BDAddr) -> PropertiesView {
    PropertiesView {
        address,
        address_type: None,
        local_name: None,
        tx_power_level: None,
        rssi: None,
        manufacturer_data: Map::empty(),
        service_data: Map::empty(),
        services: Set::empty(),
        discovery_count: 0,
    }
}

/// One advertisement report as the platform transport hands it over; a
/// field is `None` when the report did not carry that category.
pub struct AdvertisementReport {
    pub local_name: Option<String>,
    pub manufacturer_data: Option<Vec<ManufacturerEntry>>,
    pub data_sections: Option<Vec<DataSection>>,
    pub service_uuids: Option<Vec<u128>>,
    pub tx_power_level: Option<i8>,
    pub rssi: Option<i16>,
}

pub struct ReportView {
    pub local_name: Option<Seq<char>>,
    pub manufacturer_data: Option<Seq<(u16, Seq<u8>)>>,
    pub data_sections: Option<Seq<(u8, Seq<u8>)>>,
    pub services: Option<Seq<u128>>,
    pub tx_power_level: Option<i8>,
    pub rssi: Option<i16>,
}

impl View for AdvertisementReport {
    type V = ReportView;

    open spec fn view(&self) -> ReportView {
        ReportView {
            local_name: option_string_view(self.local_name),
            manufacturer_data: match self.manufacturer_data {
                Some(v) => Some(entries_view(v@)),
                None => None,
            },
            data_sections: match self.data_sections {
                Some(v) => Some(sections_view(v@)),
                None => None,
            },
            services: match self.service_uuids {
                Some(v) => Some(v@),
                None => None,
            },
            tx_power_level: self.tx_power_level,
            rssi: self.rssi,
        }
    }
}

/// Every data section of the report is at least as long as its UUID prefix.
pub open spec fn report_well_formed(r: ReportView) -> bool {
    match r.data_sections {
        Some(s) => forall|i: int| 0 <= i < s.len() ==> section_well_formed(#[trigger] s[i]),
        None => true,
    }
}

/// The properties after merging one report: the count goes up by one (it
/// stops at the largest `u64`), a non-empty name replaces the old one, the
/// manufacturer and service data are replaced whole when the report carries
/// them, the services gain the report's UUIDs, and the signal readings are
/// replaced when present. What the report does not carry is kept.
pub open spec fn apply_report(p: PropertiesView, r: ReportView) -> PropertiesView {
    PropertiesView {
        address: p.address,
        address_type: p.address_type,
        local_name: match r.local_name {
            Some(n) => if n.len() > 0 { Some(n) } else { p.local_name },
            None => p.local_name,
        },
        tx_power_level: match r.tx_power_level {
            Some(t) => Some(t),
            None => p.tx_power_level,
        },
        rssi: match r.rssi {
            Some(x) => Some(x),
            None => p.rssi,
        },
        manufacturer_data: match r.manufacturer_data {
            Some(m) => entries_map(m),
            None => p.manufacturer_data,
        },
        service_data: match r.data_sections {
            Some(s) => service_data_map(s),
            None => p.service_data,
        },
        services: match r.services {
            Some(s) => p.services.union(seq_set(s)),
            None => p.services,
        },
        discovery_count: if p.discovery_count < u64::MAX {
            p.discovery_count + 1
        } else {
            p.discovery_count
        },
    }
}

/// The events that merging report `r` into `p` announces, in order: the new
/// manufacturer data and the new service data when the report carries them,
/// and the accumulated services when the report names a UUID not yet known.
pub open spec fn report_events(p: PropertiesView, r: ReportView) -> Seq<EventView> {
    let q = apply_report(p, r);
    let e1 = if r.manufacturer_data is Some {
        seq![EventView::ManufacturerDataAdvertisement(p.address, q.manufacturer_data)]
    } else {
        Seq::empty()
    };
    let e2 = if r.data_sections is Some {
        seq![EventView::ServiceDataAdvertisement(p.address, q.service_data)]
    } else {
        Seq::empty()
    };
    let e3 = match r.services {
        Some(s) => if seq_set(s).subset_of(p.services) {
            Seq::empty()
        } else {
            seq![EventView::ServicesAdvertisement(p.address, q.services)]
        },
        None => Seq::empty(),
    };
    e1 + e2 + e3
}

/// An event that carries advertised data.
pub open spec fn is_advertisement(e: EventView) -> bool {
    ||| e is ManufacturerDataAdvertisement
    ||| e is ServiceDataAdvertisement
    ||| e is ServicesAdvertisement
}

/// Every event that merging a report announces carries advertised data.
pub proof fn lemma_report_events_are_advertisements(p: PropertiesView, r: ReportView)
    ensures
        forall|j: int|
            0 <= j < report_events(p, r).len() ==> is_advertisement(
                #[trigger] report_events(p, r)[j],
            ),
{
    let q = apply_report(p, r);
    let e1: Seq<EventView> = if r.manufacturer_data is Some {
        seq![EventView::ManufacturerDataAdvertisement(p.address, q.manufacturer_data)]
    } else {
        Seq::empty()
    };
    let e2: Seq<EventView> = if r.data_sections is Some {
        seq![EventView::ServiceDataAdvertisement(p.address, q.service_data)]
    } else {
        Seq::empty()
    };
    let e3: Seq<EventView> = match r.services {
        Some(s) => if seq_set(s).subset_of(p.services) {
            Seq::empty()
        } else {
            seq![EventView::ServicesAdvertisement(p.address, q.services)]
        },
        None => Seq::empty(),
    };
    assert(report_events(p, r) == e1 + e2 + e3);
    assert forall|j: int| 0 <= j < report_events(p, r).len() implies is_advertisement(
        #[trigger] report_events(p, r)[j],
    ) by {
        let e = report_events(p, r)[j];
        if j < e1.len() {
            assert(e == e1[j]);
        } else if j < e1.len() + e2.len() {
            assert(e == e2[j - e1.len()]);
        } else {
            assert(e == e3[j - e1.len() - e2.len()]);
        }
    }
}

/// Appending an element adds it to the set of elements.
pub proof fn lemma_seq_set_push(s: Seq<u128>, x: u128)
    ensures
        seq_set(s.push(x)) == seq_set(s).insert(x),
{
    assert forall|y: u128| #[trigger] seq_set(s.push(x)).contains(y) == seq_set(s).insert(x).contains(y) by {
        if s.push(x).contains(y) {
            let k = choose|k: int| 0 <= k < s.push(x).len() && s.push(x)[k] == y;
            if k < s.len() {
                assert(s[k] == y);
            }
        }
        if s.contains(y) {
            let k = choose|k: int| 0 <= k < s.len() && s[k] == y;
            assert(s.push(x)[k] == y);
        }
        if y == x {
            assert(s.push(x)[s.len() as int] == y);
        }
    }
    assert(seq_set(s.push(x)) =~= seq_set(s).insert(x));
}

/// Whether every data section of the report is at least as long as its
/// UUID prefix, as `update_properties` requires.
pub fn report_is_well_formed(report: &AdvertisementReport) -> (r: bool)
    ensures
        r == report_well_formed(report@),
{
    match &report.data_sections {
        Some(sections) => {
            let mut i: usize = 0;
            while i < sections.len()
                invariant
                    i <= sections@.len(),
                    report@.data_sections == Some(sections_view(sections@)),
                    forall|j: int| 0 <= j < i ==> section_well_formed(#[trigger] sections@[j]@),
                decreases sections@.len() - i,
            {
                if !section_is_well_formed(&sections[i]) {
                    assert(sections_view(sections@)[i as int] == sections@[i as int]@);
                    assert(sections_view(sections@).len() == sections@.len());
                    assert(!section_well_formed(sections_view(sections@)[i as int]));
                    assert(!section_well_formed(report@.data_sections->Some_0[i as int]));
                    return false;
                }
                i = i + 1;
            }
            assert forall|j: int| 0 <= j < sections@.len() implies section_well_formed(
                #[trigger] sections_view(sections@)[j],
            ) by {
                assert(sections_view(sections@)[j] == sections@[j]@);
            }
            true
        },
        None => true,
    }
}

fn contains_uuid(v: &Vec<u128>, x: u128) -> (r: bool)
    ensures
        r == v@.contains(x),
{
    let mut i: usize = 0;
    while i < v.len()
        invariant
            i <= v@.len(),
            forall|j: int| 0 <= j < i ==> v@[j] != x,
        decreases v@.len() - i,
    {
        if v[i] == x {
            return true;
        }
        i = i + 1;
    }
    false
}

/// Whether every UUID of `incoming` is already in `known`.
fn all_known(incoming: &Vec<u128>, known: &Vec<u128>) -> (r: bool)
    ensures
        r == seq_set(incoming@).subset_of(seq_set(known@)),
{
    let mut i: usize = 0;
    while i < incoming.len()
        invariant
            i <= incoming@.len(),
            forall|j: int| 0 <= j < i ==> known@.contains(#[trigger] incoming@[j]),
        decreases incoming@.len() - i,
    {
        if !contains_uuid(known, incoming[i]) {
            assert(seq_set(incoming@).contains(incoming@[i as int]));
            return false;
        }
        i = i + 1;
    }
    true
}

/// Adds to `known` each UUID of `incoming` that it lacks.
fn merge_services(known: &mut Vec<u128>, incoming: &Vec<u128>)
    ensures
        seq_set(final(known)@) == seq_set(old(known)@).union(seq_set(incoming@)),
{
    let ghost start = known@;
    let mut i: usize = 0;
    while i < incoming.len()
        invariant
            i <= incoming@.len(),
            seq_set(known@) == seq_set(start).union(seq_set(incoming@.take(i as int))),
        decreases incoming@.len() - i,
    {
        let x = incoming[i];
        let ghost before = known@;
        if !contains_uuid(known, x) {
            known.push(x);
            proof {
                lemma_seq_set_push(before, x);
            }
        }
        assert(incoming@.take(i + 1) =~= incoming@.take(i as int).push(x));
        proof {
            lemma_seq_set_push(incoming@.take(i as int), x);
        }
        assert(seq_set(known@) =~= seq_set(start).union(seq_set(incoming@.take(i + 1))));
        i = i + 1;
    }
    assert(incoming@.take(incoming@.len() as int) =~= incoming@);
}

impl PeripheralProperties {
    /// The properties of a device before any report.
    pub fn new(address: BDAddr) -> (r: PeripheralProperties)
        ensures
            r@ == initial_properties(address),
    {
        let r = PeripheralProperties {
            address,
            address_type: None,
            local_name: None,
            tx_power_level: None,
            rssi: None,
            manufacturer_data: HashMap::new(),
            service_data: HashMap::new(),
            services: Vec::new(),
            discovery_count: 0,
        };
        assert(bytes_view(r.manufacturer_data@) =~= Map::empty());
        assert(bytes_view(r.service_data@) =~= Map::empty());
        assert(seq_set(r.services@) =~= Set::empty());
        r
    }

    /// A copy of these properties, field by field.
    pub fn snapshot(&self) -> (r: PeripheralProperties)
        ensures
            r@ == self@,
    {
        let local_name = match &self.local_name {
            Some(n) => Some(n.clone()),
            None => None,
        };
        let services = self.services.clone();
        assert(services@ =~= self.services@);
        PeripheralProperties {
            address: self.address,
            address_type: self.address_type,
            local_name,
            tx_power_level: self.tx_power_level,
            rssi: self.rssi,
            manufacturer_data: self.manufacturer_data.clone(),
            service_data: self.service_data.clone(),
            services,
            discovery_count: self.discovery_count,
        }
    }
}

/// What a peripheral's characteristic cache holds, by UUID.
pub uninterp spec fn characteristic_table(m: DashMap<u128, Characteristic>) -> Map<
    u128,
    Characteristic,
>;

/// Relies on dashmap::DashMap::new: a new map is empty.
#[verifier::external_body]
fn new_characteristic_table() -> (r: DashMap<u128, Characteristic>)
    ensures
        characteristic_table(r).dom() == Set::<u128>::empty(),
{
    DashMap::new()
}

/// Relies on dashmap::DashMap::get: the value stored under the key, if any.
#[verifier::external_body]
fn lookup_characteristic(m: &DashMap<u128, Characteristic>, uuid: u128) -> (r: Option<
    Characteristic,
>)
    ensures
        r == (if characteristic_table(*m).contains_key(uuid) {
            Some(characteristic_table(*m)[uuid])
        } else {
            None
        }),
{
    m.get(&uuid).map(|e| *e.value())
}

/// Relies on dashmap::DashMap::entry with Entry::or_insert: an absent key
/// gets the value, a present key keeps the value it has.
#[verifier::external_body]
fn insert_characteristic_if_absent(m: &mut DashMap<u128, Characteristic>, c: Characteristic)
    ensures
        characteristic_table(*final(m)) == (if characteristic_table(*old(m)).contains_key(c.uuid) {
            characteristic_table(*old(m))
        } else {
            characteristic_table(*old(m)).insert(c.uuid, c)
        }),
{
    m.entry(c.uuid).or_insert(c);
}

/// Relies on dashmap::DashMap::iter: each entry is visited once.
#[verifier::external_body]
fn list_characteristics(m: &DashMap<u128, Characteristic>) -> (r: Vec<Characteristic>)
    ensures
        r@.len() == characteristic_table(*m).len(),
        forall|i: int|
            0 <= i < r@.len() ==> exists|k: u128|
                characteristic_table(*m).contains_key(k) && characteristic_table(*m)[k]
                    == #[trigger] r@[i],
        forall|k: u128|
            characteristic_table(*m).contains_key(k) ==> exists|i: int|
                0 <= i < r@.len() && #[trigger] r@[i] == characteristic_table(*m)[k],
{
    m.iter().map(|e| *e.value()).collect()
}

/// The values handed to a notification sender so far, in order, as
/// (characteristic UUID, value) pairs.
pub uninterp spec fn published(tx: broadcast::Sender<ValueNotification>) -> Seq<(u128, Seq<u8>)>;

/// Relies on tokio::sync::broadcast::channel, which panics on a capacity of
/// zero or above `usize::MAX / 2`; the new sender has been handed nothing.
#[verifier::external_body]
fn broadcast_channel(capacity: usize) -> (r: (
    broadcast::Sender<ValueNotification>,
    broadcast::Receiver<ValueNotification>,
))
    requires
        0 < capacity <= usize::MAX / 2,
    ensures
        published(r.0) == Seq::<(u128, Seq<u8>)>::empty(),
{
    broadcast::channel(capacity)
}

/// Relies on tokio::sync::broadcast::Sender::send: the value goes to every
/// receiver attached; with none attached it is dropped.
#[verifier::external_body]
fn broadcast_send(tx: &mut broadcast::Sender<ValueNotification>, value: ValueNotification)
    ensures
        published(*final(tx)) == published(*old(tx)).push((value.uuid, value.value@)),
{
    let _ = tx.send(value);
}

/// Relies on tokio::sync::broadcast::Sender::subscribe: a receiver of the
/// values sent from now on.
#[verifier::external_body]
fn broadcast_subscribe(tx: &broadcast::Sender<ValueNotification>) -> (r: broadcast::Receiver<
    ValueNotification,
>) {
    tx.subscribe()
}

/// The characteristic cache after discovering `found` in order: a UUID
/// already cached keeps its first entry.
pub open spec fn cache_after(m: Map<u128, Characteristic>, found: Seq<Characteristic>) -> Map<
    u128,
    Characteristic,
>
    decreases found.len(),
{
    if found.len() == 0 {
        m
    } else {
        let prev = cache_after(m, found.drop_last());
        if prev.contains_key(found.last().uuid) {
            prev
        } else {
            prev.insert(found.last().uuid, found.last())
        }
    }
}

/// The events of an optional event: none or one.
pub open spec fn optional_events(e: Option<CentralEvent>) -> Seq<EventView> {
    match e {
        Some(x) => seq![x@],
        None => Seq::empty(),
    }
}

fn push_some(events: &mut Vec<CentralEvent>, e: Option<CentralEvent>)
    ensures
        events_view(final(events)@) == events_view(old(events)@) + optional_events(e),
{
    match e {
        Some(x) => {
            events.push(x);
        },
        None => {},
    }
    assert(events_view(events@) =~= events_view(old(events)@) + optional_events(e));
}

impl PeripheralProperties {
    /// Replaces the manufacturer data with the report's, when it has some.
    fn merge_manufacturer_data(&mut self, report: &AdvertisementReport) -> (e: Option<CentralEvent>)
        ensures
            final(self)@ == (PropertiesView {
                manufacturer_data: match report@.manufacturer_data {
                    Some(m) => entries_map(m),
                    None => old(self)@.manufacturer_data,
                },
                ..old(self)@
            }),
            optional_events(e) == (if report@.manufacturer_data is Some {
                seq![EventView::ManufacturerDataAdvertisement(final(self).address, final(self)@.manufacturer_data)]
            } else {
                Seq::empty()
            }),
    {
        match &report.manufacturer_data {
            Some(entries) => {
                self.manufacturer_data = decode_manufacturer_data(entries);
                Some(
                    CentralEvent::ManufacturerDataAdvertisement {
                        address: self.address,
                        manufacturer_data: self.manufacturer_data.clone(),
                    },
                )
            },
            None => None,
        }
    }

    /// Replaces the service data with the report's decoded sections, when it
    /// has any.
    fn merge_service_data(&mut self, report: &AdvertisementReport) -> (e: Option<CentralEvent>)
        requires
            report_well_formed(report@),
        ensures
            final(self)@ == (PropertiesView {
                service_data: match report@.data_sections {
                    Some(s) => service_data_map(s),
                    None => old(self)@.service_data,
                },
                ..old(self)@
            }),
            optional_events(e) == (if report@.data_sections is Some {
                seq![EventView::ServiceDataAdvertisement(final(self).address, final(self)@.service_data)]
            } else {
                Seq::empty()
            }),
    {
        match &report.data_sections {
            Some(sections) => {
                assert forall|i: int| 0 <= i < sections@.len() implies section_well_formed(
                    #[trigger] sections@[i]@,
                ) by {
                    assert(sections_view(sections@)[i] == sections@[i]@);
                }
                self.service_data = decode_service_data(sections);
                Some(
                    CentralEvent::ServiceDataAdvertisement {
                        address: self.address,
                        service_data: self.service_data.clone(),
                    },
                )
            },
            None => None,
        }
    }

    /// Adds the report's service UUIDs; only when one of them is new is
    /// the list written and announced.
    fn merge_services(&mut self, report: &AdvertisementReport) -> (e: Option<CentralEvent>)
        ensures
            final(self)@ == (PropertiesView {
                services: match report@.services {
                    Some(s) => old(self)@.services.union(seq_set(s)),
                    None => old(self)@.services,
                },
                ..old(self)@
            }),
            optional_events(e) == (match report@.services {
                Some(s) => if seq_set(s).subset_of(old(self)@.services) {
                    Seq::empty()
                } else {
                    seq![EventView::ServicesAdvertisement(final(self).address, final(self)@.services)]
                },
                None => Seq::empty(),
            }),
    {
        match &report.service_uuids {
            Some(uuids) => {
                if !all_known(uuids, &self.services) {
                    merge_services(&mut self.services, uuids);
                    let services = self.services.clone();
                    assert(services@ =~= self.services@);
                    Some(CentralEvent::ServicesAdvertisement { address: self.address, services })
                } else {
                    assert(seq_set(self.services@).union(seq_set(uuids@)) =~= seq_set(
                        self.services@,
                    ));
                    None
                }
            },
            None => None,
        }
    }
}

/// The properties after merging the reports `rs` in order.
pub open spec fn apply_reports(p: PropertiesView, rs: Seq<ReportView>) -> PropertiesView
    decreases rs.len(),
{
    if rs.len() == 0 {
        p
    } else {
        apply_report(apply_reports(p, rs.drop_last()), rs.last())
    }
}

/// Every service UUID that some report of `rs` lists.
pub open spec fn advertised_services(rs: Seq<ReportView>) -> Set<u128>
    decreases rs.len(),
{
    if rs.len() == 0 {
        Set::empty()
    } else {
        let prev = advertised_services(rs.drop_last());
        match rs.last().services {
            Some(s) => prev.union(seq_set(s)),
            None => prev,
        }
    }
}

/// After any sequence of reports from one device, its services are exactly
/// the union of every service list those reports carried.
pub proof fn lemma_services_are_union(address: BDAddr, rs: Seq<ReportView>)
    ensures
        apply_reports(initial_properties(address), rs).services == advertised_services(rs),
    decreases rs.len(),
{
    if rs.len() > 0 {
        lemma_services_are_union(address, rs.drop_last());
    }
}

/// Whether a report lists the service `x`.
pub open spec fn lists_service(r: ReportView, x: u128) -> bool {
    match r.services {
        Some(s) => s.contains(x),
        None => false,
    }
}

/// A service is advertised by a list of reports exactly when one of them
/// lists it.
pub proof fn lemma_advertised_services_members(rs: Seq<ReportView>, x: u128)
    ensures
        advertised_services(rs).contains(x) <==> exists|i: int|
            0 <= i < rs.len() && lists_service(#[trigger] rs[i], x),
    decreases rs.len(),
{
    if rs.len() > 0 {
        let init = rs.drop_last();
        lemma_advertised_services_members(init, x);
        if advertised_services(rs).contains(x) {
            if advertised_services(init).contains(x) {
                let i = choose|i: int| 0 <= i < init.len() && lists_service(#[trigger] init[i], x);
                assert(rs[i] == init[i]);
            } else {
                assert(lists_service(rs[rs.len() - 1], x));
            }
        }
        if exists|i: int| 0 <= i < rs.len() && lists_service(#[trigger] rs[i], x) {
            let i = choose|i: int| 0 <= i < rs.len() && lists_service(#[trigger] rs[i], x);
            if i < rs.len() - 1 {
                assert(init[i] == rs[i]);
            }
        }
    }
}

/// The services a device ends with do not depend on the order in which its
/// reports arrived: two report sequences holding the same reports (for
/// example, one a permutation of the other) give the same services.
pub proof fn lemma_services_order_independent(
    address: BDAddr,
    rs1: Seq<ReportView>,
    rs2: Seq<ReportView>,
)
    requires
        rs1.to_set() == rs2.to_set(),
    ensures
        apply_reports(initial_properties(address), rs1).services == apply_reports(
            initial_properties(address),
            rs2,
        ).services,
{
    lemma_services_are_union(address, rs1);
    lemma_services_are_union(address, rs2);
    assert forall|x: u128|
        advertised_services(rs1).contains(x) == advertised_services(rs2).contains(x) by {
        lemma_advertised_services_members(rs1, x);
        lemma_advertised_services_members(rs2, x);
        if exists|i: int| 0 <= i < rs1.len() && lists_service(#[trigger] rs1[i], x) {
            let i = choose|i: int| 0 <= i < rs1.len() && lists_service(#[trigger] rs1[i], x);
            assert(rs1.to_set().contains(rs1[i]));
            assert(rs2.contains(rs1[i]));
            let j = choose|j: int| 0 <= j < rs2.len() && rs2[j] == rs1[i];
            assert(lists_service(rs2[j], x));
        }
        if exists|i: int| 0 <= i < rs2.len() && lists_service(#[trigger] rs2[i], x) {
            let i = choose|i: int| 0 <= i < rs2.len() && lists_service(#[trigger] rs2[i], x);
            assert(rs2.to_set().contains(rs2[i]));
            assert(rs1.contains(rs2[i]));
            let j = choose|j: int| 0 <= j < rs1.len() && rs1[j] == rs2[i];
            assert(lists_service(rs1[j], x));
        }
    }
    assert(advertised_services(rs1) =~= advertised_services(rs2));
}

/// Merging a report never removes a known service.
pub proof fn lemma_services_never_shrink(p: PropertiesView, r: ReportView)
    ensures
        p.services.subset_of(apply_report(p, r).services),
{
}

/// After `n` reports from one device its discovery count is `n`, whatever
/// the reports held.
pub proof fn lemma_discovery_count(address: BDAddr, rs: Seq<ReportView>)
    requires
        rs.len() <= u64::MAX,
    ensures
        apply_reports(initial_properties(address), rs).discovery_count == rs.len(),
    decreases rs.len(),
{
    if rs.len() > 0 {
        lemma_discovery_count(address, rs.drop_last());
    }
}

/// A report without manufacturer data leaves the manufacturer data that
/// the previous report set.
pub proof fn lemma_manufacturer_data_kept(p: PropertiesView, first: ReportView, second: ReportView)
    requires
        second.manufacturer_data is None,
    ensures
        apply_report(apply_report(p, first), second).manufacturer_data == apply_report(
            p,
            first,
        ).manufacturer_data,
        first.manufacturer_data is Some ==> apply_report(
            apply_report(p, first),
            second,
        ).manufacturer_data == entries_map(first.manufacturer_data->Some_0),
{
}

/// A device as the library sees it.
pub struct PeripheralView {
    pub address: BDAddr,
    pub properties: Option<PropertiesView>,
    pub connected: bool,
    pub characteristics: Map<u128, Characteristic>,
}

pub enum RequestView {
    Read(Characteristic),
    Write(Characteristic, Seq<u8>, WriteType),
    Subscribe(Characteristic),
    Unsubscribe(Characteristic),
}

impl View for GattRequest {
    type V = RequestView;

    open spec fn view(&self) -> RequestView {
        match self {
            GattRequest::Read(c) => RequestView::Read(*c),
            GattRequest::Write { characteristic, data, write_type } => RequestView::Write(
                *characteristic,
                data@,
                *write_type,
            ),
            GattRequest::Subscribe(c) => RequestView::Subscribe(*c),
            GattRequest::Unsubscribe(c) => RequestView::Unsubscribe(*c),
        }
    }
}

pub open spec fn result_view(r: Result<GattRequest, Error>) -> Result<RequestView, Error> {
    match r {
        Ok(q) => Ok(q@),
        Err(e) => Err(e),
    }
}

/// Which cached characteristic a GATT operation on `uuid` runs against: it
/// needs a connection first, then a characteristic discovered under `uuid`.
pub open spec fn gatt_target(p: PeripheralView, uuid: u128, op: Operation) -> Result<
    Characteristic,
    Error,
> {
    if !p.connected {
        Err(Error::NotConnected)
    } else if !p.characteristics.contains_key(uuid) {
        Err(Error::NotSupported(op))
    } else {
        Ok(p.characteristics[uuid])
    }
}

/// The stored properties name the device and each cached characteristic
/// sits under its own UUID.
pub open spec fn peripheral_view_wf(v: PeripheralView) -> bool {
    &&& match v.properties {
        Some(p) => p.address == v.address,
        None => true,
    }
    &&& forall|k: u128| #[trigger]
        v.characteristics.contains_key(k) ==> v.characteristics[k].uuid == k
}

/// One discovered device.
#[derive(Clone, Debug)]
pub struct Peripheral {
    address: BDAddr,
    properties: Option<PeripheralProperties>,
    connected: bool,
    ble_characteristics: DashMap<u128, Characteristic>,
    notifications_channel: broadcast::Sender<ValueNotification>,
}

impl View for Peripheral {
    type V = PeripheralView;

    closed spec fn view(&self) -> PeripheralView {
        PeripheralView {
            address: self.address,
            properties: match self.properties {
                Some(p) => Some(p@),
                None => None,
            },
            connected: self.connected,
            characteristics: characteristic_table(self.ble_characteristics),
        }
    }
}

impl Peripheral {
    /// The stored properties name this device and each cached
    /// characteristic sits under its own UUID.
    pub open spec fn wf(&self) -> bool {
        peripheral_view_wf(self@)
    }

    /// A device seen for the first time: no properties, not connected,
    /// nothing cached, nothing published.
    pub fn new(address: BDAddr) -> (r: Peripheral)
        ensures
            r.wf(),
            r.published() == Seq::<(u128, Seq<u8>)>::empty(),
            r@ == (PeripheralView {
                address,
                properties: None,
                connected: false,
                characteristics: Map::empty(),
            }),
    {
        let (broadcast_sender, _receiver) = broadcast_channel(NOTIFICATION_CAPACITY);
        let table = new_characteristic_table();
        assert(characteristic_table(table) =~= Map::empty());
        Peripheral {
            address,
            properties: None,
            connected: false,
            ble_characteristics: table,
            notifications_channel: broadcast_sender,
        }
    }

    /// Merges one advertisement report into the device's properties and
    /// returns the events it announces, in order.
    pub fn update_properties(&mut self, report: &AdvertisementReport) -> (events: Vec<CentralEvent>)
        requires
            old(self).wf(),
            report_well_formed(report@),
        ensures
            final(self).wf(),
            final(self)@ == (PeripheralView {
                properties: Some(apply_report(old(self).current_properties(), report@)),
                ..old(self)@
            }),
            events_view(events@) == report_events(old(self).current_properties(), report@),
    {
        let ghost p0 = self.current_properties();
        let mut props = match self.properties.take() {
            Some(p) => p,
            None => PeripheralProperties::new(self.address),
        };
        assert(props@ == p0);
        if props.discovery_count < u64::MAX {
            props.discovery_count = props.discovery_count + 1;
        }
        match &report.local_name {
            Some(name) => {
                if !name.as_str().is_empty() {
                    props.local_name = Some(name.clone());
                }
            },
            None => {},
        }
        match report.tx_power_level {
            Some(t) => {
                props.tx_power_level = Some(t);
            },
            None => {},
        }
        match report.rssi {
            Some(x) => {
                props.rssi = Some(x);
            },
            None => {},
        }
        let e1 = props.merge_manufacturer_data(report);
        let e2 = props.merge_service_data(report);
        let e3 = props.merge_services(report);
        let mut events: Vec<CentralEvent> = Vec::new();
        push_some(&mut events, e1);
        push_some(&mut events, e2);
        push_some(&mut events, e3);
        assert(props@ == apply_report(p0, report@));
        assert(events_view(events@) =~= report_events(p0, report@));
        self.properties = Some(props);
        events
    }

    pub fn address(&self) -> (r: BDAddr)
        ensures
            r == self@.address,
    {
        self.address
    }

    /// A snapshot of the merged properties; `None` before the first report.
    pub fn properties(&self) -> (r: Option<PeripheralProperties>)
        requires
            self.wf(),
        ensures
            match r {
                Some(p) => self@.properties == Some(p@),
                None => self@.properties is None,
            },
    {
        match &self.properties {
            Some(p) => Some(p.snapshot()),
            None => None,
        }
    }

    /// The characteristics discovered so far, each once.
    pub fn characteristics(&self) -> (r: Vec<Characteristic>)
        requires
            self.wf(),
        ensures
            r@.len() == self@.characteristics.len(),
            forall|i: int|
                0 <= i < r@.len() ==> self@.characteristics.contains_key(#[trigger] r@[i].uuid)
                    && self@.characteristics[r@[i].uuid] == r@[i],
            forall|k: u128|
                self@.characteristics.contains_key(k) ==> exists|i: int|
                    0 <= i < r@.len() && #[trigger] r@[i] == self@.characteristics[k],
    {
        let r = list_characteristics(&self.ble_characteristics);
        assert forall|i: int| 0 <= i < r@.len() implies self@.characteristics.contains_key(
            #[trigger] r@[i].uuid,
        ) && self@.characteristics[r@[i].uuid] == r@[i] by {
            let k = choose|k: u128|
                characteristic_table(self.ble_characteristics).contains_key(k)
                    && characteristic_table(self.ble_characteristics)[k] == #[trigger] r@[i];
            assert(self@.characteristics.contains_key(k));
        }
        r
    }

    pub fn is_connected(&self) -> (r: bool)
        ensures
            r == self@.connected,
    {
        self.connected
    }

    /// Records how a connection attempt ended. An established connection is
    /// announced with `DeviceConnected`; a failed or cancelled one leaves the
    /// device disconnected and announces nothing.
    pub fn connect(&mut self, established: bool) -> (r: Option<CentralEvent>)
        requires
            old(self).wf(),
        ensures
            final(self).wf(),
            final(self)@ == (PeripheralView { connected: established, ..old(self)@ }),
            optional_events(r) == (if established {
                seq![EventView::DeviceConnected(old(self)@.address)]
            } else {
                Seq::empty()
            }),
    {
        self.connected = established;
        if established {
            Some(CentralEvent::DeviceConnected(self.address))
        } else {
            None
        }
    }

    /// Records a connection-state change reported by the transport; losing
    /// the connection is announced with `DeviceDisconnected`.
    pub fn connection_state_changed(&mut self, is_connected: bool) -> (r: Option<CentralEvent>)
        requires
            old(self).wf(),
        ensures
            final(self).wf(),
            final(self)@ == (PeripheralView { connected: is_connected, ..old(self)@ }),
            optional_events(r) == (if is_connected {
                Seq::empty()
            } else {
                seq![EventView::DeviceDisconnected(old(self)@.address)]
            }),
    {
        self.connected = is_connected;
        if is_connected {
            None
        } else {
            Some(CentralEvent::DeviceDisconnected(self.address))
        }
    }

    /// Releases the connection; always announces `DeviceDisconnected`, also
    /// when the device was not connected.
    pub fn disconnect(&mut self) -> (r: CentralEvent)
        requires
            old(self).wf(),
        ensures
            final(self).wf(),
            final(self)@ == (PeripheralView { connected: false, ..old(self)@ }),
            r@ == EventView::DeviceDisconnected(old(self)@.address),
    {
        self.connected = false;
        CentralEvent::DeviceDisconnected(self.address)
    }

    /// Caches the characteristics that the transport discovered, keeping the
    /// first entry of a UUID already cached, and returns them as found.
    pub fn discover_characteristics(&mut self, found: &Vec<Characteristic>) -> (r: Result<
        Vec<Characteristic>,
        Error,
    >)
        requires
            old(self).wf(),
        ensures
            final(self).wf(),
            old(self)@.connected ==> r is Ok && r->Ok_0@ == found@ && final(self)@ == (
            PeripheralView {
                characteristics: cache_after(old(self)@.characteristics, found@),
                ..old(self)@
            }),
            !old(self)@.connected ==> r == Err::<Vec<Characteristic>, Error>(Error::NotConnected)
                && final(self)@ == old(self)@,
    {
        if !self.connected {
            return Err(Error::NotConnected);
        }
        let mut i: usize = 0;
        while i < found.len()
            invariant
                i <= found@.len(),
                self.wf(),
                self@ == (PeripheralView {
                    characteristics: cache_after(old(self)@.characteristics, found@.take(i as int)),
                    ..old(self)@
                }),
            decreases found@.len() - i,
        {
            assert(found@.take(i + 1).drop_last() =~= found@.take(i as int));
            let ghost before = self@.characteristics;
            insert_characteristic_if_absent(&mut self.ble_characteristics, found[i]);
            assert forall|k: u128| #[trigger]
                self@.characteristics.contains_key(k) implies self@.characteristics[k].uuid == k by {
                if k != found@[i as int].uuid {
                    assert(before.contains_key(k));
                }
            }
            i = i + 1;
        }
        assert(found@.take(found@.len() as int) =~= found@);
        let r = found.clone();
        assert(r@ =~= found@);
        Ok(r)
    }

    /// The cached characteristic that an operation on `uuid` runs against.
    fn target(&self, uuid: u128, op: Operation) -> (r: Result<Characteristic, Error>)
        ensures
            r == gatt_target(self@, uuid, op),
    {
        if !self.connected {
            return Err(Error::NotConnected);
        }
        match lookup_characteristic(&self.ble_characteristics, uuid) {
            Some(c) => Ok(c),
            None => Err(Error::NotSupported(op)),
        }
    }

    /// Clears a write of `data` to a characteristic for the transport.
    pub fn write(&self, characteristic: &Characteristic, data: &Vec<u8>, write_type: WriteType) -> (r:
        Result<GattRequest, Error>)
        ensures
            result_view(r) == match gatt_target(self@, characteristic.uuid, Operation::Write) {
                Ok(c) => Ok(RequestView::Write(c, data@, write_type)),
                Err(e) => Err(e),
            },
    {
        match self.target(characteristic.uuid, Operation::Write) {
            Ok(c) => {
                let d = data.clone();
                assert(d@ =~= data@);
                Ok(GattRequest::Write { characteristic: c, data: d, write_type })
            },
            Err(e) => Err(e),
        }
    }

    /// Clears a read of a characteristic for the transport.
    pub fn read(&self, characteristic: &Characteristic) -> (r: Result<GattRequest, Error>)
        ensures
            result_view(r) == match gatt_target(self@, characteristic.uuid, Operation::Read) {
                Ok(c) => Ok(RequestView::Read(c)),
                Err(e) => Err(e),
            },
    {
        match self.target(characteristic.uuid, Operation::Read) {
            Ok(c) => Ok(GattRequest::Read(c)),
            Err(e) => Err(e),
        }
    }

    /// Clears enabling notifications of a characteristic for the transport.
    pub fn subscribe(&self, characteristic: &Characteristic) -> (r: Result<GattRequest, Error>)
        ensures
            result_view(r) == match gatt_target(self@, characteristic.uuid, Operation::Subscribe) {
                Ok(c) => Ok(RequestView::Subscribe(c)),
                Err(e) => Err(e),
            },
    {
        match self.target(characteristic.uuid, Operation::Subscribe) {
            Ok(c) => Ok(GattRequest::Subscribe(c)),
            Err(e) => Err(e),
        }
    }

    /// Clears disabling notifications of a characteristic for the transport.
    pub fn unsubscribe(&self, characteristic: &Characteristic) -> (r: Result<GattRequest, Error>)
        ensures
            result_view(r) == match gatt_target(
                self@,
                characteristic.uuid,
                Operation::Unsubscribe,
            ) {
                Ok(c) => Ok(RequestView::Unsubscribe(c)),
                Err(e) => Err(e),
            },
    {
        match self.target(characteristic.uuid, Operation::Unsubscribe) {
            Ok(c) => Ok(GattRequest::Unsubscribe(c)),
            Err(e) => Err(e),
        }
    }

    /// The values this device has published, tagged with their
    /// characteristic's UUID, in order.
    pub closed spec fn published(&self) -> Seq<(u128, Seq<u8>)> {
        published(self.notifications_channel)
    }

    /// Publishes a value received from a subscribed characteristic, tagged
    /// with its UUID, to every current reader of `notifications`.
    pub fn publish_notification(&mut self, uuid: u128, value: Vec<u8>)
        ensures
            final(self)@ == old(self)@,
            final(self).published() == old(self).published().push((uuid, value@)),
    {
        broadcast_send(&mut self.notifications_channel, ValueNotification { uuid, value });
    }

    /// A reader of the values published from now on; earlier ones are not
    /// replayed.
    pub fn notifications(&self) -> broadcast::Receiver<ValueNotification> {
        broadcast_subscribe(&self.notifications_channel)
    }

    /// The properties merged so far, or the initial ones before any report.
    pub open spec fn current_properties(&self) -> PropertiesView {
        match self@.properties {
            Some(p) => p,
            None => initial_properties(self@.address),
        }
    }
}

} // verus!
