//! The address-keyed registry of an adapter's peripherals and the fan-out of
//! its events.
use crate::peripheral::{
    apply_report, events_view, initial_properties, is_advertisement,
    lemma_report_events_are_advertisements, peripheral_view_wf, report_events,
    report_well_formed, AdvertisementReport, BDAddr, CentralEvent, EventView, Peripheral,
    PeripheralView, PropertiesView, ReportView,
};
use dashmap::DashMap;
use futures::channel::mpsc::{self, UnboundedReceiver, UnboundedSender};
use std::sync::mpsc::{Receiver, Sender};
use vstd::prelude::*;

verus! {

/// What the registry holds, by device address.
pub uninterp spec fn peripheral_table(m: DashMap<u64, Peripheral>) -> Map<u64, PeripheralView>;

/// Relies on dashmap::DashMap::new: a new map is empty.
#[verifier::external_body]
fn new_peripheral_table() -> (r: DashMap<u64, Peripheral>)
    ensures
        peripheral_table(r).dom() == Set::<u64>::empty(),
{
    DashMap::new()
}

/// Relies on dashmap::DashMap::contains_key.
#[verifier::external_body]
fn table_contains(m: &DashMap<u64, Peripheral>, key: u64) -> (r: bool)
    ensures
        r == peripheral_table(*m).contains_key(key),
{
    m.contains_key(&key)
}

/// Relies on dashmap::DashMap::insert: the key now maps to the value.
#[verifier::external_body]
fn table_insert(m: &mut DashMap<u64, Peripheral>, key: u64, p: Peripheral)
    ensures
        peripheral_table(*final(m)) == peripheral_table(*old(m)).insert(key, p@),
{
    m.insert(key, p);
}

/// Relies on dashmap::DashMap::remove: the key no longer maps to anything.
#[verifier::external_body]
fn table_remove(m: &mut DashMap<u64, Peripheral>, key: u64)
    ensures
        peripheral_table(*final(m)) == peripheral_table(*old(m)).remove(key),
{
    m.remove(&key);
}

/// Relies on dashmap::DashMap::get: a copy of the value under the key, if any.
#[verifier::external_body]
fn table_get(m: &DashMap<u64, Peripheral>, key: u64) -> (r: Option<Peripheral>)
    ensures
        match r {
            Some(p) => peripheral_table(*m).contains_key(key) && p@ == peripheral_table(*m)[key],
            None => !peripheral_table(*m).contains_key(key),
        },
{
    m.get(&key).map(|e| e.value().clone())
}

/// Some entry of the registry holds this device.
pub open spec fn registered(m: Map<u64, PeripheralView>, v: PeripheralView) -> bool {
    exists|k: u64| m.contains_key(k) && m[k] == v
}

/// Some element of the list is this device.
pub open spec fn listed(s: Seq<Peripheral>, v: PeripheralView) -> bool {
    exists|i: int| 0 <= i < s.len() && s[i]@ == v
}

/// Relies on dashmap::DashMap::iter: each entry is visited once.
#[verifier::external_body]
fn table_values(m: &DashMap<u64, Peripheral>) -> (r: Vec<Peripheral>)
    ensures
        r@.len() == peripheral_table(*m).len(),
        forall|i: int| 0 <= i < r@.len() ==> registered(peripheral_table(*m), #[trigger] r@[i]@),
        forall|k: u64|
            #[trigger] peripheral_table(*m).contains_key(k) ==> listed(r@, peripheral_table(*m)[k]),
{
    m.iter().map(|e| e.value().clone()).collect()
}

/// The events handed to the ordered queue's sender so far, in order.
pub uninterp spec fn queued(s: Sender<CentralEvent>) -> Seq<EventView>;

/// Relies on std::sync::mpsc::channel: a new unbounded queue whose sender
/// has been handed nothing.
#[verifier::external_body]
fn ordered_channel() -> (r: (Sender<CentralEvent>, Receiver<CentralEvent>))
    ensures
        queued(r.0) == Seq::<EventView>::empty(),
{
    std::sync::mpsc::channel()
}

/// Relies on std::sync::mpsc::Sender::send, which never blocks and queues
/// the event unless the receiver is gone.
#[verifier::external_body]
fn enqueue(s: &mut Sender<CentralEvent>, event: CentralEvent)
    ensures
        queued(*final(s)) == queued(*old(s)).push(event@),
{
    let _ = s.send(event);
}

/// The events handed to a sender so far, in order, whether or not its
/// receiving end was still there to take them.
pub uninterp spec fn handed(s: UnboundedSender<CentralEvent>) -> Seq<EventView>;

/// What each sender of a list has been handed.
pub open spec fn senders_view(v: Seq<UnboundedSender<CentralEvent>>) -> Seq<Seq<EventView>> {
    v.map_values(|s: UnboundedSender<CentralEvent>| handed(s))
}

/// Relies on futures::channel::mpsc::unbounded: a new unbounded queue whose
/// sender has been handed nothing.
#[verifier::external_body]
fn unbounded_channel() -> (r: (UnboundedSender<CentralEvent>, UnboundedReceiver<CentralEvent>))
    ensures
        handed(r.0) == Seq::<EventView>::empty(),
{
    mpsc::unbounded()
}

/// Relies on futures::channel::mpsc::UnboundedSender::unbounded_send, which
/// never blocks and queues the event for the receiver; `false` when the
/// receiving end is gone.
#[verifier::external_body]
fn deliver(s: &mut UnboundedSender<CentralEvent>, event: CentralEvent) -> (r: bool)
    ensures
        handed(*final(s)) == handed(*old(s)).push(event@),
{
    s.unbounded_send(event).is_ok()
}

/// The subscribers left after `e` was handed to each of `subs`: those whose
/// delivery succeeded (`kept`), each with `e` appended, in their order.
pub open spec fn survivors(subs: Seq<Seq<EventView>>, kept: Seq<bool>, e: EventView) -> Seq<
    Seq<EventView>,
>
    decreases subs.len(),
{
    if subs.len() == 0 || kept.len() != subs.len() {
        Seq::empty()
    } else {
        let prev = survivors(subs.drop_last(), kept.drop_last(), e);
        if kept.last() {
            prev.push(subs.last().push(e))
        } else {
            prev
        }
    }
}

/// The registry and event bus as the library sees them.
pub struct AdapterView {
    pub peripherals: Map<u64, PeripheralView>,
    pub receiver_available: bool,
    /// The events handed to the ordered queue, in order.
    pub queue: Seq<EventView>,
    /// For each broadcast subscriber, the events handed to it, in order.
    pub subscribers: Seq<Seq<EventView>>,
}

/// The registry after an event: a disconnected or lost device leaves it.
pub open spec fn registry_after(m: Map<u64, PeripheralView>, e: EventView) -> Map<
    u64,
    PeripheralView,
> {
    match e {
        EventView::DeviceDisconnected(a) => m.remove(a.address),
        EventView::DeviceLost(a) => m.remove(a.address),
        _ => m,
    }
}

/// Every registered device is well formed and registered under its address.
pub open spec fn registry_wf(m: Map<u64, PeripheralView>) -> bool {
    forall|k: u64| #[trigger]
        m.contains_key(k) ==> peripheral_view_wf(m[k]) && m[k].address.address == k
}

/// The registered device under `address`, or a fresh one when there is none.
pub open spec fn known_or_new(m: Map<u64, PeripheralView>, address: BDAddr) -> PeripheralView {
    if m.contains_key(address.address) {
        m[address.address]
    } else {
        PeripheralView {
            address,
            properties: None,
            connected: false,
            characteristics: Map::empty(),
        }
    }
}

/// The merged properties of a device, or the initial ones before any report.
pub open spec fn properties_of(v: PeripheralView) -> PropertiesView {
    match v.properties {
        Some(p) => p,
        None => initial_properties(v.address),
    }
}

/// The registry after a report from `address` has been merged.
pub open spec fn registry_after_report(
    m: Map<u64, PeripheralView>,
    address: BDAddr,
    r: ReportView,
) -> Map<u64, PeripheralView> {
    let v = known_or_new(m, address);
    m.insert(
        address.address,
        PeripheralView { properties: Some(apply_report(properties_of(v), r)), ..v },
    )
}

/// The registry and bus once the ordered queue has been asked for.
pub open spec fn receiver_taken(v: AdapterView) -> AdapterView {
    AdapterView { receiver_available: false, ..v }
}

/// The registry and bus after `n` requests for the ordered queue.
pub open spec fn after_receiver_requests(v: AdapterView, n: nat) -> AdapterView
    decreases n,
{
    if n == 0 {
        v
    } else {
        receiver_taken(after_receiver_requests(v, (n - 1) as nat))
    }
}

/// The ordered queue is handed out to the first request of a new registry
/// and to no later one.
pub proof fn lemma_receiver_handed_out_once(v: AdapterView, n: nat)
    requires
        v.receiver_available,
    ensures
        after_receiver_requests(v, 0).receiver_available,
        n >= 1 ==> !after_receiver_requests(v, n).receiver_available,
{
}

/// Emitting `DeviceDisconnected` or `DeviceLost` for an address leaves no
/// device registered under it; other entries stay as they were.
pub proof fn lemma_disconnect_removes(m: Map<u64, PeripheralView>, address: BDAddr)
    ensures
        !registry_after(m, EventView::DeviceDisconnected(address)).contains_key(address.address),
        !registry_after(m, EventView::DeviceLost(address)).contains_key(address.address),
        forall|k: u64|
            k != address.address && m.contains_key(k) ==> #[trigger] registry_after(
                m,
                EventView::DeviceDisconnected(address),
            ).contains_key(k),
{
}

/// The registry of one adapter's peripherals, with one ordered event queue
/// that can be taken once and any number of broadcast subscribers.
#[derive(Debug)]
pub struct AdapterManager {
    peripherals: DashMap<u64, Peripheral>,
    event_sender: Sender<CentralEvent>,
    event_receiver: Option<Receiver<CentralEvent>>,
    async_senders: Vec<UnboundedSender<CentralEvent>>,
}

impl View for AdapterManager {
    type V = AdapterView;

    closed spec fn view(&self) -> AdapterView {
        AdapterView {
            peripherals: peripheral_table(self.peripherals),
            receiver_available: self.event_receiver is Some,
            queue: queued(self.event_sender),
            subscribers: senders_view(self.async_senders@),
        }
    }
}

impl AdapterManager {
    pub open spec fn wf(&self) -> bool {
        registry_wf(self@.peripherals)
    }

    /// An empty registry whose event queue has not been taken.
    pub fn new() -> (r: AdapterManager)
        ensures
            r.wf(),
            r@.peripherals.dom() == Set::<u64>::empty(),
            r@.receiver_available,
            r@.queue == Seq::<EventView>::empty(),
            r@.subscribers == Seq::<Seq<EventView>>::empty(),
    {
        let (event_sender, event_receiver) = ordered_channel();
        let r = AdapterManager {
            peripherals: new_peripheral_table(),
            event_sender,
            event_receiver: Some(event_receiver),
            async_senders: Vec::new(),
        };
        assert(senders_view(r.async_senders@) =~= Seq::<Seq<EventView>>::empty());
        r
    }

    /// Applies an event to the registry (a disconnected or lost device is
    /// removed), hands it to the ordered queue, and hands it to every
    /// broadcast subscriber, dropping exactly those whose receiving end is
    /// gone. Nothing blocks and nothing is reported back.
    pub fn emit(&mut self, event: CentralEvent)
        requires
            old(self).wf(),
        ensures
            final(self).wf(),
            final(self)@.peripherals == registry_after(old(self)@.peripherals, event@),
            final(self)@.receiver_available == old(self)@.receiver_available,
            final(self)@.queue == old(self)@.queue.push(event@),
            exists|kept: Seq<bool>|
                kept.len() == old(self)@.subscribers.len() && final(self)@.subscribers
                    == survivors(old(self)@.subscribers, kept, event@),
    {
        match &event {
            CentralEvent::DeviceDisconnected(addr) => {
                table_remove(&mut self.peripherals, addr.address);
            },
            CentralEvent::DeviceLost(addr) => {
                table_remove(&mut self.peripherals, addr.address);
            },
            _ => {},
        }
        let ghost table = self@.peripherals;
        enqueue(&mut self.event_sender, event.duplicate());
        let ghost queue = self@.queue;
        let mut pending: Vec<UnboundedSender<CentralEvent>> = Vec::new();
        std::mem::swap(&mut pending, &mut self.async_senders);
        let ghost subs0 = senders_view(pending@);
        let ghost n = pending@.len();
        let ghost mut kept: Seq<bool> = Seq::empty();
        assert(self@.subscribers =~= survivors(subs0.subrange(0, 0), kept, event@));
        assert(senders_view(pending@) =~= subs0.subrange(0, n as int));
        while pending.len() > 0
            invariant
                registry_wf(table),
                self@.peripherals == table,
                self@.receiver_available == old(self)@.receiver_available,
                self@.queue == queue,
                n == subs0.len(),
                kept.len() + pending@.len() == n,
                senders_view(pending@) == subs0.subrange(kept.len() as int, n as int),
                self@.subscribers == survivors(subs0.subrange(0, kept.len() as int), kept, event@),
            decreases pending@.len(),
        {
            let ghost k: int = kept.len() as int;
            let ghost before = self@.subscribers;
            let ghost pend = pending@;
            let mut s = pending.remove(0);
            assert(handed(s) == subs0[k]) by {
                assert(senders_view(pend)[0] == subs0.subrange(k, n as int)[0]);
            }
            let ok = deliver(&mut s, event.duplicate());
            if ok {
                self.async_senders.push(s);
                assert(self@.subscribers =~= before.push(subs0[k].push(event@)));
            } else {
                assert(self@.subscribers =~= before);
            }
            proof {
                let kept0 = kept;
                kept = kept.push(ok);
                assert(kept.drop_last() =~= kept0);
                assert(subs0.subrange(0, k + 1).drop_last() =~= subs0.subrange(0, k));
                assert(subs0.subrange(0, k + 1).last() == subs0[k]);
                assert forall|j: int| 0 <= j < pending@.len() implies senders_view(pending@)[j]
                    == subs0.subrange(k + 1, n as int)[j] by {
                    assert(pending@[j] == pend[j + 1]);
                    assert(senders_view(pend)[j + 1] == subs0.subrange(k, n as int)[j + 1]);
                }
                assert(senders_view(pending@) =~= subs0.subrange(k + 1, n as int));
            }
        }
        assert(subs0.subrange(0, n as int) =~= subs0);
        assert(subs0 == old(self)@.subscribers);
        assert(kept.len() == old(self)@.subscribers.len() && self@.subscribers == survivors(
            old(self)@.subscribers,
            kept,
            event@,
        ));
    }

    /// Hands out the ordered event queue; `None` once it has been taken.
    pub fn event_receiver(&mut self) -> (r: Option<Receiver<CentralEvent>>)
        ensures
            r is Some <==> old(self)@.receiver_available,
            final(self)@ == receiver_taken(old(self)@),
    {
        self.event_receiver.take()
    }

    /// A new broadcast subscription to every event emitted from now on: a
    /// subscriber that has been handed nothing yet.
    pub fn event_stream(&mut self) -> (r: UnboundedReceiver<CentralEvent>)
        ensures
            final(self)@ == (AdapterView {
                subscribers: old(self)@.subscribers.push(Seq::<EventView>::empty()),
                ..old(self)@
            }),
    {
        let (sender, receiver) = unbounded_channel();
        self.async_senders.push(sender);
        assert(senders_view(self.async_senders@) =~= old(self)@.subscribers.push(
            Seq::<EventView>::empty(),
        ));
        receiver
    }

    pub fn has_peripheral(&self, addr: &BDAddr) -> (r: bool)
        ensures
            r == self@.peripherals.contains_key(addr.address),
    {
        table_contains(&self.peripherals, addr.address)
    }

    /// Registers a device under its address. The address must not be
    /// registered yet and must be the device's own.
    pub fn add_peripheral(&mut self, addr: BDAddr, peripheral: Peripheral)
        requires
            old(self).wf(),
            peripheral.wf(),
            !old(self)@.peripherals.contains_key(addr.address),
            peripheral@.address == addr,
        ensures
            final(self).wf(),
            final(self)@ == (AdapterView {
                peripherals: old(self)@.peripherals.insert(addr.address, peripheral@),
                ..old(self)@
            }),
    {
        table_insert(&mut self.peripherals, addr.address, peripheral);
    }

    /// Stores a changed copy of a registered device. A device whose address
    /// has left the registry is not put back: the call returns `false` and
    /// changes nothing.
    pub fn update_peripheral(&mut self, peripheral: Peripheral) -> (r: bool)
        requires
            old(self).wf(),
            peripheral.wf(),
        ensures
            final(self).wf(),
            r == old(self)@.peripherals.contains_key(peripheral@.address.address),
            r ==> final(self)@ == (AdapterView {
                peripherals: old(self)@.peripherals.insert(
                    peripheral@.address.address,
                    peripheral@,
                ),
                ..old(self)@
            }),
            !r ==> final(self)@ == old(self)@,
    {
        let key = peripheral.address().address;
        if table_contains(&self.peripherals, key) {
            table_insert(&mut self.peripherals, key, peripheral);
            true
        } else {
            false
        }
    }

    /// A snapshot of every registered device, each once.
    pub fn peripherals(&self) -> (r: Vec<Peripheral>)
        ensures
            r@.len() == self@.peripherals.len(),
            forall|i: int| 0 <= i < r@.len() ==> registered(self@.peripherals, #[trigger] r@[i]@),
            forall|k: u64| #[trigger]
                self@.peripherals.contains_key(k) ==> listed(r@, self@.peripherals[k]),
    {
        table_values(&self.peripherals)
    }

    /// Handles one advertisement report from `address`: a device seen for
    /// the first time is created and registered, the report is merged into
    /// its properties, the events of the merge are emitted, and then
    /// `DeviceDiscovered` for a new device or `DeviceUpdated` for a known one.
    pub fn process_advertisement(&mut self, address: BDAddr, report: &AdvertisementReport)
        requires
            old(self).wf(),
            report_well_formed(report@),
        ensures
            final(self).wf(),
            final(self)@.peripherals == registry_after_report(
                old(self)@.peripherals,
                address,
                report@,
            ),
            final(self)@.receiver_available == old(self)@.receiver_available,
            final(self)@.queue == old(self)@.queue + report_events(
                properties_of(known_or_new(old(self)@.peripherals, address)),
                report@,
            ) + seq![
                if old(self)@.peripherals.contains_key(address.address) {
                    EventView::DeviceUpdated(address)
                } else {
                    EventView::DeviceDiscovered(address)
                },
            ],
    {
        let ghost m0 = self@.peripherals;
        let ghost q0 = self@.queue;
        let found = self.peripheral(address);
        let is_new = found.is_none();
        let mut p = match found {
            Some(p) => p,
            None => Peripheral::new(address),
        };
        assert(p@ == known_or_new(m0, address));
        let ghost props0 = p.current_properties();
        assert(props0 == properties_of(known_or_new(m0, address)));
        let mut events = p.update_properties(report);
        table_insert(&mut self.peripherals, address.address, p);
        assert(self@.peripherals == registry_after_report(m0, address, report@));
        let ghost target = self@.peripherals;
        let ghost all = events_view(events@);
        proof {
            lemma_report_events_are_advertisements(props0, report@);
        }
        assert(self@.queue =~= q0 + all.subrange(0, 0));
        assert(events_view(events@) =~= all.subrange(0, all.len() as int));
        while events.len() > 0
            invariant
                self.wf(),
                self@.peripherals == target,
                self@.receiver_available == old(self)@.receiver_available,
                all == report_events(props0, report@),
                forall|j: int| 0 <= j < all.len() ==> is_advertisement(#[trigger] all[j]),
                events@.len() <= all.len(),
                events_view(events@) == all.subrange(all.len() - events@.len(), all.len() as int),
                self@.queue == q0 + all.subrange(0, all.len() - events@.len()),
            decreases events@.len(),
        {
            let ghost k = all.len() - events@.len();
            let ghost before = events@;
            let e = events.remove(0);
            assert(events_view(before)[0] == e@);
            assert(e@ == all[k]);
            assert forall|j: int| 0 <= j < events@.len() implies events_view(events@)[j]
                == all.subrange(k + 1, all.len() as int)[j] by {
                assert(events@[j] == before[j + 1]);
                assert(events_view(before)[j + 1] == all.subrange(k, all.len() as int)[j + 1]);
            }
            assert(events_view(events@) =~= all.subrange(k + 1, all.len() as int));
            self.emit(e);
            assert(self@.queue =~= q0 + all.subrange(0, k + 1));
        }
        assert(all.subrange(0, all.len() as int) =~= all);
        if is_new {
            self.emit(CentralEvent::DeviceDiscovered(address));
        } else {
            self.emit(CentralEvent::DeviceUpdated(address));
        }
    }

    /// A copy of the device registered under `address`, if any.
    pub fn peripheral(&self, address: BDAddr) -> (r: Option<Peripheral>)
        ensures
            match r {
                Some(p) => self@.peripherals.contains_key(address.address) && p@
                    == self@.peripherals[address.address],
                None => !self@.peripherals.contains_key(address.address),
            },
    {
        table_get(&self.peripherals, address.address)
    }
}

impl Default for AdapterManager {
    fn default() -> (r: AdapterManager)
        ensures
            r.wf(),
            r@.peripherals.dom() == Set::<u64>::empty(),
            r@.receiver_available,
            r@.queue == Seq::<EventView>::empty(),
            r@.subscribers == Seq::<Seq<EventView>>::empty(),
    {
        AdapterManager::new()
    }
}

} // verus!
