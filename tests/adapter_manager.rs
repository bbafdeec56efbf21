use btleplug::adapter_manager::AdapterManager;
use btleplug::peripheral::{AdvertisementReport, BDAddr, CentralEvent, Peripheral};

const A: BDAddr = BDAddr { address: 0xAABB_CCDD_EE01 };
const B: BDAddr = BDAddr { address: 0xAABB_CCDD_EE02 };

fn report(uuids: Option<Vec<u128>>) -> AdvertisementReport {
    AdvertisementReport {
        local_name: None,
        manufacturer_data: None,
        data_sections: None,
        service_uuids: uuids,
        tx_power_level: None,
        rssi: Some(-60),
    }
}

#[test]
fn registry_starts_empty() {
    let m = AdapterManager::new();
    assert!(!m.has_peripheral(&A));
    assert!(m.peripheral(A).is_none());
    assert!(m.peripherals().is_empty());
    let d = AdapterManager::default();
    assert!(d.peripherals().is_empty());
}

#[test]
fn added_peripherals_can_be_found() {
    let mut m = AdapterManager::new();
    m.add_peripheral(A, Peripheral::new(A));
    m.add_peripheral(B, Peripheral::new(B));
    assert!(m.has_peripheral(&A));
    assert_eq!(m.peripheral(B).unwrap().address(), B);
    let mut addrs: Vec<u64> = m.peripherals().iter().map(|p| p.address().address).collect();
    addrs.sort();
    assert_eq!(addrs, vec![A.address, B.address]);
}

#[test]
fn event_receiver_is_handed_out_once() {
    let mut m = AdapterManager::new();
    assert!(m.event_receiver().is_some());
    assert!(m.event_receiver().is_none());
    assert!(m.event_receiver().is_none());
}

#[test]
fn disconnect_event_removes_the_peripheral() {
    let mut m = AdapterManager::new();
    m.add_peripheral(A, Peripheral::new(A));
    m.add_peripheral(B, Peripheral::new(B));
    m.emit(CentralEvent::DeviceDisconnected(A));
    assert!(!m.has_peripheral(&A));
    assert!(m.peripheral(A).is_none());
    assert!(m.has_peripheral(&B));
    m.emit(CentralEvent::DeviceLost(B));
    assert!(m.peripheral(B).is_none());
    // A later discovery registers the address again.
    m.add_peripheral(A, Peripheral::new(A));
    assert!(m.has_peripheral(&A));
}

#[test]
fn other_events_keep_the_registry() {
    let mut m = AdapterManager::new();
    m.add_peripheral(A, Peripheral::new(A));
    m.emit(CentralEvent::DeviceConnected(A));
    m.emit(CentralEvent::DeviceUpdated(A));
    assert!(m.has_peripheral(&A));
}

#[test]
fn events_reach_the_queue_in_order_and_every_subscriber() {
    let mut m = AdapterManager::new();
    let mut queue = m.event_receiver().unwrap();
    let mut first = m.event_stream();
    let mut second = m.event_stream();
    m.emit(CentralEvent::DeviceDiscovered(A));
    m.emit(CentralEvent::DeviceConnected(A));
    assert!(matches!(queue.try_recv(), Ok(CentralEvent::DeviceDiscovered(a)) if a == A));
    assert!(matches!(queue.try_recv(), Ok(CentralEvent::DeviceConnected(a)) if a == A));
    assert!(matches!(first.try_next(), Ok(Some(CentralEvent::DeviceDiscovered(_)))));
    assert!(matches!(second.try_next(), Ok(Some(CentralEvent::DeviceDiscovered(_)))));
    // A dropped subscriber is pruned and does not stop delivery to the others.
    drop(first);
    m.emit(CentralEvent::DeviceLost(A));
    assert!(matches!(second.try_next(), Ok(Some(CentralEvent::DeviceConnected(_)))));
    assert!(matches!(second.try_next(), Ok(Some(CentralEvent::DeviceLost(_)))));
}

#[test]
fn stalled_subscriber_does_not_block_emission() {
    let mut m = AdapterManager::new();
    let _stalled = m.event_stream();
    for i in 0..10_000u64 {
        m.process_advertisement(BDAddr { address: i % 7 }, &report(Some(vec![(i % 3) as u128])));
    }
    assert_eq!(m.peripherals().len(), 7);
}

#[test]
fn advertisement_registers_then_updates() {
    let mut m = AdapterManager::new();
    let mut queue = m.event_receiver().unwrap();
    m.process_advertisement(A, &report(Some(vec![1])));
    m.process_advertisement(A, &report(Some(vec![2])));
    m.process_advertisement(A, &report(None));
    let props = m.peripheral(A).unwrap().properties().unwrap();
    assert_eq!(props.discovery_count, 3);
    let mut services = props.services.clone();
    services.sort();
    assert_eq!(services, vec![1, 2]);
    assert_eq!(props.rssi, Some(-60));
    assert!(matches!(queue.try_recv(), Ok(CentralEvent::ServicesAdvertisement { .. })));
    assert!(matches!(queue.try_recv(), Ok(CentralEvent::DeviceDiscovered(a)) if a == A));
    assert!(matches!(queue.try_recv(), Ok(CentralEvent::ServicesAdvertisement { .. })));
    assert!(matches!(queue.try_recv(), Ok(CentralEvent::DeviceUpdated(a)) if a == A));
    assert!(matches!(queue.try_recv(), Ok(CentralEvent::DeviceUpdated(a)) if a == A));
}

#[test]
fn stale_peripheral_is_not_put_back() {
    let mut m = AdapterManager::new();
    m.add_peripheral(A, Peripheral::new(A));
    let mut p = m.peripheral(A).unwrap();
    p.connect(true);
    assert!(m.update_peripheral(p.clone()));
    assert!(m.peripheral(A).unwrap().is_connected());
    m.emit(CentralEvent::DeviceDisconnected(A));
    assert!(!m.update_peripheral(p));
    assert!(!m.has_peripheral(&A));
}

#[test]
fn dead_subscribers_are_pruned_and_live_ones_kept() {
    let mut m = AdapterManager::new();
    let dead = m.event_stream();
    let mut live = m.event_stream();
    drop(dead);
    m.emit(CentralEvent::DeviceUpdated(A));
    m.emit(CentralEvent::DeviceUpdated(B));
    assert!(matches!(live.try_next(), Ok(Some(CentralEvent::DeviceUpdated(a))) if a == A));
    assert!(matches!(live.try_next(), Ok(Some(CentralEvent::DeviceUpdated(b))) if b == B));
    // Events emitted before a subscription are not replayed to it.
    let mut late = m.event_stream();
    assert!(late.try_next().is_err());
}
