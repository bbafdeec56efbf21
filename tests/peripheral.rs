use btleplug::advertisement::{DataSection, ManufacturerEntry, SERVICE_DATA_16_BIT_UUID};
use btleplug::peripheral::{
    AdvertisementReport, BDAddr, CentralEvent, Characteristic, Error, GattRequest, Operation,
    Peripheral, WriteType, report_is_well_formed,
};

const ADDR: BDAddr = BDAddr { address: 0x1122_3344_5566 };

fn empty_report() -> AdvertisementReport {
    AdvertisementReport {
        local_name: None,
        manufacturer_data: None,
        data_sections: None,
        service_uuids: None,
        tx_power_level: None,
        rssi: None,
    }
}

fn services_report(uuids: Vec<u128>) -> AdvertisementReport {
    AdvertisementReport { service_uuids: Some(uuids), ..empty_report() }
}

fn manufacturer_report(id: u16, data: Vec<u8>) -> AdvertisementReport {
    AdvertisementReport {
        manufacturer_data: Some(vec![ManufacturerEntry { company_id: id, data }]),
        ..empty_report()
    }
}

fn connected_peripheral() -> Peripheral {
    let mut p = Peripheral::new(ADDR);
    assert!(matches!(p.connect(true), Some(CentralEvent::DeviceConnected(a)) if a == ADDR));
    p
}

#[test]
fn new_peripheral_has_no_properties() {
    let p = Peripheral::new(ADDR);
    assert_eq!(p.address(), ADDR);
    assert!(p.properties().is_none());
    assert!(!p.is_connected());
    assert!(p.characteristics().is_empty());
}

#[test]
fn services_accumulate_as_a_union() {
    let mut p = Peripheral::new(ADDR);
    p.update_properties(&services_report(vec![1, 2]));
    p.update_properties(&services_report(vec![3]));
    p.update_properties(&services_report(vec![2, 1]));
    p.update_properties(&empty_report());
    let mut services = p.properties().unwrap().services;
    services.sort();
    assert_eq!(services, vec![1, 2, 3]);
}

#[test]
fn discovery_count_counts_every_report() {
    let mut p = Peripheral::new(ADDR);
    for i in 0..5u16 {
        if i % 2 == 0 {
            p.update_properties(&empty_report());
        } else {
            p.update_properties(&manufacturer_report(i, vec![1]));
        }
    }
    assert_eq!(p.properties().unwrap().discovery_count, 5);
}

#[test]
fn manufacturer_data_survives_a_report_without_it() {
    let mut p = Peripheral::new(ADDR);
    p.update_properties(&manufacturer_report(0x004C, vec![7, 8]));
    p.update_properties(&AdvertisementReport { rssi: Some(-40), ..empty_report() });
    let props = p.properties().unwrap();
    assert_eq!(props.manufacturer_data.len(), 1);
    assert_eq!(props.manufacturer_data.get(&0x004C), Some(&vec![7, 8]));
    assert_eq!(props.rssi, Some(-40));
}

#[test]
fn manufacturer_data_is_replaced_whole() {
    let mut p = Peripheral::new(ADDR);
    p.update_properties(&manufacturer_report(1, vec![1]));
    p.update_properties(&manufacturer_report(2, vec![2]));
    let props = p.properties().unwrap();
    assert_eq!(props.manufacturer_data.len(), 1);
    assert_eq!(props.manufacturer_data.get(&2), Some(&vec![2]));
}

#[test]
fn empty_name_does_not_clear_the_name() {
    let mut p = Peripheral::new(ADDR);
    p.update_properties(&AdvertisementReport {
        local_name: Some("Sensor".to_string()),
        tx_power_level: Some(-8),
        ..empty_report()
    });
    p.update_properties(&AdvertisementReport { local_name: Some(String::new()), ..empty_report() });
    let props = p.properties().unwrap();
    assert_eq!(props.local_name, Some("Sensor".to_string()));
    assert_eq!(props.tx_power_level, Some(-8));
    assert_eq!(props.address, ADDR);
    assert!(props.address_type.is_none());
}

#[test]
fn events_follow_the_categories_of_the_report() {
    let mut p = Peripheral::new(ADDR);
    let report = AdvertisementReport {
        manufacturer_data: Some(vec![ManufacturerEntry { company_id: 5, data: vec![1] }]),
        data_sections: Some(vec![DataSection {
            data_type: SERVICE_DATA_16_BIT_UUID,
            data: vec![0x0D, 0x18, 0x01, 0x02],
        }]),
        service_uuids: Some(vec![10]),
        ..empty_report()
    };
    let events = p.update_properties(&report);
    assert_eq!(events.len(), 3);
    assert!(matches!(&events[0], CentralEvent::ManufacturerDataAdvertisement { address, manufacturer_data }
        if *address == ADDR && manufacturer_data.get(&5) == Some(&vec![1])));
    assert!(matches!(&events[1], CentralEvent::ServiceDataAdvertisement { address, service_data }
        if *address == ADDR && service_data.len() == 1));
    assert!(matches!(&events[2], CentralEvent::ServicesAdvertisement { address, services }
        if *address == ADDR && *services == vec![10]));
    // Known services are not announced again.
    let again = p.update_properties(&services_report(vec![10]));
    assert!(again.is_empty());
    let more = p.update_properties(&services_report(vec![10, 11]));
    assert_eq!(more.len(), 1);
}

#[test]
fn gatt_operations_need_a_connection() {
    let p = Peripheral::new(ADDR);
    let c = Characteristic { uuid: 42, properties: 0 };
    assert_eq!(p.read(&c).unwrap_err(), Error::NotConnected);
    assert_eq!(p.write(&c, &vec![1], WriteType::WithResponse).unwrap_err(), Error::NotConnected);
    assert_eq!(p.subscribe(&c).unwrap_err(), Error::NotConnected);
    assert_eq!(p.unsubscribe(&c).unwrap_err(), Error::NotConnected);
    let mut p = p;
    assert_eq!(p.discover_characteristics(&vec![c]).unwrap_err(), Error::NotConnected);
    assert!(p.characteristics().is_empty());
}

#[test]
fn undiscovered_characteristic_is_not_supported() {
    let p = connected_peripheral();
    let c = Characteristic { uuid: 42, properties: 0 };
    assert_eq!(p.write(&c, &vec![1], WriteType::WithoutResponse).unwrap_err(), Error::NotSupported(Operation::Write));
    assert_eq!(p.read(&c).unwrap_err(), Error::NotSupported(Operation::Read));
    assert_eq!(p.subscribe(&c).unwrap_err(), Error::NotSupported(Operation::Subscribe));
    assert_eq!(p.unsubscribe(&c).unwrap_err(), Error::NotSupported(Operation::Unsubscribe));
}

#[test]
fn discovery_keeps_the_first_entry() {
    let mut p = connected_peripheral();
    let first = Characteristic { uuid: 42, properties: 0x02 };
    let second = Characteristic { uuid: 42, properties: 0x08 };
    let other = Characteristic { uuid: 7, properties: 0x10 };
    let found = p.discover_characteristics(&vec![first, other]).unwrap();
    assert_eq!(found, vec![first, other]);
    p.discover_characteristics(&vec![second]).unwrap();
    let mut cached = p.characteristics();
    cached.sort_by_key(|c| c.uuid);
    assert_eq!(cached, vec![other, first]);
    match p.write(&second, &vec![5, 6], WriteType::WithResponse).unwrap() {
        GattRequest::Write { characteristic, data, write_type } => {
            assert_eq!(characteristic, first);
            assert_eq!(data, vec![5, 6]);
            assert_eq!(write_type, WriteType::WithResponse);
        }
        other => panic!("unexpected request {:?}", other),
    }
    assert!(matches!(p.read(&first).unwrap(), GattRequest::Read(c) if c == first));
    assert!(matches!(p.subscribe(&other).unwrap(), GattRequest::Subscribe(c) if c == other));
}

#[test]
fn disconnect_releases_the_connection() {
    let mut p = connected_peripheral();
    let c = Characteristic { uuid: 42, properties: 0 };
    p.discover_characteristics(&vec![c]).unwrap();
    assert!(matches!(p.disconnect(), CentralEvent::DeviceDisconnected(a) if a == ADDR));
    assert!(!p.is_connected());
    assert_eq!(p.read(&c).unwrap_err(), Error::NotConnected);
    // Disconnecting again is harmless and announced again.
    assert!(matches!(p.disconnect(), CentralEvent::DeviceDisconnected(a) if a == ADDR));
    // The cache outlives the connection.
    assert_eq!(p.characteristics(), vec![c]);
}

#[test]
fn failed_connect_announces_nothing() {
    let mut p = Peripheral::new(ADDR);
    assert!(p.connect(false).is_none());
    assert!(!p.is_connected());
}

#[test]
fn transport_reported_disconnect_is_announced() {
    let mut p = connected_peripheral();
    assert!(p.connection_state_changed(true).is_none());
    assert!(p.is_connected());
    assert!(matches!(p.connection_state_changed(false), Some(CentralEvent::DeviceDisconnected(a)) if a == ADDR));
    assert!(!p.is_connected());
}

#[test]
fn notifications_reach_readers_attached_before() {
    let mut p = Peripheral::new(ADDR);
    p.publish_notification(1, vec![0]);
    let mut early = p.notifications();
    let mut second = p.notifications();
    p.publish_notification(42, vec![9, 9]);
    let v = early.try_recv().unwrap();
    assert_eq!(v.uuid, 42);
    assert_eq!(v.value, vec![9, 9]);
    assert_eq!(second.try_recv().unwrap().uuid, 42);
    assert!(early.try_recv().is_err());
}

#[test]
fn report_well_formedness_checks_every_section() {
    let good = AdvertisementReport {
        data_sections: Some(vec![DataSection { data_type: SERVICE_DATA_16_BIT_UUID, data: vec![1, 2] }]),
        ..empty_report()
    };
    let bad = AdvertisementReport {
        data_sections: Some(vec![
            DataSection { data_type: SERVICE_DATA_16_BIT_UUID, data: vec![1, 2] },
            DataSection { data_type: SERVICE_DATA_16_BIT_UUID, data: vec![1] },
        ]),
        ..empty_report()
    };
    assert!(report_is_well_formed(&good));
    assert!(!report_is_well_formed(&bad));
    assert!(report_is_well_formed(&empty_report()));
}
