use btleplug::advertisement::{
    decode_manufacturer_data, decode_service_data, decode_service_data_section,
    section_is_well_formed, uuid_from_u16,
    uuid_from_u32, DataSection, ManufacturerEntry, SERVICE_DATA_128_BIT_UUID,
    SERVICE_DATA_16_BIT_UUID, SERVICE_DATA_32_BIT_UUID,
};

const HEART_RATE: u128 = 0x0000180d_0000_1000_8000_00805f9b34fb;

#[test]
fn short_uuids_expand_into_the_base_uuid() {
    assert_eq!(uuid_from_u16(0x180D), HEART_RATE);
    assert_eq!(uuid_from_u32(0x1234_5678), 0x12345678_0000_1000_8000_00805f9b34fb);
    assert_eq!(uuid_from_u16(0), 0x00000000_0000_1000_8000_00805f9b34fb);
}

#[test]
fn sixteen_bit_section_splits_uuid_and_payload() {
    let section = DataSection { data_type: SERVICE_DATA_16_BIT_UUID, data: vec![0x0D, 0x18, 0x01, 0x02] };
    let (uuid, payload) = decode_service_data_section(&section).unwrap();
    assert_eq!(uuid, HEART_RATE);
    assert_eq!(payload, vec![0x01, 0x02]);
}

#[test]
fn thirty_two_bit_section_reads_little_endian() {
    let section = DataSection {
        data_type: SERVICE_DATA_32_BIT_UUID,
        data: vec![0x78, 0x56, 0x34, 0x12, 0xAA],
    };
    let (uuid, payload) = decode_service_data_section(&section).unwrap();
    assert_eq!(uuid, 0x12345678_0000_1000_8000_00805f9b34fb);
    assert_eq!(payload, vec![0xAA]);
}

#[test]
fn full_uuid_section_reverses_wire_order() {
    let mut data: Vec<u8> = (0u8..16).collect();
    data.push(9);
    let section = DataSection { data_type: SERVICE_DATA_128_BIT_UUID, data };
    let (uuid, payload) = decode_service_data_section(&section).unwrap();
    assert_eq!(uuid, 0x0f0e0d0c_0b0a_0908_0706_050403020100);
    assert_eq!(payload, vec![9]);
}

#[test]
fn full_uuid_section_is_little_endian() {
    let mut data = vec![0u8; 15];
    data.push(0x01);
    let section = DataSection { data_type: SERVICE_DATA_128_BIT_UUID, data };
    let (uuid, payload) = decode_service_data_section(&section).unwrap();
    assert_eq!(uuid, 1u128 << 120);
    assert!(payload.is_empty());
    let mut data = vec![0xFF; 16];
    data[0] = 0x01;
    let section = DataSection { data_type: SERVICE_DATA_128_BIT_UUID, data };
    assert_eq!(decode_service_data_section(&section).unwrap().0, u128::MAX - 0xFE);
}

#[test]
fn section_of_exact_prefix_length_has_empty_payload() {
    let section = DataSection { data_type: SERVICE_DATA_16_BIT_UUID, data: vec![0x0D, 0x18] };
    let (uuid, payload) = decode_service_data_section(&section).unwrap();
    assert_eq!(uuid, HEART_RATE);
    assert!(payload.is_empty());
}

#[test]
fn unknown_wire_type_is_skipped() {
    let section = DataSection { data_type: 0xFF, data: vec![1, 2, 3] };
    assert!(decode_service_data_section(&section).is_none());
    let sections = vec![
        DataSection { data_type: 0x09, data: vec![0x41] },
        DataSection { data_type: SERVICE_DATA_16_BIT_UUID, data: vec![0x0D, 0x18, 0x07] },
    ];
    let map = decode_service_data(&sections);
    assert_eq!(map.len(), 1);
    assert_eq!(map.get(&HEART_RATE), Some(&vec![0x07]));
}

#[test]
fn later_service_data_for_same_uuid_wins() {
    let sections = vec![
        DataSection { data_type: SERVICE_DATA_16_BIT_UUID, data: vec![0x0D, 0x18, 0x01] },
        DataSection { data_type: SERVICE_DATA_16_BIT_UUID, data: vec![0x0D, 0x18, 0x02] },
    ];
    let map = decode_service_data(&sections);
    assert_eq!(map.len(), 1);
    assert_eq!(map.get(&HEART_RATE), Some(&vec![0x02]));
}

#[test]
fn manufacturer_entries_become_a_map() {
    let entries = vec![
        ManufacturerEntry { company_id: 0x004C, data: vec![1, 2] },
        ManufacturerEntry { company_id: 0x0006, data: vec![3] },
        ManufacturerEntry { company_id: 0x004C, data: vec![4] },
    ];
    let map = decode_manufacturer_data(&entries);
    assert_eq!(map.len(), 2);
    assert_eq!(map.get(&0x004C), Some(&vec![4]));
    assert_eq!(map.get(&0x0006), Some(&vec![3]));
    assert!(decode_manufacturer_data(&Vec::new()).is_empty());
}

#[test]
fn short_sections_are_not_well_formed() {
    assert!(!section_is_well_formed(&DataSection { data_type: SERVICE_DATA_16_BIT_UUID, data: vec![1] }));
    assert!(section_is_well_formed(&DataSection { data_type: SERVICE_DATA_16_BIT_UUID, data: vec![1, 2] }));
    assert!(!section_is_well_formed(&DataSection { data_type: SERVICE_DATA_32_BIT_UUID, data: vec![1, 2, 3] }));
    assert!(!section_is_well_formed(&DataSection { data_type: SERVICE_DATA_128_BIT_UUID, data: vec![0; 15] }));
    assert!(section_is_well_formed(&DataSection { data_type: 0x09, data: vec![] }));
}
