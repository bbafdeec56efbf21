//! Decoding of the raw sections of an advertisement report.
use std::collections::HashMap;
use vstd::prelude::*;

verus! {

broadcast use vstd::std_specs::hash::group_hash_axioms;

/// Wire type of a service-data section prefixed by a 16-bit UUID.
pub const SERVICE_DATA_16_BIT_UUID: u8 = 0x16;

/// Wire type of a service-data section prefixed by a 32-bit UUID.
pub const SERVICE_DATA_32_BIT_UUID: u8 = 0x20;

/// Wire type of a service-data section prefixed by a full 128-bit UUID.
pub const SERVICE_DATA_128_BIT_UUID: u8 = 0x21;

/// The Bluetooth base UUID, `00000000-0000-1000-8000-00805f9b34fb`.
pub const BLUETOOTH_BASE_UUID: u128 = 0x00000000_0000_1000_8000_00805f9b34fb;

/// One raw data section of an advertisement: its wire type and its bytes.
pub struct DataSection {
    pub data_type: u8,
    pub data: Vec<u8>,
}

impl View for DataSection {
    type V = (u8, Seq<u8>);

    open spec fn view(&self) -> (u8, Seq<u8>) {
        (self.data_type, self.data@)
    }
}

/// A raw manufacturer-data entry: company id and payload.
pub struct ManufacturerEntry {
    pub company_id: u16,
    pub data: Vec<u8>,
}

impl View for ManufacturerEntry {
    type V = (u16, Seq<u8>);

    open spec fn view(&self) -> (u16, Seq<u8>) {
        (self.company_id, self.data@)
    }
}

/// A map whose values are byte vectors, seen through the values' contents.
pub open spec fn bytes_view<K>(m: Map<K, Vec<u8>>) -> Map<K, Seq<u8>> {
    m.map_values(|v: Vec<u8>| v@)
}

/// The map that collecting `(key, payload)` pairs in order produces:
/// a later pair with the same key replaces an earlier one.
pub open spec fn entries_map<K>(s: Seq<(K, Seq<u8>)>) -> Map<K, Seq<u8>>
    decreases s.len(),
{
    if s.len() == 0 {
        Map::empty()
    } else {
        entries_map(s.drop_last()).insert(s.last().0, s.last().1)
    }
}

/// Value of the first two bytes read least significant first.
pub open spec fn le16(s: Seq<u8>) -> nat {
    (s[0] + 256 * s[1]) as nat
}

/// Value of the first four bytes read least significant first.
pub open spec fn le32(s: Seq<u8>) -> nat {
    (s[0] + 256 * s[1] + 65536 * s[2] + 16777216 * s[3]) as nat
}

/// Value of the first sixteen bytes read least significant first.
pub open spec fn le128(s: Seq<u8>) -> nat {
    (s[0] + 0x100 * s[1] + 0x1_0000 * s[2] + 0x100_0000 * s[3] + 0x1_0000_0000 * s[4]
        + 0x100_0000_0000 * s[5] + 0x1_0000_0000_0000 * s[6] + 0x100_0000_0000_0000 * s[7]
        + 0x1_0000_0000_0000_0000 * s[8] + 0x100_0000_0000_0000_0000 * s[9]
        + 0x1_0000_0000_0000_0000_0000 * s[10] + 0x100_0000_0000_0000_0000_0000 * s[11]
        + 0x1_0000_0000_0000_0000_0000_0000 * s[12] + 0x100_0000_0000_0000_0000_0000_0000 * s[13]
        + 0x1_0000_0000_0000_0000_0000_0000_0000 * s[14]
        + 0x100_0000_0000_0000_0000_0000_0000_0000 * s[15]) as nat
}

/// A short (16- or 32-bit) UUID expanded into the Bluetooth base UUID.
pub open spec fn expand_short_uuid(short: nat) -> int {
    short * 0x1_0000_0000_0000_0000_0000_0000 + BLUETOOTH_BASE_UUID
}

/// Length of the UUID prefix for a recognised wire type, 0 otherwise.
pub open spec fn prefix_len(data_type: u8) -> nat {
    if data_type == SERVICE_DATA_16_BIT_UUID {
        2
    } else if data_type == SERVICE_DATA_32_BIT_UUID {
        4
    } else if data_type == SERVICE_DATA_128_BIT_UUID {
        16
    } else {
        0
    }
}

/// A section is well formed when it is at least as long as its UUID prefix.
pub open spec fn section_well_formed(sec: (u8, Seq<u8>)) -> bool {
    sec.1.len() >= prefix_len(sec.0)
}

/// The (UUID, payload) pair that a service-data section carries, or nothing
/// for a wire type that is not service data.
pub open spec fn decode_section(sec: (u8, Seq<u8>)) -> Option<(u128, Seq<u8>)> {
    let (t, d) = sec;
    if t == SERVICE_DATA_16_BIT_UUID {
        Some((expand_short_uuid(le16(d)) as u128, d.subrange(2, d.len() as int)))
    } else if t == SERVICE_DATA_32_BIT_UUID {
        Some((expand_short_uuid(le32(d)) as u128, d.subrange(4, d.len() as int)))
    } else if t == SERVICE_DATA_128_BIT_UUID {
        Some((le128(d) as u128, d.subrange(16, d.len() as int)))
    } else {
        None
    }
}

/// The service-data map of a list of sections: each recognised section in
/// order, a later one replacing an earlier one with the same UUID.
pub open spec fn service_data_map(s: Seq<(u8, Seq<u8>)>) -> Map<u128, Seq<u8>>
    decreases s.len(),
{
    if s.len() == 0 {
        Map::empty()
    } else {
        let m = service_data_map(s.drop_last());
        match decode_section(s.last()) {
            Some(p) => m.insert(p.0, p.1),
            None => m,
        }
    }
}

pub open spec fn sections_view(v: Seq<DataSection>) -> Seq<(u8, Seq<u8>)> {
    v.map_values(|d: DataSection| d@)
}

pub open spec fn entries_view(v: Seq<ManufacturerEntry>) -> Seq<(u16, Seq<u8>)> {
    v.map_values(|e: ManufacturerEntry| e@)
}

/// Expands a 16-bit UUID into the Bluetooth base UUID.
pub fn uuid_from_u16(short: u16) -> (r: u128)
    ensures
        r as int == expand_short_uuid(short as nat),
{
    (short as u128) * 0x1_0000_0000_0000_0000_0000_0000u128 + BLUETOOTH_BASE_UUID
}

/// Expands a 32-bit UUID into the Bluetooth base UUID.
pub fn uuid_from_u32(short: u32) -> (r: u128)
    ensures
        r as int == expand_short_uuid(short as nat),
{
    (short as u128) * 0x1_0000_0000_0000_0000_0000_0000u128 + BLUETOOTH_BASE_UUID
}

/// The UUID of a 128-bit prefix, read least significant byte first.
fn uuid_from_le_bytes(d: &Vec<u8>) -> (r: u128)
    requires
        d@.len() >= 16,
    ensures
        r as nat == le128(d@),
{
    (d[0] as u128) + 0x100 * (d[1] as u128) + 0x1_0000 * (d[2] as u128) + 0x100_0000 * (
    d[3] as u128) + 0x1_0000_0000 * (d[4] as u128) + 0x100_0000_0000 * (d[5] as u128)
        + 0x1_0000_0000_0000 * (d[6] as u128) + 0x100_0000_0000_0000 * (d[7] as u128)
        + 0x1_0000_0000_0000_0000 * (d[8] as u128) + 0x100_0000_0000_0000_0000 * (d[9] as u128)
        + 0x1_0000_0000_0000_0000_0000 * (d[10] as u128) + 0x100_0000_0000_0000_0000_0000 * (
    d[11] as u128) + 0x1_0000_0000_0000_0000_0000_0000 * (d[12] as u128)
        + 0x100_0000_0000_0000_0000_0000_0000 * (d[13] as u128)
        + 0x1_0000_0000_0000_0000_0000_0000_0000 * (d[14] as u128)
        + 0x100_0000_0000_0000_0000_0000_0000_0000 * (d[15] as u128)
}

/// Whether a section is at least as long as the UUID prefix of its type.
pub fn section_is_well_formed(section: &DataSection) -> (r: bool)
    ensures
        r == section_well_formed(section@),
{
    let n = section.data.len();
    if section.data_type == SERVICE_DATA_16_BIT_UUID {
        n >= 2
    } else if section.data_type == SERVICE_DATA_32_BIT_UUID {
        n >= 4
    } else if section.data_type == SERVICE_DATA_128_BIT_UUID {
        n >= 16
    } else {
        true
    }
}

/// The bytes of `data` from `start` to `end`.
fn copy_range(data: &Vec<u8>, start: usize, end: usize) -> (r: Vec<u8>)
    requires
        start <= end <= data@.len(),
    ensures
        r@ == data@.subrange(start as int, end as int),
{
    let mut r: Vec<u8> = Vec::new();
    let mut i: usize = start;
    while i < end
        invariant
            start <= i <= end <= data@.len(),
            r@ == data@.subrange(start as int, i as int),
        decreases end - i,
    {
        r.push(data[i]);
        i = i + 1;
        assert(r@ =~= data@.subrange(start as int, i as int));
    }
    r
}

/// Splits one data section into its expanded service UUID and its payload.
/// Sections of any other wire type give `None`.
pub fn decode_service_data_section(section: &DataSection) -> (r: Option<(u128, Vec<u8>)>)
    requires
        section_well_formed(section@),
    ensures
        match (r, decode_section(section@)) {
            (Some(x), Some(y)) => x.0 == y.0 && x.1@ == y.1,
            (None, None) => true,
            _ => false,
        },
{
    let d = &section.data;
    let n = d.len();
    if section.data_type == SERVICE_DATA_16_BIT_UUID {
        let short: u16 = (d[0] as u16) + 256 * (d[1] as u16);
        Some((uuid_from_u16(short), copy_range(d, 2, n)))
    } else if section.data_type == SERVICE_DATA_32_BIT_UUID {
        let short: u32 = (d[0] as u32) + 256 * (d[1] as u32) + 65536 * (d[2] as u32) + 16777216
            * (d[3] as u32);
        Some((uuid_from_u32(short), copy_range(d, 4, n)))
    } else if section.data_type == SERVICE_DATA_128_BIT_UUID {
        Some((uuid_from_le_bytes(d), copy_range(d, 16, n)))
    } else {
        None
    }
}

/// Decodes every service-data section of a report into a map from service
/// UUID to payload; sections of other wire types are skipped.
pub fn decode_service_data(sections: &Vec<DataSection>) -> (r: HashMap<u128, Vec<u8>>)
    requires
        forall|i: int| 0 <= i < sections@.len() ==> section_well_formed(#[trigger] sections@[i]@),
    ensures
        bytes_view(r@) == service_data_map(sections_view(sections@)),
{
    let ghost sv = sections_view(sections@);
    let mut m: HashMap<u128, Vec<u8>> = HashMap::new();
    let mut i: usize = 0;
    while i < sections.len()
        invariant
            i <= sections@.len(),
            sv == sections_view(sections@),
            forall|j: int| 0 <= j < sections@.len() ==> section_well_formed(#[trigger] sections@[j]@),
            bytes_view(m@) == service_data_map(sv.take(i as int)),
        decreases sections@.len() - i,
    {
        assert(sv.take(i + 1).drop_last() =~= sv.take(i as int));
        assert(sv.take(i + 1).last() == sections@[i as int]@);
        match decode_service_data_section(&sections[i]) {
            Some(p) => {
                let (uuid, payload) = p;
                assert(bytes_view(m@.insert(uuid, payload)) =~= bytes_view(m@).insert(uuid, payload@));
                m.insert(uuid, payload);
            },
            None => {},
        }
        i = i + 1;
    }
    assert(sv.take(sections@.len() as int) =~= sv);
    m
}

/// Collects manufacturer-data entries into a map from company id to payload.
pub fn decode_manufacturer_data(entries: &Vec<ManufacturerEntry>) -> (r: HashMap<u16, Vec<u8>>)
    ensures
        bytes_view(r@) == entries_map(entries_view(entries@)),
{
    let ghost ev = entries_view(entries@);
    let mut m: HashMap<u16, Vec<u8>> = HashMap::new();
    let mut i: usize = 0;
    while i < entries.len()
        invariant
            i <= entries@.len(),
            ev == entries_view(entries@),
            bytes_view(m@) == entries_map(ev.take(i as int)),
        decreases entries@.len() - i,
    {
        assert(ev.take(i + 1).drop_last() =~= ev.take(i as int));
        let e = &entries[i];
        let payload = copy_range(&e.data, 0, e.data.len());
        assert(e.data@.subrange(0, e.data@.len() as int) =~= e.data@);
        assert(bytes_view(m@.insert(e.company_id, payload)) =~= bytes_view(m@).insert(e.company_id, payload@));
        m.insert(e.company_id, payload);
        i = i + 1;
    }
    assert(ev.take(entries@.len() as int) =~= ev);
    m
}

} // verus!
