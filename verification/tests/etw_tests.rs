use perf_etw_events::etw::{
    check_fetch_status, check_probe_status, parse_event_map_info, DecodingSource, EtwError,
    TraceEventInfoRaw, ERROR_INSUFFICIENT_BUFFER, EVENT_PROPERTY_INFO_SIZE,
    PROPERTY_ARRAY_OFFSET, TRACE_EVENT_INFO_SIZE,
};

fn put_u16(buf: &mut [u8], off: usize, v: u16) {
    buf[off..off + 2].copy_from_slice(&v.to_le_bytes());
}

fn put_u32(buf: &mut [u8], off: usize, v: u32) {
    buf[off..off + 4].copy_from_slice(&v.to_le_bytes());
}

fn put_utf16(buf: &mut [u8], off: usize, s: &str) {
    let mut p = off;
    for unit in s.encode_utf16() {
        buf[p..p + 2].copy_from_slice(&unit.to_le_bytes());
        p += 2;
    }
    buf[p..p + 2].copy_from_slice(&0u16.to_le_bytes());
}

#[test]
fn provider_name_from_offset() {
    let mut buf = vec![0u8; 200];
    put_u32(&mut buf, 52, 144); // ProviderNameOffset
    put_utf16(&mut buf, 144, "MyProv");
    let info = TraceEventInfoRaw::from_bytes(buf);
    assert_eq!(info.provider_name(), "MyProv");
}

#[test]
fn task_name_from_offset() {
    let mut buf = vec![0u8; 200];
    put_u32(&mut buf, 68, 150);
    put_utf16(&mut buf, 150, "SomeTask");
    let info = TraceEventInfoRaw::from_bytes(buf);
    assert_eq!(info.task_name(), "SomeTask");
}

#[test]
fn opcode_name_zero_offset_is_empty() {
    let buf = vec![0u8; TRACE_EVENT_INFO_SIZE];
    let info = TraceEventInfoRaw::from_bytes(buf);
    assert_eq!(info.opcode_name(), "");
}

#[test]
fn opcode_name_nonzero_offset() {
    let mut buf = vec![0u8; 200];
    put_u32(&mut buf, 72, 160);
    put_utf16(&mut buf, 160, "Stop");
    let info = TraceEventInfoRaw::from_bytes(buf);
    assert_eq!(info.opcode_name(), "Stop");
}

#[test]
fn header_fields() {
    let mut buf = vec![0u8; TRACE_EVENT_INFO_SIZE];
    put_u32(&mut buf, 0, 0xaabbccdd); // guid data1
    put_u16(&mut buf, 4, 0x1122); // guid data2
    put_u16(&mut buf, 6, 0x3344); // guid data3
    for (i, b) in (0x50u8..0x58).enumerate() {
        buf[8 + i] = b; // guid data4
    }
    put_u16(&mut buf, 32, 77); // event id
    buf[34] = 3; // version
    buf[36] = 4; // level
    buf[37] = 2; // opcode
    put_u32(&mut buf, 48, 1); // decoding source: Wbem
    put_u32(&mut buf, 100, 5); // property count
    let info = TraceEventInfoRaw::from_bytes(buf);
    let guid = info.provider_guid();
    assert_eq!(guid.data1, 0xaabbccdd);
    assert_eq!(guid.data2, 0x1122);
    assert_eq!(guid.data3, 0x3344);
    assert_eq!(guid.data4, (0x50u8..0x58).collect::<Vec<u8>>());
    assert_eq!(info.event_id(), 77);
    assert_eq!(info.event_version(), 3);
    assert_eq!(info.level(), 4);
    assert_eq!(info.opcode(), 2);
    assert_eq!(info.decoding_source(), DecodingSource::DecodingSourceWbem);
    assert_eq!(info.property_count(), 5);
}

#[test]
fn decoding_source_mapping() {
    assert_eq!(DecodingSource::from_u32(0), DecodingSource::DecodingSourceXMLFile);
    assert_eq!(DecodingSource::from_u32(2), DecodingSource::DecodingSourceWPP);
    assert_eq!(DecodingSource::from_u32(3), DecodingSource::DecodingSourceTlg);
    assert_eq!(DecodingSource::from_u32(9), DecodingSource::DecodingSourceMax);
}

#[test]
fn property_descriptors_are_one_stride_apart() {
    // Two descriptors and a string pool behind them.
    let len = PROPERTY_ARRAY_OFFSET + 2 * EVENT_PROPERTY_INFO_SIZE + 40;
    let mut buf = vec![0u8; len];
    put_u32(&mut buf, 100, 2); // property count
    let q0 = PROPERTY_ARRAY_OFFSET;
    let q1 = q0 + EVENT_PROPERTY_INFO_SIZE;
    let name0 = q1 + EVENT_PROPERTY_INFO_SIZE;
    let name1 = name0 + 20;
    put_u32(&mut buf, q0, 0x10); // flags
    put_u32(&mut buf, q0 + 4, name0 as u32);
    put_u16(&mut buf, q0 + 8, 7); // in type
    put_u16(&mut buf, q0 + 10, 8); // out type
    put_u32(&mut buf, q0 + 12, 0); // no map
    put_u16(&mut buf, q0 + 16, 1); // count
    put_u16(&mut buf, q0 + 18, 4); // length
    put_u32(&mut buf, q1, 0x20);
    put_u32(&mut buf, q1 + 4, name1 as u32);
    put_u16(&mut buf, q1 + 8, 9);
    put_u16(&mut buf, q1 + 10, 10);
    put_u32(&mut buf, q1 + 12, 0x99);
    put_utf16(&mut buf, name0, "First");
    put_utf16(&mut buf, name1, "Second");
    let info = TraceEventInfoRaw::from_bytes(buf);
    let p0 = info.property(0, None).unwrap();
    let p1 = info.property(1, None).unwrap();
    assert_eq!(p0.name, "First");
    assert_eq!(p0.desc.flags, 0x10);
    assert_eq!(p0.desc.in_type, 7);
    assert_eq!(p0.desc.out_type, 8);
    assert_eq!(p0.desc.count, 1);
    assert_eq!(p0.desc.length, 4);
    assert_eq!(p1.name, "Second");
    assert_eq!(p1.desc.flags, 0x20);
    assert_eq!(p1.desc.in_type, 9);
    assert_eq!(p1.desc.map_name_offset, 0x99);
    assert_eq!(info.map_name_offset(0), Ok(0));
    assert_eq!(info.map_name_offset(1), Ok(0x99));
    // The index must be strictly below the property count.
    assert_eq!(info.property(2, None), Err(EtwError::InvalidPropertyIndex));
}

#[test]
fn value_map_parsing() {
    let mut buf = vec![0u8; 80];
    put_u32(&mut buf, 4, 1); // manifest value map
    put_u32(&mut buf, 8, 2); // two entries
    put_u32(&mut buf, 12, 0); // ULONG values
    put_u32(&mut buf, 16, 48); // entry 0 output offset
    put_u32(&mut buf, 20, 10); // entry 0 value
    put_u32(&mut buf, 24, 60); // entry 1 output offset
    put_u32(&mut buf, 28, 20); // entry 1 value
    put_utf16(&mut buf, 48, "Read");
    put_utf16(&mut buf, 60, "Write");
    let map = parse_event_map_info(&buf).unwrap();
    assert!(!map.is_bitmap);
    assert_eq!(map.entries.len(), 2);
    assert_eq!(map.entries[0], (10, "Read".to_string()));
    assert_eq!(map.entries[1], (20, "Write".to_string()));
    assert_eq!(map.lookup(10), Some(&"Read".to_string()));
    assert_eq!(map.lookup(20), Some(&"Write".to_string()));
    assert_eq!(map.lookup(30), None);
}

#[test]
fn bitmap_flag_is_recorded() {
    let mut buf = vec![0u8; 16];
    put_u32(&mut buf, 4, 2); // manifest bitmap
    put_u32(&mut buf, 8, 0); // no entries
    let map = parse_event_map_info(&buf).unwrap();
    assert!(map.is_bitmap);
    assert!(map.entries.is_empty());
}

#[test]
fn unsupported_maps_are_typed_failures() {
    let mut buf = vec![0u8; 16];
    put_u32(&mut buf, 4, 4); // pattern map: unsupported
    assert_eq!(parse_event_map_info(&buf), Err(EtwError::UnsupportedMapFlag(4)));
    put_u32(&mut buf, 4, 1);
    put_u32(&mut buf, 12, 1); // string values: unsupported
    assert_eq!(parse_event_map_info(&buf), Err(EtwError::UnsupportedValueType(1)));
    assert_eq!(parse_event_map_info(&buf[..8]), Err(EtwError::Truncated));
}

#[test]
fn two_phase_status_checks() {
    assert_eq!(check_probe_status(ERROR_INSUFFICIENT_BUFFER), Ok(()));
    assert_eq!(check_probe_status(0), Err(EtwError::OsCallFailure(0)));
    assert_eq!(check_probe_status(5), Err(EtwError::OsCallFailure(5)));
    assert_eq!(check_fetch_status(0), Ok(()));
    assert_eq!(
        check_fetch_status(ERROR_INSUFFICIENT_BUFFER),
        Err(EtwError::OsCallFailure(ERROR_INSUFFICIENT_BUFFER))
    );
}

#[test]
fn zeroed_buffer_and_set_info() {
    let mut info = TraceEventInfoRaw::zeroed(140);
    assert_eq!(info.as_bytes().len(), 140);
    assert!(info.as_bytes().iter().all(|&b| b == 0));
    let mut filled = vec![0u8; TRACE_EVENT_INFO_SIZE];
    put_u16(&mut filled, 32, 99);
    info.set_info(filled);
    assert_eq!(info.event_id(), 99);
}
