use perf_etw_events::byteread::Endian;
use perf_etw_events::hexfmt::hex_string;
use perf_etw_events::dso_key::DsoKey;
use perf_etw_events::perf_event::{
    ContextSwitchKind, Event, Mmap2FileId, ParseError, RawEvent, Regs,
};
use perf_etw_events::perf_event_raw::{
    PERF_FORMAT_GROUP, PERF_FORMAT_ID, PERF_FORMAT_TOTAL_TIME_ENABLED,
    PERF_FORMAT_TOTAL_TIME_RUNNING, PERF_RECORD_COMM, PERF_RECORD_EXIT, PERF_RECORD_FORK,
    PERF_RECORD_LOST, PERF_RECORD_MMAP, PERF_RECORD_MMAP2, PERF_RECORD_MISC_COMM_EXEC,
    PERF_RECORD_MISC_MMAP_BUILD_ID, PERF_RECORD_MISC_SWITCH_OUT,
    PERF_RECORD_MISC_SWITCH_OUT_PREEMPT, PERF_RECORD_MISC_USER, PERF_RECORD_SAMPLE,
    PERF_RECORD_SWITCH, PERF_RECORD_THROTTLE, PERF_RECORD_UNTHROTTLE, PERF_SAMPLE_ADDR,
    PERF_SAMPLE_AUX, PERF_SAMPLE_BRANCH_STACK, PERF_SAMPLE_CALLCHAIN, PERF_SAMPLE_CODE_PAGE_SIZE,
    PERF_SAMPLE_CPU, PERF_SAMPLE_DATA_PAGE_SIZE, PERF_SAMPLE_DATA_SRC, PERF_SAMPLE_ID,
    PERF_SAMPLE_IDENTIFIER, PERF_SAMPLE_IP, PERF_SAMPLE_PERIOD, PERF_SAMPLE_PHYS_ADDR,
    PERF_SAMPLE_RAW, PERF_SAMPLE_STREAM_ID, PERF_SAMPLE_READ, PERF_SAMPLE_REGS_INTR, PERF_SAMPLE_REGS_USER,
    PERF_SAMPLE_STACK_USER, PERF_SAMPLE_TID, PERF_SAMPLE_TIME, PERF_SAMPLE_TRANSACTION,
    PERF_SAMPLE_WEIGHT,
};
use perf_etw_events::raw_data::{RawData, RawRegs};

fn le32(v: u32) -> [u8; 4] {
    v.to_le_bytes()
}

fn le64(v: u64) -> [u8; 8] {
    v.to_le_bytes()
}

fn parse(kind: u32, misc: u16, body: &[u8]) -> Result<Event<'_>, ParseError> {
    let ev = RawEvent {
        kind,
        misc,
        data: RawData::new(body),
    };
    ev.parse(Endian::Little, 0, 0, 0, 0, false)
}

#[test]
fn fork_record() {
    let body: Vec<u8> = [
        le32(1).as_slice(),
        le32(2).as_slice(),
        le32(3).as_slice(),
        le32(4).as_slice(),
        le64(16).as_slice(),
    ]
    .concat();
    match parse(PERF_RECORD_FORK, 0, &body).unwrap() {
        Event::Fork(p) => {
            assert_eq!(p.pid, 1);
            assert_eq!(p.ppid, 2);
            assert_eq!(p.tid, 3);
            assert_eq!(p.ptid, 4);
            assert_eq!(p.timestamp, 16);
        }
        other => panic!("expected a fork event, got {other:?}"),
    }
}

#[test]
fn exit_record_and_truncation() {
    let body: Vec<u8> = [
        le32(9).as_slice(),
        le32(8).as_slice(),
        le32(7).as_slice(),
        le32(6).as_slice(),
        le64(5).as_slice(),
    ]
    .concat();
    match parse(PERF_RECORD_EXIT, 0, &body).unwrap() {
        Event::Exit(p) => {
            assert_eq!((p.pid, p.ppid, p.tid, p.ptid, p.timestamp), (9, 8, 7, 6, 5));
        }
        other => panic!("expected an exit event, got {other:?}"),
    }
    assert!(matches!(
        parse(PERF_RECORD_EXIT, 0, &body[..23]),
        Err(ParseError::Truncated)
    ));
}

#[test]
fn comm_execve_nul_trimming() {
    let mut body: Vec<u8> = [le32(7).as_slice(), le32(8).as_slice()].concat();
    body.extend_from_slice(b"bash\x00\x99");
    match parse(PERF_RECORD_COMM, PERF_RECORD_MISC_COMM_EXEC, &body).unwrap() {
        Event::Comm(c) => {
            assert_eq!(c.pid, 7);
            assert_eq!(c.tid, 8);
            assert_eq!(c.name, b"bash".to_vec());
            assert!(c.is_execve);
        }
        other => panic!("expected a comm event, got {other:?}"),
    }
}

#[test]
fn comm_name_stops_at_first_nul() {
    let mut body: Vec<u8> = [le32(1).as_slice(), le32(1).as_slice()].concat();
    body.extend_from_slice(b"abc\x00defgh");
    match parse(PERF_RECORD_COMM, 0, &body).unwrap() {
        Event::Comm(c) => {
            assert_eq!(c.name, b"abc".to_vec());
            assert!(!c.is_execve);
        }
        other => panic!("expected a comm event, got {other:?}"),
    }
}

#[test]
fn mmap_user_record() {
    let mut body: Vec<u8> = [
        le32(100).as_slice(),
        le32(100).as_slice(),
        le64(0x400000).as_slice(),
        le64(0x1000).as_slice(),
        le64(0).as_slice(),
    ]
    .concat();
    body.extend_from_slice(b"/usr/bin/ls\x00");
    match parse(PERF_RECORD_MMAP, PERF_RECORD_MISC_USER, &body).unwrap() {
        Event::Mmap(m) => {
            assert_eq!(m.pid, 100);
            assert_eq!(m.tid, 100);
            assert_eq!(m.address, 0x400000);
            assert_eq!(m.length, 0x1000);
            assert_eq!(m.page_offset, 0);
            assert!(m.is_executable);
            assert_eq!(
                m.dso_key,
                Some(DsoKey::User("ls".to_string(), b"/usr/bin/ls".to_vec()))
            );
            assert_eq!(m.path, b"/usr/bin/ls".to_vec());
        }
        other => panic!("expected an mmap event, got {other:?}"),
    }
}

#[test]
fn mmap2_build_id_consumes_twenty_bytes() {
    let mut body: Vec<u8> = [
        le32(1).as_slice(),
        le32(2).as_slice(),
        le64(0x1000).as_slice(),
        le64(0x2000).as_slice(),
        le64(0).as_slice(),
    ]
    .concat();
    // File-id region: length 3, three reserved bytes, then a 20-byte area of
    // which only the first three are the identifier.
    body.push(3);
    body.extend_from_slice(&[0, 0, 0]);
    body.extend_from_slice(&[0xaa, 0xbb, 0xcc]);
    body.extend_from_slice(&[0x11; 17]);
    body.extend_from_slice(&le32(5)); // protection
    body.extend_from_slice(&le32(6)); // flags
    body.extend_from_slice(b"/x\x00");
    match parse(PERF_RECORD_MMAP2, PERF_RECORD_MISC_MMAP_BUILD_ID | PERF_RECORD_MISC_USER, &body)
        .unwrap()
    {
        Event::Mmap2(m) => {
            assert_eq!(m.file_id, Mmap2FileId::BuildId(vec![0xaa, 0xbb, 0xcc]));
            assert_eq!(m.protection, 5);
            assert_eq!(m.flags, 6);
            assert_eq!(m.path, b"/x".to_vec());
        }
        other => panic!("expected an mmap2 event, got {other:?}"),
    }
}

#[test]
fn mmap2_oversized_build_id_is_rejected() {
    let mut body: Vec<u8> = [
        le32(1).as_slice(),
        le32(2).as_slice(),
        le64(0).as_slice(),
        le64(0).as_slice(),
        le64(0).as_slice(),
    ]
    .concat();
    body.push(21);
    body.extend_from_slice(&[0; 31]);
    body.push(0);
    assert!(matches!(
        parse(PERF_RECORD_MMAP2, PERF_RECORD_MISC_MMAP_BUILD_ID, &body),
        Err(ParseError::InvalidBuildIdLength)
    ));
}

#[test]
fn mmap2_inode_record() {
    let mut body: Vec<u8> = [
        le32(1).as_slice(),
        le32(2).as_slice(),
        le64(0x7000).as_slice(),
        le64(0x100).as_slice(),
        le64(0x200).as_slice(),
        le32(8).as_slice(),
        le32(9).as_slice(),
        le64(1234).as_slice(),
        le64(5678).as_slice(),
        le32(7).as_slice(),
        le32(2).as_slice(),
    ]
    .concat();
    body.extend_from_slice(b"/usr/lib/libc.so\x00");
    match parse(PERF_RECORD_MMAP2, PERF_RECORD_MISC_USER, &body).unwrap() {
        Event::Mmap2(m) => match m.file_id {
            Mmap2FileId::InodeAndVersion(v) => {
                assert_eq!(v.major, 8);
                assert_eq!(v.minor, 9);
                assert_eq!(v.inode, 1234);
                assert_eq!(v.inode_generation, 5678);
            }
            other => panic!("expected an inode file id, got {other:?}"),
        },
        other => panic!("expected an mmap2 event, got {other:?}"),
    }
}

#[test]
fn lost_and_throttle_records() {
    let body: Vec<u8> = [le64(11).as_slice(), le64(22).as_slice()].concat();
    match parse(PERF_RECORD_LOST, 0, &body).unwrap() {
        Event::Lost(l) => {
            assert_eq!(l.id, 11);
            assert_eq!(l.count, 22);
        }
        other => panic!("expected a lost event, got {other:?}"),
    }
    match parse(PERF_RECORD_THROTTLE, 0, &body).unwrap() {
        Event::Throttle(t) => {
            assert_eq!(t.timestamp, 11);
            assert_eq!(t.id, 22);
        }
        other => panic!("expected a throttle event, got {other:?}"),
    }
    match parse(PERF_RECORD_UNTHROTTLE, 0, &body).unwrap() {
        Event::Unthrottle(t) => {
            assert_eq!(t.timestamp, 11);
            assert_eq!(t.id, 22);
        }
        other => panic!("expected an unthrottle event, got {other:?}"),
    }
}

#[test]
fn switch_kinds_from_misc() {
    let kind = |misc: u16| match parse(PERF_RECORD_SWITCH, misc, &[]).unwrap() {
        Event::ContextSwitch(k) => k,
        other => panic!("expected a context switch, got {other:?}"),
    };
    assert_eq!(kind(0), ContextSwitchKind::In);
    assert_eq!(kind(PERF_RECORD_MISC_SWITCH_OUT), ContextSwitchKind::OutWhileIdle);
    assert_eq!(
        kind(PERF_RECORD_MISC_SWITCH_OUT | PERF_RECORD_MISC_SWITCH_OUT_PREEMPT),
        ContextSwitchKind::OutWhileRunning
    );
}

#[test]
fn unknown_kind_passes_through_raw() {
    let body = [1u8, 2, 3];
    match parse(0xdead, 5, &body).unwrap() {
        Event::Raw(re) => {
            assert_eq!(re.kind, 0xdead);
            assert_eq!(re.misc, 5);
            assert_eq!(re.data.as_slice(), &body);
        }
        other => panic!("expected a raw event, got {other:?}"),
    }
}

#[test]
fn sample_tid_time_callchain() {
    let body: Vec<u8> = [
        le32(1).as_slice(),
        le32(1).as_slice(),
        le64(42).as_slice(),
        le64(2).as_slice(),
        le64(0xaa).as_slice(),
        le64(0xbb).as_slice(),
    ]
    .concat();
    let ev = RawEvent {
        kind: PERF_RECORD_SAMPLE,
        misc: 0,
        data: RawData::new(&body),
    };
    let st = PERF_SAMPLE_TID | PERF_SAMPLE_TIME | PERF_SAMPLE_CALLCHAIN;
    match ev.parse(Endian::Little, st, 0, 0, 0, false).unwrap() {
        Event::Sample(s) => {
            assert_eq!(s.pid, Some(1));
            assert_eq!(s.tid, Some(1));
            assert_eq!(s.timestamp, Some(42));
            assert_eq!(s.cpu, None);
            assert_eq!(s.period, None);
            assert!(s.regs.is_none());
            assert_eq!(s.callchain, Some(vec![0xaa, 0xbb]));
            assert_eq!(s.dynamic_stack_size, 0);
            assert_eq!(s.stack.len(), 0);
        }
        other => panic!("expected a sample event, got {other:?}"),
    }
}

#[test]
fn sample_stack_and_regs() {
    let mut body: Vec<u8> = Vec::new();
    body.extend_from_slice(&le64(2)); // regs abi (nonzero)
    body.extend_from_slice(&le64(0x1111)); // reg word 0
    body.extend_from_slice(&le64(0x2222)); // reg word 1
    body.extend_from_slice(&le64(8)); // stack size
    body.extend_from_slice(&le64(0xdeadbeef)); // stack bytes
    body.extend_from_slice(&le64(6)); // dynamic stack size
    let ev = RawEvent {
        kind: PERF_RECORD_SAMPLE,
        misc: 0,
        data: RawData::new(&body),
    };
    let st = PERF_SAMPLE_REGS_USER | PERF_SAMPLE_STACK_USER;
    // Mask with bits 0 and 3 set: two sampled registers.
    match ev.parse(Endian::Little, st, 0, 2, 0b1001, false).unwrap() {
        Event::Sample(s) => {
            let regs = s.regs.unwrap();
            assert_eq!(regs.get(0), Some(0x1111));
            assert_eq!(regs.get(1), None);
            assert_eq!(regs.get(3), Some(0x2222));
            assert_eq!(s.dynamic_stack_size, 6);
            assert_eq!(s.stack.len(), 8);
            assert_eq!(s.stack.as_slice(), &le64(0xdeadbeef));
        }
        other => panic!("expected a sample event, got {other:?}"),
    }
}

#[test]
fn sample_truncated_callchain_is_an_error() {
    let body: Vec<u8> = [le64(3).as_slice(), le64(0xaa).as_slice()].concat();
    let ev = RawEvent {
        kind: PERF_RECORD_SAMPLE,
        misc: 0,
        data: RawData::new(&body),
    };
    assert!(matches!(
        ev.parse(Endian::Little, PERF_SAMPLE_CALLCHAIN, 0, 0, 0, false),
        Err(ParseError::Truncated)
    ));
}

#[test]
fn regs_index_is_popcount_below() {
    let words: Vec<u8> = [le64(10).as_slice(), le64(20).as_slice(), le64(30).as_slice()].concat();
    let raw = RawRegs::from_raw_data(RawData::new(&words), Endian::Little);
    // Mask bits 1, 4 and 9 are set.
    let regs = Regs::new((1 << 1) | (1 << 4) | (1 << 9), raw);
    assert_eq!(regs.get(0), None);
    assert_eq!(regs.get(1), Some(10));
    assert_eq!(regs.get(4), Some(20));
    assert_eq!(regs.get(9), Some(30));
    assert_eq!(regs.get(8), None);
}

#[test]
fn big_endian_fields() {
    let body: Vec<u8> = [
        1u32.to_be_bytes().as_slice(),
        2u32.to_be_bytes().as_slice(),
        3u32.to_be_bytes().as_slice(),
        4u32.to_be_bytes().as_slice(),
        16u64.to_be_bytes().as_slice(),
    ]
    .concat();
    let ev = RawEvent {
        kind: PERF_RECORD_FORK,
        misc: 0,
        data: RawData::new(&body),
    };
    match ev.parse(Endian::Big, 0, 0, 0, 0, false).unwrap() {
        Event::Fork(p) => {
            assert_eq!((p.pid, p.ppid, p.tid, p.ptid, p.timestamp), (1, 2, 3, 4, 16));
        }
        other => panic!("expected a fork event, got {other:?}"),
    }
}

#[test]
fn raw_data_clamps_out_of_range() {
    let bytes = [1u8, 2, 3, 4];
    let d = RawData::new(&bytes);
    assert_eq!(d.len(), 4);
    assert_eq!(d.get(1, 3).as_slice(), &[2, 3]);
    assert_eq!(d.get(2, 9).len(), 0);
    assert_eq!(d.get(3, 1).len(), 0);
    assert!(d.get(4, 4).is_empty());
}

#[test]
fn sample_with_every_field_gated_in_order() {
    let mut body: Vec<u8> = Vec::new();
    body.extend_from_slice(&le64(0x01)); // identifier
    body.extend_from_slice(&le64(0x02)); // instruction pointer
    body.extend_from_slice(&le32(5)); // pid
    body.extend_from_slice(&le32(6)); // tid
    body.extend_from_slice(&le64(99)); // time
    body.extend_from_slice(&le64(0x0b)); // addr
    body.extend_from_slice(&le64(0x0c)); // id
    body.extend_from_slice(&le64(0x0d)); // stream id
    body.extend_from_slice(&le32(7)); // cpu
    body.extend_from_slice(&le32(0)); // reserved
    body.extend_from_slice(&le64(1000)); // period
    // Read format, group layout: nr, time_enabled, time_running, then
    // nr value/id pairs.
    body.extend_from_slice(&le64(2));
    body.extend_from_slice(&le64(1));
    body.extend_from_slice(&le64(1));
    body.extend_from_slice(&le64(0x31));
    body.extend_from_slice(&le64(0x32));
    body.extend_from_slice(&le64(0x33));
    body.extend_from_slice(&le64(0x34));
    // Callchain: one address.
    body.extend_from_slice(&le64(1));
    body.extend_from_slice(&le64(0xcc));
    // Raw: three bytes.
    body.extend_from_slice(&le32(3));
    body.extend_from_slice(&[1, 2, 3]);
    // Branch stack: one entry plus the hardware index, whose flag shares the
    // TRANSACTION bit.
    body.extend_from_slice(&le64(1));
    body.extend_from_slice(&le64(0)); // hw index
    body.extend_from_slice(&le64(0x41));
    body.extend_from_slice(&le64(0x42));
    body.extend_from_slice(&le64(0x43));
    // User registers: nonzero abi, one word.
    body.extend_from_slice(&le64(1));
    body.extend_from_slice(&le64(0x77));
    // User stack: four bytes plus the dynamic size.
    body.extend_from_slice(&le64(4));
    body.extend_from_slice(&[9, 9, 9, 9]);
    body.extend_from_slice(&le64(2));
    body.extend_from_slice(&le64(0x51)); // weight
    body.extend_from_slice(&le64(0x52)); // data source
    body.extend_from_slice(&le64(0x53)); // transaction
    body.extend_from_slice(&le64(0)); // intr regs abi: zero, no words
    body.extend_from_slice(&le64(0x54)); // physical address
    body.extend_from_slice(&le64(2)); // aux size
    body.extend_from_slice(&[8, 8]);
    body.extend_from_slice(&le64(0x55)); // data page size
    body.extend_from_slice(&le64(0x56)); // code page size
    let st = PERF_SAMPLE_IDENTIFIER | PERF_SAMPLE_IP | PERF_SAMPLE_TID | PERF_SAMPLE_TIME
        | PERF_SAMPLE_ADDR | PERF_SAMPLE_ID | PERF_SAMPLE_STREAM_ID | PERF_SAMPLE_CPU
        | PERF_SAMPLE_PERIOD | PERF_SAMPLE_READ | PERF_SAMPLE_CALLCHAIN | PERF_SAMPLE_RAW
        | PERF_SAMPLE_BRANCH_STACK | PERF_SAMPLE_REGS_USER | PERF_SAMPLE_STACK_USER
        | PERF_SAMPLE_WEIGHT | PERF_SAMPLE_DATA_SRC | PERF_SAMPLE_TRANSACTION
        | PERF_SAMPLE_REGS_INTR | PERF_SAMPLE_PHYS_ADDR | PERF_SAMPLE_AUX
        | PERF_SAMPLE_DATA_PAGE_SIZE | PERF_SAMPLE_CODE_PAGE_SIZE;
    let rf = PERF_FORMAT_GROUP | PERF_FORMAT_ID | PERF_FORMAT_TOTAL_TIME_ENABLED
        | PERF_FORMAT_TOTAL_TIME_RUNNING;
    let ev = RawEvent {
        kind: PERF_RECORD_SAMPLE,
        misc: 0,
        data: RawData::new(&body),
    };
    match ev.parse(Endian::Little, st, rf, 1, 1, false).unwrap() {
        Event::Sample(s) => {
            assert_eq!(s.pid, Some(5));
            assert_eq!(s.tid, Some(6));
            assert_eq!(s.timestamp, Some(99));
            assert_eq!(s.cpu, Some(7));
            assert_eq!(s.period, Some(1000));
            assert_eq!(s.callchain, Some(vec![0xcc]));
            assert_eq!(s.regs.unwrap().get(0), Some(0x77));
            assert_eq!(s.stack.as_slice(), &[9, 9, 9, 9]);
            assert_eq!(s.dynamic_stack_size, 2);
        }
        other => panic!("expected a sample event, got {other:?}"),
    }
}

#[test]
fn mmap2_build_id_of_largest_length() {
    let mut body: Vec<u8> = [
        le32(1).as_slice(),
        le32(2).as_slice(),
        le64(0).as_slice(),
        le64(0).as_slice(),
        le64(0).as_slice(),
    ]
    .concat();
    body.push(20);
    body.extend_from_slice(&[0, 0, 0]);
    body.extend_from_slice(&[0x5a; 20]);
    body.extend_from_slice(&le32(0));
    body.extend_from_slice(&le32(0));
    body.push(0);
    match parse(PERF_RECORD_MMAP2, PERF_RECORD_MISC_MMAP_BUILD_ID, &body).unwrap() {
        Event::Mmap2(m) => {
            assert_eq!(m.file_id, Mmap2FileId::BuildId(vec![0x5a; 20]));
        }
        other => panic!("expected an mmap2 event, got {other:?}"),
    }
}

#[test]
fn hex_rendering_of_address_fields() {
    assert_eq!(hex_string(0), "0x0");
    assert_eq!(hex_string(9), "0x9");
    assert_eq!(hex_string(10), "0xa");
    assert_eq!(hex_string(0x400000), "0x400000");
    assert_eq!(hex_string(0xdead_beef), "0xdeadbeef");
    assert_eq!(hex_string(u64::MAX), "0xffffffffffffffff");
    assert_eq!(hex_string(0x1000), format!("{:#x}", 0x1000u64));
}
