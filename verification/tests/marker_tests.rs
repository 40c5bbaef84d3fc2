use perf_etw_events::markers::{parse_i32_bytes, parse_marker_span_line, parse_u64_bytes};

#[test]
fn unsigned_parse_agrees_with_std() {
    for s in [
        "0",
        "7",
        "+7",
        "18446744073709551615",
        "18446744073709551616",
        "99999999999999999999999",
        "12a",
        "",
        "+",
        " 3",
        "-1",
    ] {
        assert_eq!(
            parse_u64_bytes(s.as_bytes()),
            s.parse::<u64>().ok(),
            "mismatch on {s:?}"
        );
    }
}

#[test]
fn signed_parse_agrees_with_std() {
    for s in [
        "0",
        "-0",
        "42",
        "+42",
        "-42",
        "2147483647",
        "2147483648",
        "-2147483648",
        "-2147483649",
        "-+5",
        "+-5",
        "--5",
        "-",
        "",
        "4x",
    ] {
        assert_eq!(
            parse_i32_bytes(s.as_bytes()),
            s.parse::<i32>().ok(),
            "mismatch on {s:?}"
        );
    }
}

#[test]
fn marker_line_with_five_fields() {
    let m = parse_marker_span_line(b"12 myname 100 200 some value").unwrap();
    assert_eq!(m.tid, 12);
    assert_eq!(m.name, b"myname".to_vec());
    assert_eq!(m.start_time, 100);
    assert_eq!(m.end_time, 200);
    assert_eq!(m.value, b"some value".to_vec());
}

#[test]
fn marker_line_negative_tid_and_empty_value() {
    let m = parse_marker_span_line(b"-5 n 1 2 ").unwrap();
    assert_eq!(m.tid, -5);
    assert_eq!(m.name, b"n".to_vec());
    assert_eq!(m.start_time, 1);
    assert_eq!(m.end_time, 2);
    assert_eq!(m.value, b"".to_vec());
}

#[test]
fn marker_line_with_missing_fields_means_nothing() {
    assert!(parse_marker_span_line(b"").is_none());
    assert!(parse_marker_span_line(b"12").is_none());
    assert!(parse_marker_span_line(b"12 name").is_none());
    assert!(parse_marker_span_line(b"12 name 100").is_none());
    assert!(parse_marker_span_line(b"12 name 100 200").is_none());
}

#[test]
fn marker_line_with_bad_numbers_means_nothing() {
    assert!(parse_marker_span_line(b"x name 100 200 v").is_none());
    assert!(parse_marker_span_line(b"12 name abc 200 v").is_none());
    assert!(parse_marker_span_line(b"12 name 100 -200 v").is_none());
}
