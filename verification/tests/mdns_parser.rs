use radio::mdns_parser::{build_response, parse_query, QCLASS_IN, QTYPE_A, QTYPE_ANY};

fn make_query(labels: &[&[u8]], qtype: u16) -> Vec<u8> {
    let mut buf = Vec::new();
    buf.extend_from_slice(&[0, 0, 0, 0, 0, 1, 0, 0, 0, 0, 0, 0]);
    for label in labels {
        buf.push(u8::try_from(label.len()).expect("label fits in u8"));
        buf.extend_from_slice(label);
    }
    buf.push(0);
    buf.extend_from_slice(&qtype.to_be_bytes());
    buf.extend_from_slice(&QCLASS_IN.to_be_bytes());
    buf
}

#[test]
fn mdns_parser_parses_exact_match() {
    let pkt = make_query(&[b"esp-radio", b"local"], QTYPE_A);
    let parsed = parse_query(&pkt).expect("parses");
    assert!(parsed.is_for_us);
}

#[test]
fn mdns_parser_parses_case_insensitive() {
    let pkt = make_query(&[b"ESP-Radio", b"LOCAL"], QTYPE_A);
    assert!(parse_query(&pkt).expect("parses").is_for_us);
}

#[test]
fn mdns_parser_accepts_qtype_any() {
    let pkt = make_query(&[b"esp-radio", b"local"], QTYPE_ANY);
    assert!(parse_query(&pkt).expect("parses").is_for_us);
}

#[test]
fn mdns_parser_rejects_other_hostname() {
    let pkt = make_query(&[b"other", b"local"], QTYPE_A);
    assert!(!parse_query(&pkt).expect("parses").is_for_us);
}

#[test]
fn mdns_parser_rejects_other_tld() {
    let pkt = make_query(&[b"esp-radio", b"home"], QTYPE_A);
    assert!(!parse_query(&pkt).expect("parses").is_for_us);
}

#[test]
fn mdns_parser_rejects_short_packet() {
    assert!(parse_query(&[0u8; 5]).is_none());
}

#[test]
fn mdns_parser_rejects_response_packet() {
    let mut pkt = make_query(&[b"esp-radio", b"local"], QTYPE_A);
    pkt[2] = 0x84;
    assert!(parse_query(&pkt).is_none());
}

#[test]
fn mdns_parser_rejects_pointer_compression() {
    let mut pkt = make_query(&[b"esp-radio", b"local"], QTYPE_A);
    pkt[12] = 0xc0;
    assert!(parse_query(&pkt).is_none());
}

#[test]
fn mdns_parser_build_response_layout() {
    let mut out = [0u8; 64];
    let len = build_response(&mut out, [192, 168, 1, 42]).expect("fits");
    assert_eq!(&out[..2], &[0, 0]);
    assert_eq!(&out[2..4], &[0x84, 0x00]); // QR + AA
    assert_eq!(&out[4..6], &[0, 0]); // qd
    assert_eq!(&out[6..8], &[0, 1]); // an
    assert_eq!(out[12], 9);
    assert_eq!(&out[13..22], b"esp-radio");
    assert_eq!(out[22], 5);
    assert_eq!(&out[23..28], b"local");
    assert_eq!(out[28], 0);
    assert_eq!(&out[29..31], &[0, 1]); // type A
    assert_eq!(&out[31..33], &[0x80, 0x01]); // class IN | cache-flush
    assert_eq!(&out[len - 4..len], &[192, 168, 1, 42]);
}

#[test]
fn build_response_rejects_undersized_buffer() {
    let mut tiny = [0u8; 8];
    assert!(build_response(&mut tiny, [1, 2, 3, 4]).is_none());
}
