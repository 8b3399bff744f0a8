use radio::mdns_parser::{build_response, parse_query, QCLASS_IN, QTYPE_A, QTYPE_ANY};

/// Build a minimal mDNS query packet for the given labels and qtype.
fn make_query(labels: &[&[u8]], qtype: u16) -> Vec<u8> {
    let mut buf = Vec::new();
    // Header: id=0 flags=0 qd=1 an=ns=ar=0
    buf.extend_from_slice(&[0, 0, 0, 0, 0, 1, 0, 0, 0, 0, 0, 0]);
    for label in labels {
        buf.push(label.len() as u8);
        buf.extend_from_slice(label);
    }
    buf.push(0);
    buf.extend_from_slice(&qtype.to_be_bytes());
    buf.extend_from_slice(&QCLASS_IN.to_be_bytes());
    buf
}

#[test]
fn mdns_parses_exact_match() {
    let pkt = make_query(&[b"esp-radio", b"local"], QTYPE_A);
    let parsed = parse_query(&pkt).expect("parses");
    assert!(parsed.is_for_us);
}

#[test]
fn mdns_parses_case_insensitive() {
    let pkt = make_query(&[b"ESP-Radio", b"LOCAL"], QTYPE_A);
    assert!(parse_query(&pkt).expect("parses").is_for_us);
}

#[test]
fn mdns_accepts_qtype_any() {
    let pkt = make_query(&[b"esp-radio", b"local"], QTYPE_ANY);
    assert!(parse_query(&pkt).expect("parses").is_for_us);
}

#[test]
fn mdns_rejects_other_hostname() {
    let pkt = make_query(&[b"other", b"local"], QTYPE_A);
    assert!(!parse_query(&pkt).expect("parses").is_for_us);
}

#[test]
fn mdns_rejects_other_tld() {
    let pkt = make_query(&[b"esp-radio", b"home"], QTYPE_A);
    assert!(!parse_query(&pkt).expect("parses").is_for_us);
}

#[test]
fn mdns_rejects_short_packet() {
    assert!(parse_query(&[0u8; 5]).is_none());
}

#[test]
fn mdns_rejects_response_packet() {
    let mut pkt = make_query(&[b"esp-radio", b"local"], QTYPE_A);
    pkt[2] = 0x84; // set QR + AA
    assert!(parse_query(&pkt).is_none());
}

#[test]
fn mdns_rejects_pointer_compression() {
    let mut pkt = make_query(&[b"esp-radio", b"local"], QTYPE_A);
    pkt[12] = 0xc0; // pointer marker
    assert!(parse_query(&pkt).is_none());
}

#[test]
fn mdns_build_response_layout() {
    let mut out = [0u8; 64];
    let len = build_response(&mut out, [192, 168, 1, 42]).expect("fits");
    // Header
    assert_eq!(&out[..2], &[0, 0]);
    assert_eq!(&out[2..4], &[0x84, 0x00]); // QR + AA
    assert_eq!(&out[4..6], &[0, 0]); // qd
    assert_eq!(&out[6..8], &[0, 1]); // an
    // QNAME = "esp-radio" "local" 0
    assert_eq!(out[12], 9);
    assert_eq!(&out[13..22], b"esp-radio");
    assert_eq!(out[22], 5);
    assert_eq!(&out[23..28], b"local");
    assert_eq!(out[28], 0);
    // Type/Class
    assert_eq!(&out[29..31], &[0, 1]); // A
    assert_eq!(&out[31..33], &[0x80, 0x01]); // IN | cache-flush
    // RDATA
    assert_eq!(&out[len - 4..len], &[192, 168, 1, 42]);
}
