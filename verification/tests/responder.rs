use radio::mdns::answer;
use radio::mdns_parser::{QCLASS_IN, QTYPE_A, QTYPE_ANY};

fn ask(labels: &[&[u8]], qtype: u16, qclass: u16) -> Vec<u8> {
    let mut buf = vec![0, 0, 0, 0, 0, 1, 0, 0, 0, 0, 0, 0];
    for label in labels {
        buf.push(label.len() as u8);
        buf.extend_from_slice(label);
    }
    buf.push(0);
    buf.extend_from_slice(&qtype.to_be_bytes());
    buf.extend_from_slice(&qclass.to_be_bytes());
    buf
}

#[test]
fn the_host_is_told_its_address() {
    let mut expected = vec![0, 0, 0x84, 0, 0, 0, 0, 1, 0, 0, 0, 0, 9];
    expected.extend_from_slice(b"esp-radio");
    expected.push(5);
    expected.extend_from_slice(b"local");
    expected.extend_from_slice(&[0, 0, 1, 0x80, 1, 0, 0, 0, 120, 0, 4, 192, 168, 1, 42]);
    let ip = Some([192, 168, 1, 42]);
    let plain = ask(&[b"esp-radio", b"local"], QTYPE_A, QCLASS_IN);
    assert_eq!(answer(&plain, ip), Some(expected.clone()));
    let shouted = ask(&[b"ESP-RADIO", b"Local"], QTYPE_ANY, 0x8001);
    assert_eq!(answer(&shouted, ip), Some(expected));
}

#[test]
fn without_an_address_there_is_no_answer() {
    let plain = ask(&[b"esp-radio", b"local"], QTYPE_A, QCLASS_IN);
    assert_eq!(answer(&plain, None), None);
}

#[test]
fn others_are_not_answered_for() {
    let ip = Some([10, 0, 0, 1]);
    assert_eq!(answer(&ask(&[b"printer", b"local"], QTYPE_A, QCLASS_IN), ip), None);
    assert_eq!(answer(&[1, 2, 3], ip), None);
}
