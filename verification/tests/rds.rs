use radio::si4703::rds::{decode_rds_text, pty_label, RdsClockTime, RdsDecoder};

const PI: u16 = 0xC201;

fn pair(s: &[u8], i: usize) -> u16 {
    u16::from_be_bytes([s[i], s[i + 1]])
}

fn send_name(d: &mut RdsDecoder, name: &[u8; 8], block_c: u16) {
    for seg in 0..4usize {
        d.process(PI, seg as u16, block_c, pair(name, 2 * seg));
    }
}

fn send_text(d: &mut RdsDecoder, flag: bool, text: &[u8]) {
    let ab = if flag { 0x10 } else { 0 };
    for (seg, four) in text.chunks(4).enumerate() {
        d.process(PI, 0x2000 | ab | seg as u16, pair(four, 0), pair(four, 2));
    }
}

#[test]
fn station_name_is_collected_from_its_segments() {
    let mut d = RdsDecoder::new();
    assert_eq!(d.station_name_str(), "        ");
    assert!(!d.process(PI, 0x0000, 0, pair(b"RADIO 1 ", 0)));
    assert!(!d.is_complete());
    send_name(&mut d, b"RADIO 1 ", 0);
    assert!(d.is_complete());
    assert_eq!(d.station_name(), b"RADIO 1 ");
    assert_eq!(d.station_name_string(), "RADIO 1");
    assert_eq!(d.pi(), Some(PI));
    d.reset();
    assert_eq!(d.pi(), None);
    assert_eq!(d.station_name_string(), "");
}

#[test]
fn alternative_frequencies_are_listed_once() {
    let mut d = RdsDecoder::new();
    // A list of two is announced, then named, one of them twice.
    d.process(PI, 0x0000, 0xE201, 0x2020);
    d.process(PI, 0x0001, 0x0A0A, 0x2020);
    d.process(PI, 0x0002, 0xCD00, 0x2020);
    assert_eq!(d.alt_freqs(), &[876, 885]);
    // Version B repeats the identification in block C.
    d.process(PI, 0x0803, 0x0B0C, 0x2020);
    assert_eq!(d.alt_freqs(), &[876, 885]);
    // No more are taken than were announced.
    d.process(PI, 0x0000, 0x141E, 0x2020);
    assert_eq!(d.alt_freqs(), &[876, 885]);
    // A new announcement starts the list again.
    d.process(PI, 0x0000, 0xE1CC, 0x2020);
    assert_eq!(d.alt_freqs(), &[1079]);
}

#[test]
fn announced_length_bounds_the_list() {
    let mut d = RdsDecoder::new();
    d.process(0x1234, 0x0000, 0xE20A, 0x2020);
    d.process(0x1234, 0x0001, 0x141E, 0x2020);
    assert_eq!(d.alt_freqs(), &[885, 895]);
    // A list of none stays empty.
    d.process(0x1234, 0x0000, 0xE00A, 0x2020);
    assert!(d.alt_freqs().is_empty());
    // Without an announcement only the longest list is a bound.
    d.reset();
    for code in 1..=30u16 {
        d.process(0x1234, 0x0000, code << 8, 0x2020);
    }
    assert_eq!(d.alt_freqs().len(), 25);
    assert_eq!(d.alt_freqs()[24], 900);
}

#[test]
fn radio_text_ends_at_the_carriage_return() {
    let mut d = RdsDecoder::new();
    send_text(&mut d, false, b"HELLO WORLD\r");
    assert!(d.radio_text_complete());
    assert_eq!(d.radio_text_len(), 11);
    assert_eq!(d.radio_text_bytes(), b"HELLO WORLD");
    assert_eq!(d.radio_text_string(), "HELLO WORLD");
}

#[test]
fn full_radio_text_is_received_as_sent() {
    let text: Vec<u8> = (0..64).map(|i| b'A' + (i % 26) as u8).collect();
    let mut d = RdsDecoder::new();
    send_text(&mut d, true, &text[..60]);
    assert!(!d.radio_text_complete());
    d.process(PI, 0x201F, pair(&text, 60), pair(&text, 62));
    assert!(d.radio_text_complete());
    assert_eq!(d.radio_text_bytes(), &text[..]);
}

#[test]
fn flipped_flag_starts_a_new_radio_text() {
    let mut d = RdsDecoder::new();
    send_text(&mut d, false, b"OLD TEXT IS LONG");
    send_text(&mut d, true, b"NEW\r");
    assert_eq!(d.radio_text_string(), "NEW");
    send_text(&mut d, true, b"NEXT");
    assert_eq!(d.radio_text_string(), "NEXT");
}

#[test]
fn version_b_text_has_two_characters_a_group() {
    let mut d = RdsDecoder::new();
    for (seg, two) in b"HALLO!".chunks(2).enumerate() {
        d.process(PI, 0x2800 | seg as u16, PI, pair(two, 0));
    }
    assert_eq!(d.radio_text_string(), "HALLO!");
    assert!(!d.radio_text_complete());
}

#[test]
fn clock_time_is_taken_once() {
    let mut d = RdsDecoder::new();
    // 21:37 UTC, one hour ahead.
    d.process(PI, 0x4000, 0x0001, (5 << 12) | (37 << 6) | 2);
    let ct = d.take_clock_time().unwrap();
    assert_eq!(ct, RdsClockTime { utc_hour: 21, utc_minute: 37, local_offset_half_hours: 2 });
    assert_eq!(ct.local_hh_mm(), (22, 37));
    assert_eq!(d.take_clock_time(), None);
    // Half an hour behind, before midnight.
    d.process(PI, 0x4000, 0x0000, (5 << 6) | 0x20 | 1);
    assert_eq!(d.take_clock_time().unwrap().local_hh_mm(), (23, 35));
    // No hour 24, no minute 60.
    d.process(PI, 0x4000, 0x0001, 8 << 12);
    d.process(PI, 0x4000, 0x0000, 60 << 6);
    assert_eq!(d.take_clock_time(), None);
}

#[test]
fn programme_type_has_a_name_unless_it_is_none() {
    let mut d = RdsDecoder::new();
    assert_eq!(d.pty_label(), None);
    d.process(PI, 14 << 5, 0, 0x2020);
    assert_eq!(d.pty(), Some(14));
    assert_eq!(d.pty_label(), Some("Jazz"));
    d.process(PI, 0, 0, 0x2020);
    assert_eq!(d.pty(), Some(0));
    assert_eq!(d.pty_label(), None);
    assert_eq!(pty_label(1), "News");
}

#[test]
fn song_is_found_in_the_radio_text() {
    let mut d = RdsDecoder::new();
    // Artist (type 4) in characters 0 to 4, title (type 1) in 8 to 12.
    let b = 0xB000 | 0x0008;
    let c = (4u16 << 13) | (4 << 1);
    let e = (1u16 << 11) | (8 << 5) | 4;
    d.process(PI, b, c, e);
    assert_eq!(d.rt_plus_title(), None);
    d.process(PI, 0x3016, 0, 0x4BD7);
    d.process(PI, b, c, e);
    assert_eq!(d.rt_plus_title(), None);
    send_text(&mut d, false, b"Adele - Hello\r  ");
    assert_eq!(d.rt_plus_artist().as_deref(), Some("Adele"));
    assert_eq!(d.rt_plus_title().as_deref(), Some("Hello"));
    // The item has stopped.
    d.process(PI, 0xB000, c, e);
    assert_eq!(d.rt_plus_artist(), None);
}

#[test]
fn text_in_other_encodings_is_shown_as_far_as_possible() {
    assert_eq!(decode_rds_text(b"Caf\xC3\xA9  \0"), "Café");
    assert_eq!(decode_rds_text(b"A\xC4\xE3B "), "A?B");
    assert_eq!(decode_rds_text(b"A\x80\x01"), "A??");
    assert_eq!(decode_rds_text(b"   "), "");
}
