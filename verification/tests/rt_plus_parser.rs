use radio::rt_plus_parser::{decode_rt_plus, RtPlusTag};

/// Build a synthetic RT+ wire frame from logical fields, exercising
/// the *encoder* side of the same bit layout. Lets us round-trip
/// concrete content_types/starts/lengths through `decode_rt_plus`
/// without hand-crafting hex blobs.
fn encode_rt_plus(
    item_toggle: bool,
    item_running: bool,
    ct1: u8,
    start1: u8,
    len1: u8,
    ct2: u8,
    start2: u8,
    len2: u8,
) -> (u16, u16, u16) {
    assert!(ct1 < 64);
    assert!(start1 < 64);
    assert!(len1 < 64);
    assert!(ct2 < 64);
    assert!(start2 < 64);
    assert!(len2 < 32);

    // Block B — only the low 5 bits matter for RT+; the upper bits are
    // group type / version / PTY etc., which we don't model here. Tests
    // pass `0x0000` for those upper bits.
    let mut b = 0u16;
    if item_toggle {
        b |= 0x0010;
    }
    if item_running {
        b |= 0x0008;
    }
    b |= u16::from(ct1 >> 3) & 0x0007;

    // Block C: ct1[2:0] (15..13), start1 (12..7), len1 (6..1), ct2[5] (0)
    let mut c = 0u16;
    c |= (u16::from(ct1) & 0x0007) << 13;
    c |= (u16::from(start1) & 0x003F) << 7;
    c |= (u16::from(len1) & 0x003F) << 1;
    c |= u16::from(ct2 >> 5) & 0x0001;

    // Block D: ct2[4:0] (15..11), start2 (10..5), len2 (4..0)
    let mut d = 0u16;
    d |= (u16::from(ct2) & 0x001F) << 11;
    d |= (u16::from(start2) & 0x003F) << 5;
    d |= u16::from(len2) & 0x001F;

    (b, c, d)
}

#[test]
fn round_trip_typical_song() {
    // Daft Punk \u2014 Get Lucky in an RT like:
    //   "Daft Punk - Get Lucky        "
    //    0123456789...
    // tag1 = ITEM.ARTIST (4) start=0  len=8 (\u2192 9 bytes "Daft Punk")
    // tag2 = ITEM.TITLE  (1) start=12 len=8 (\u2192 9 bytes "Get Lucky")
    let (b, c, d) = encode_rt_plus(true, true, 4, 0, 8, 1, 12, 8);
    let p = decode_rt_plus(b, c, d);
    assert!(p.item_toggle);
    assert!(p.item_running);
    assert_eq!(p.tag1, RtPlusTag { content_type: 4, start: 0, len: 8 });
    assert_eq!(p.tag2, RtPlusTag { content_type: 1, start: 12, len: 8 });
}

#[test]
fn item_running_flag_independent_of_toggle() {
    // running=false, toggle=true \u2192 between songs, but toggle still hot.
    let (b, c, d) = encode_rt_plus(true, false, 1, 0, 0, 4, 0, 0);
    let p = decode_rt_plus(b, c, d);
    assert!(p.item_toggle);
    assert!(!p.item_running);
}

#[test]
fn content_type_spans_block_b_and_c() {
    // ct1 = 0b110011 = 51 \u2014 needs the low-3-bits-of-block-B path *and*
    // the high-3-bits-of-block-C path to combine correctly.
    let (b, c, d) = encode_rt_plus(false, true, 51, 0, 0, 0, 0, 0);
    let p = decode_rt_plus(b, c, d);
    assert_eq!(p.tag1.content_type, 51);
}

#[test]
fn content_type_two_spans_block_c_and_d() {
    // ct2 = 0b100001 = 33 \u2014 needs the low-1-bit-of-block-C path *and*
    // the high-5-bits-of-block-D path.
    let (b, c, d) = encode_rt_plus(false, true, 0, 0, 0, 33, 0, 0);
    let p = decode_rt_plus(b, c, d);
    assert_eq!(p.tag2.content_type, 33);
}

#[test]
fn max_length_fields_round_trip() {
    // tag1 carries a 6-bit length (max 63), tag2 carries a 5-bit one
    // (max 31). The encoder asserts these ranges, so we just need to
    // confirm the decoder reconstructs them losslessly.
    let (b, c, d) = encode_rt_plus(true, true, 1, 63, 63, 4, 63, 31);
    let p = decode_rt_plus(b, c, d);
    assert_eq!(p.tag1, RtPlusTag { content_type: 1, start: 63, len: 63 });
    assert_eq!(p.tag2, RtPlusTag { content_type: 4, start: 63, len: 31 });
}

#[test]
fn zeros_decode_to_zero_payload() {
    let p = decode_rt_plus(0, 0, 0);
    assert!(!p.item_toggle);
    assert!(!p.item_running);
    assert_eq!(p.tag1, RtPlusTag { content_type: 0, start: 0, len: 0 });
    assert_eq!(p.tag2, RtPlusTag { content_type: 0, start: 0, len: 0 });
}

#[test]
fn no_field_bleeds_into_neighbour() {
    // Set only tag2 fields and confirm tag1 stays clean. This catches
    // mask-off-by-one bugs where, e.g. tag2.content_type leaks into
    // tag1.len.
    let (b, c, d) = encode_rt_plus(false, true, 0, 0, 0, 31, 31, 31);
    let p = decode_rt_plus(b, c, d);
    assert_eq!(p.tag1, RtPlusTag { content_type: 0, start: 0, len: 0 });
    assert_eq!(p.tag2, RtPlusTag { content_type: 31, start: 31, len: 31 });
}

/// Property-style sanity: decoding an encoded payload always yields
/// the exact same logical fields, for a small grid of inputs.
#[test]
fn exhaustive_round_trip_sample() {
    for &ct1 in &[0u8, 1, 4, 31, 63] {
        for &start1 in &[0u8, 7, 32, 63] {
            for &len1 in &[0u8, 1, 32, 63] {
                for &ct2 in &[0u8, 1, 4, 32, 63] {
                    for &start2 in &[0u8, 5, 50] {
                        for &len2 in &[0u8, 1, 31] {
                            let (b, c, d) = encode_rt_plus(true, true, ct1, start1, len1, ct2, start2, len2);
                            let p = decode_rt_plus(b, c, d);
                            assert_eq!(p.tag1.content_type, ct1);
                            assert_eq!(p.tag1.start, start1);
                            assert_eq!(p.tag1.len, len1);
                            assert_eq!(p.tag2.content_type, ct2);
                            assert_eq!(p.tag2.start, start2);
                            assert_eq!(p.tag2.len, len2);
                        }
                    }
                }
            }
        }
    }
}
