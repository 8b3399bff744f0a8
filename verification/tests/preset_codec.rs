use radio::preset_codec::{
    decode, encode_v1, encode_v2, DecodeError, PresetRecord, HEADER_SIZE, MAX_PRESETS,
    PAYLOAD_V1_SIZE,
};

fn sample_record() -> PresetRecord {
    let mut rec = PresetRecord::empty();
    rec.freqs[0] = 881; // 88.1 MHz
    rec.freqs[1] = 935; // 93.5 MHz
    rec.freqs[2] = 1015; // 101.5 MHz
    rec.last_tuned = 1015;
    rec.pi[0] = 0xC2_01;
    rec.pi[2] = 0x10_5E;
    rec.ps[0] = *b"BBC R1  ";
    rec.ps[2] = *b"KQED    ";
    rec
}

#[test]
fn v2_round_trip_preserves_all_fields() {
    let original = sample_record();
    let bytes = encode_v2(&original);
    let decoded = decode(&bytes).expect("v2 round-trip should decode");
    assert_eq!(decoded, original);
}

#[test]
fn v2_round_trip_preserves_blank_ps_buffers() {
    // Stations without RDS PS leave the slot's PS as all-zeros;
    // make sure the blank state survives the encode → decode trip
    // and is *not* helpfully turned into spaces.
    let mut rec = PresetRecord::empty();
    rec.freqs[3] = 977;
    let bytes = encode_v2(&rec);
    let decoded = decode(&bytes).unwrap();
    assert_eq!(decoded.ps[3], [0u8; 8]);
}

#[test]
fn v1_record_decodes_with_blank_metadata() {
    // The whole point of the version dispatch: a v1 record on flash
    // (e.g. produced by the previous firmware build, then read by
    // the current one after upgrade) must yield the right freqs +
    // last_tuned with PI / PS at the unknown sentinel.
    let mut rec = sample_record();
    // PI / PS get dropped on the way through v1 — match that.
    rec.pi = [0; MAX_PRESETS];
    rec.ps = [[0; 8]; MAX_PRESETS];
    let bytes = encode_v1(&rec);
    let decoded = decode(&bytes).expect("v1 record should decode");
    assert_eq!(decoded, rec);
    // Buffer length is the smaller v1 size — guard against accidental
    // payload-window confusion in the encoder.
    assert_eq!(bytes.len(), HEADER_SIZE + PAYLOAD_V1_SIZE);
}

#[test]
fn invalid_magic_is_rejected() {
    let mut bytes = encode_v2(&sample_record());
    bytes[0] ^= 0xFF;
    assert_eq!(decode(&bytes), Err(DecodeError::InvalidMagic));
}

#[test]
fn unknown_version_is_rejected() {
    let mut bytes = encode_v2(&sample_record());
    bytes[4] = 99; // hypothetical future v99
    assert_eq!(decode(&bytes), Err(DecodeError::VersionMismatch));
}

#[test]
fn wrong_slot_count_is_rejected() {
    let mut bytes = encode_v2(&sample_record());
    bytes[5] = (MAX_PRESETS as u8) + 1; // guard against a host build with a different MAX_PRESETS
    assert_eq!(decode(&bytes), Err(DecodeError::VersionMismatch));
}

#[test]
fn payload_corruption_fails_crc() {
    // Flip a freq byte. The decoder must notice via CRC instead of
    // happily returning a half-wrong record.
    let mut bytes = encode_v2(&sample_record());
    bytes[HEADER_SIZE + 1] ^= 0xFF;
    assert_eq!(decode(&bytes), Err(DecodeError::CrcMismatch));
}

#[test]
fn truncated_buffer_is_rejected() {
    let bytes = encode_v2(&sample_record());
    // Drop the last byte so the v2 payload window can't be filled.
    let short = &bytes[..bytes.len() - 1];
    assert_eq!(decode(short), Err(DecodeError::TooShort));
}

#[test]
fn ps_with_high_bit_bytes_round_trips_verbatim() {
    // Some broadcasters emit Latin-1 high-bit bytes inside PS. The
    // codec must store them as-is — any UTF-8 conversion happens at
    // a higher layer (`web::decode_preset_ps` on the JSON path or
    // the LCD label decoder).
    let mut rec = PresetRecord::empty();
    rec.freqs[0] = 1037;
    rec.ps[0] = [b'C', b'a', b'f', 0xE9, b' ', b' ', b' ', b' ']; // "Café"
    let bytes = encode_v2(&rec);
    let decoded = decode(&bytes).unwrap();
    assert_eq!(decoded.ps[0], rec.ps[0]);
}
