use radio::clock::sntp::{
    decode_reply, encode_request, DecodeError, NTP_TO_UNIX_OFFSET, PACKET_LEN,
};

fn make_reply(li: u8, mode: u8, stratum: u8, ntp_secs: u32) -> [u8; PACKET_LEN] {
    let mut p = [0u8; PACKET_LEN];
    p[0] = ((li & 0b11) << 6) | (4 << 3) | (mode & 0b111);
    p[1] = stratum;
    let bytes = ntp_secs.to_be_bytes();
    p[40..44].copy_from_slice(&bytes);
    p
}

#[test]
fn sntp_request_first_byte() {
    let req = encode_request();
    assert_eq!(req[0], 0x23);
    assert_eq!(req.len(), PACKET_LEN);
    assert!(req[1..].iter().all(|&b| b == 0));
}

#[test]
fn sntp_decodes_valid_reply() {
    // 2026-06-27T00:00:00 UTC = 1782518400 Unix
    //                         = 1782518400 + 2208988800 = 3991507200 NTP
    let p = make_reply(0, 4, 2, 3_991_507_200);
    assert_eq!(decode_reply(&p), Ok(1_782_518_400));
}

#[test]
fn sntp_rejects_short_packet() {
    let p = [0u8; 32];
    assert_eq!(decode_reply(&p), Err(DecodeError::TooShort));
}

#[test]
fn sntp_rejects_alarm_condition() {
    let p = make_reply(3, 4, 2, 3_991_507_200);
    assert_eq!(decode_reply(&p), Err(DecodeError::AlarmCondition));
}

#[test]
fn sntp_rejects_client_mode() {
    let p = make_reply(0, 3, 2, 3_991_507_200); // Mode=3 client, not server
    assert_eq!(decode_reply(&p), Err(DecodeError::WrongMode));
}

#[test]
fn sntp_accepts_broadcast_mode() {
    let p = make_reply(0, 5, 2, 3_991_507_200);
    assert!(decode_reply(&p).is_ok());
}

#[test]
fn sntp_rejects_kod() {
    let p = make_reply(0, 4, 0, 3_991_507_200);
    assert_eq!(decode_reply(&p), Err(DecodeError::KissOfDeath));
}

#[test]
fn sntp_rejects_high_stratum() {
    let p = make_reply(0, 4, 16, 3_991_507_200);
    assert_eq!(decode_reply(&p), Err(DecodeError::InvalidStratum));
}

#[test]
fn sntp_rejects_zero_timestamp() {
    let p = make_reply(0, 4, 2, 0);
    assert_eq!(decode_reply(&p), Err(DecodeError::EmptyTimestamp));
}

#[test]
fn sntp_rejects_pre_unix() {
    // NTP timestamp 1 second after 1900 epoch — clearly bogus.
    let p = make_reply(0, 4, 2, 1);
    assert_eq!(decode_reply(&p), Err(DecodeError::PreUnixEpoch));
}

#[test]
fn round_trip_known_unix_time() {
    // 2024-01-01T00:00:00 UTC = 1704067200 Unix
    let unix = 1_704_067_200u64;
    let ntp = unix + NTP_TO_UNIX_OFFSET;
    let p = make_reply(0, 4, 1, ntp as u32);
    assert_eq!(decode_reply(&p), Ok(unix));
}
