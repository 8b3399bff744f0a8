use radio::ota::writer::{
    verify_image_header, OtaError, ESP_IMAGE_MAGIC, EXPECTED_CHIP_ID, HEADER_LEN,
};

/// Build a 24-byte buffer with the supplied `magic` and `chip_id`.
fn synthetic_header(magic: u8, chip_id: u16) -> [u8; HEADER_LEN] {
    let mut h = [0u8; HEADER_LEN];
    h[0] = magic;
    h[1] = 4; // segment count, arbitrary
    let cid = chip_id.to_le_bytes();
    h[0x0C] = cid[0];
    h[0x0D] = cid[1];
    h
}

#[test]
fn accepts_valid_c6_header() {
    let h = synthetic_header(ESP_IMAGE_MAGIC, EXPECTED_CHIP_ID);
    assert!(verify_image_header(&h).is_ok());
}

#[test]
fn rejects_bad_magic() {
    let h = synthetic_header(0xAB, EXPECTED_CHIP_ID);
    assert!(matches!(
        verify_image_header(&h),
        Err(OtaError::BadImageHeader { magic: 0xAB, .. })
    ));
}

#[test]
fn rejects_wrong_chip_id() {
    // 0x0009 is ESP32-S3; flashing it onto a C6 would brick the radio.
    let h = synthetic_header(ESP_IMAGE_MAGIC, 0x0009);
    assert!(matches!(
        verify_image_header(&h),
        Err(OtaError::BadImageHeader {
            chip_id: 0x0009,
            ..
        })
    ));
}
