use radio::wifi_provision::storage::{
    decode_record, encode_record, CredentialStorage, StorageError, DEFAULT_STORAGE_OFFSET,
    HEADER_SIZE, RECORD_SIZE,
};
use radio::wifi_provision::{
    ConnectionConfig, ConnectionError, ProvisionAction, ProvisionEvent, WifiCredentials,
    WifiProvisioner,
};

fn creds(ssid: &str, password: &str) -> WifiCredentials {
    WifiCredentials { ssid: ssid.to_string(), password: password.to_string() }
}

#[test]
fn saved_credentials_load_again() {
    let record = encode_record(&creds("Café", "geheim✓")).unwrap();
    assert_eq!(record.len(), RECORD_SIZE);
    assert_eq!(&record[..4], &[0x0D, 0xF0, 0xFE, 0xCA]);
    let back = decode_record(&record).unwrap().unwrap();
    assert_eq!(back.ssid, "Café");
    assert_eq!(back.password, "geheim✓");
}

#[test]
fn longest_credentials_fit_and_longer_ones_do_not() {
    let ssid = "s".repeat(32);
    let pass = "p".repeat(64);
    let record = encode_record(&creds(&ssid, &pass)).unwrap();
    let back = decode_record(&record).unwrap().unwrap();
    assert_eq!(back.ssid, ssid);
    assert_eq!(back.password, pass);
    assert_eq!(
        encode_record(&creds(&"s".repeat(33), "")).unwrap_err(),
        StorageError::SsidTooLong
    );
    assert_eq!(
        encode_record(&creds("net", &"p".repeat(65))).unwrap_err(),
        StorageError::PasswordTooLong
    );
}

#[test]
fn every_changed_payload_byte_is_noticed() {
    let record = encode_record(&creds("net", "secret")).unwrap();
    for i in 8..106 {
        let mut bad = record.clone();
        bad[i] ^= 0x10;
        assert_eq!(decode_record(&bad).unwrap_err(), StorageError::CrcMismatch);
    }
}

#[test]
fn erased_sector_holds_no_credentials() {
    let storage = CredentialStorage::new();
    let erased = vec![0xFFu8; RECORD_SIZE];
    assert!(storage.load(Some(&erased)).unwrap().is_none());
    assert_eq!(storage.load(None).unwrap_err(), StorageError::FlashError);
    assert!(!storage.has_credentials(Some(&erased[..HEADER_SIZE])));
    assert!(!storage.has_credentials(None));
    let record = storage.save(&creds("net", "")).unwrap();
    assert!(storage.has_credentials(Some(&record[..HEADER_SIZE])));
}

#[test]
fn record_that_is_no_text_is_corrupt() {
    let record = encode_record(&creds("net", "")).unwrap();
    let mut payload = record[8..106].to_vec();
    payload[1] = 0xFF;
    let mut bad = record.clone();
    bad[8..106].copy_from_slice(&payload);
    bad[4..8].copy_from_slice(&radio::crc::crc32(&payload).to_le_bytes());
    assert_eq!(decode_record(&bad).unwrap_err(), StorageError::CrcMismatch);
}

#[test]
fn provisioner_clears_what_it_cannot_read() {
    let p = WifiProvisioner::new();
    assert_eq!(p.storage.offset, DEFAULT_STORAGE_OFFSET);
    let record = p.save_credentials(&creds("net", "secret")).unwrap();
    let good = p.load_credentials(Some(&record));
    assert_eq!(good.credentials.unwrap().ssid, "net");
    assert!(!good.clear);
    let mut bad = record.clone();
    bad[20] ^= 1;
    let corrupt = p.load_credentials(Some(&bad));
    assert!(corrupt.credentials.is_none() && corrupt.clear);
    let failed = p.load_credentials(None);
    assert!(failed.credentials.is_none() && failed.clear);
    let empty = p.load_credentials(Some(&[0u8; 108]));
    assert!(empty.credentials.is_none() && !empty.clear);
    let sector = WifiProvisioner::with_offset(0x10_0000).clear_credentials();
    assert_eq!((sector.offset, sector.end), (0x10_0000, 0x10_1000));
    assert!(p.has_credentials(Some(&record[..8])));
}

#[test]
fn stored_credentials_are_used_before_the_portal() {
    let p = WifiProvisioner::new();
    let config = ConnectionConfig::default();
    let a = p.provision_and_connect(ProvisionEvent::Loaded(Some(creds("net", "x"))), &config);
    assert!(matches!(a, ProvisionAction::Connect(c) if c.ssid == "net"));
    let b = p.provision_and_connect(ProvisionEvent::Loaded(None), &config);
    assert!(matches!(b, ProvisionAction::RunPortal));
    let c = p.provision_and_connect(ProvisionEvent::Provisioned(creds("new", "")), &config);
    assert!(matches!(c, ProvisionAction::SaveThenAwaitReboot(c) if c.ssid == "new"));
    let d = p.provision_and_connect(ProvisionEvent::Connected(Ok(())), &config);
    assert!(matches!(d, ProvisionAction::Done));
}

#[test]
fn failed_connection_clears_only_where_configured() {
    let p = WifiProvisioner::new();
    let failed = ProvisionEvent::Connected(Err(ConnectionError::ConnectionFailed));
    let a = p.provision_and_connect(failed, &ConnectionConfig::default());
    assert!(matches!(
        a,
        ProvisionAction::Fail { error: ConnectionError::ConnectionFailed, clear: true }
    ));
    let keep = ConnectionConfig { clear_on_failure: false, ..ConnectionConfig::default() };
    let failed = ProvisionEvent::Connected(Err(ConnectionError::WifiInit));
    let b = p.provision_and_connect(failed, &keep);
    assert!(matches!(b, ProvisionAction::Fail { error: ConnectionError::WifiInit, clear: false }));
}

#[test]
fn password_is_not_shown() {
    assert_eq!(
        creds("net", "secret").describe(),
        "WifiCredentials { ssid: \"net\", password: ****** }"
    );
}
