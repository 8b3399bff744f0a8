use radio::flash::{FlashFault, PartitionFault};
use radio::ota::http_download::{
    parse_ipv4, Download, DownloadAction, DownloadEvent, DownloadProgress, HttpError,
};
use radio::ota::writer::{OtaError, OtaWriter, TargetSlot};
use radio::ota::{http_failure_reason, run_job, JobAction, JobEvent};
use radio::state::{FailReason, OtaProgress, RadioState};

const SLOT: TargetSlot = TargetSlot { index: 1, base: 0x20_0000, size: 3 * 4096 };

fn image(len: usize) -> Vec<u8> {
    let mut v: Vec<u8> = (0..len).map(|i| (i % 251) as u8).collect();
    v[0] = 0xE9;
    v[12] = 0x0D;
    v[13] = 0x00;
    v
}

/// Stages `data` in chunks and returns what was programmed.
fn stage(w: &mut OtaWriter, data: &[u8], chunk: usize) -> Result<Vec<(u32, Vec<u8>)>, OtaError> {
    let mut flash = Vec::new();
    for piece in data.chunks(chunk) {
        let mut rest = piece;
        while !rest.is_empty() {
            let step = w.write_chunk(rest)?;
            rest = &rest[step.consumed..];
            if let Some(s) = step.flush {
                flash.push((s.offset, w.sector().to_vec()));
                w.sector_flushed();
            }
        }
    }
    Ok(flash)
}

#[test]
fn image_is_staged_sector_by_sector() {
    let data = image(2 * 4096 + 100);
    for chunk in [1, 7, 4096, 5000, 9000] {
        let mut w = OtaWriter::begin(Ok(Some(SLOT)), Some(data.len() as u32)).ok().unwrap();
        let mut flash = stage(&mut w, &data, chunk).unwrap();
        let tail = w.finalize().unwrap().unwrap();
        flash.push((tail.offset, w.sector().to_vec()));
        assert_eq!(flash.len(), 3);
        let mut whole = Vec::new();
        for (i, (offset, sector)) in flash.iter().enumerate() {
            assert_eq!(*offset, 0x20_0000 + 4096 * i as u32);
            whole.extend_from_slice(sector);
        }
        assert_eq!(&whole[..data.len()], &data[..]);
        assert!(whole[data.len()..].iter().all(|b| *b == 0xFF));
        assert_eq!(w.bytes_written(), data.len() as u32);
        assert_eq!(w.progress_percent(), Some(100));
    }
}

#[test]
fn whole_sectors_leave_no_tail() {
    let data = image(2 * 4096);
    let mut w = OtaWriter::begin(Ok(Some(SLOT)), None).ok().unwrap();
    assert_eq!(stage(&mut w, &data, 1000).unwrap().len(), 2);
    assert_eq!(w.finalize(), Ok(None));
    assert_eq!(w.progress_percent(), None);
}

#[test]
fn slot_decides_whether_staging_begins() {
    assert_eq!(OtaWriter::begin(Ok(None), None).err(), Some(OtaError::SlotNotFound));
    assert_eq!(
        OtaWriter::begin(Err(PartitionFault::Invalid), None).err(),
        Some(OtaError::Partition(PartitionFault::Invalid))
    );
    assert_eq!(
        OtaWriter::begin(Ok(Some(SLOT)), Some(12289)).err(),
        Some(OtaError::ImageTooLarge { image_size: 12289, slot_size: 12288 })
    );
    assert!(OtaWriter::begin(Ok(Some(SLOT)), Some(12288)).is_ok());
}

#[test]
fn image_larger_than_the_slot_is_refused_on_the_way() {
    let data = image(4 * 4096);
    let mut w = OtaWriter::begin(Ok(Some(SLOT)), None).ok().unwrap();
    assert_eq!(
        stage(&mut w, &data, 4096).unwrap_err(),
        OtaError::ImageTooLarge { image_size: 16384, slot_size: 12288 }
    );
    let mut w = OtaWriter::begin(Ok(Some(SLOT)), None).ok().unwrap();
    stage(&mut w, &data[..3 * 4096 + 1], 4096).unwrap();
    assert_eq!(
        w.finalize(),
        Err(OtaError::ImageTooLarge { image_size: 12289, slot_size: 12288 })
    );
}

#[test]
fn wrong_header_is_refused_before_anything_is_programmed() {
    let mut data = image(100);
    data[12] = 9;
    let mut w = OtaWriter::begin(Ok(Some(SLOT)), None).ok().unwrap();
    assert!(w.write_chunk(&data[..23]).is_ok());
    let refused = OtaError::BadImageHeader { magic: 0xE9, chip_id: 9 };
    assert_eq!(w.write_chunk(&data[23..]), Err(refused));
    assert_eq!(w.write_chunk(&[]).unwrap().consumed, 0);
    assert_eq!(w.finalize(), Err(OtaError::BadImageHeader { magic: 0xE9, chip_id: 0 }));
}

#[test]
fn empty_image_is_refused() {
    let w = OtaWriter::begin(Ok(Some(SLOT)), Some(0)).ok().unwrap();
    assert_eq!(w.progress_percent(), Some(100));
    assert_eq!(w.finalize(), Err(OtaError::BadImageHeader { magic: 0xFF, chip_id: 0 }));
}

#[test]
fn missing_bytes_are_noticed_at_the_end() {
    let data = image(100);
    let mut w = OtaWriter::begin(Ok(Some(SLOT)), Some(200)).ok().unwrap();
    stage(&mut w, &data, 64).unwrap();
    assert_eq!(w.progress_percent(), Some(50));
    assert_eq!(w.finalize(), Err(OtaError::SizeMismatch { expected: 200, received: 100 }));
}

#[test]
fn download_hands_over_the_whole_body() {
    let mut d = Download::start("http://192.168.1.2:8000/fw.bin").ok().unwrap();
    assert_eq!(d.endpoint(), ([192, 168, 1, 2], 8000));
    assert_eq!(d.step(DownloadEvent::Connected, &[], 0).action, DownloadAction::Send);
    let request = d.request();
    assert!(request.starts_with("GET /fw.bin HTTP/1.0\r\nHost: 192.168.1.2:8000\r\n"));
    assert!(request.ends_with("\r\n\r\n"));
    assert_eq!(d.step(DownloadEvent::Sent, &[], 0).action, DownloadAction::Read);
    let first = b"HTTP/1.1 200 OK\r\nContent-Le";
    assert_eq!(d.step(DownloadEvent::Data, first, 1).action, DownloadAction::Read);
    let second = b"ngth: 5\r\n\r\nab";
    assert_eq!(d.step(DownloadEvent::Data, second, 2).action, DownloadAction::WritePrefix);
    assert_eq!(d.body_prefix(), b"ab");
    let s = d.step(DownloadEvent::Written, &[], 3);
    assert_eq!(s.action, DownloadAction::Read);
    assert_eq!(s.publish, Some(DownloadProgress { received: 2, total: 5 }));
    assert_eq!(d.step(DownloadEvent::Data, b"cd", 4).action, DownloadAction::WriteChunk);
    let s = d.step(DownloadEvent::Written, &[], 5);
    assert_eq!((s.publish, s.action), (None, DownloadAction::Read));
    assert_eq!(d.step(DownloadEvent::Data, b"e", 6).action, DownloadAction::WriteChunk);
    let s = d.step(DownloadEvent::Written, &[], 7);
    assert_eq!(s.action, DownloadAction::Finish);
    assert_eq!(s.publish, Some(DownloadProgress { received: 5, total: 5 }));
}

fn started() -> Download {
    let mut d = Download::start("http://10.0.0.1/a").ok().unwrap();
    d.step(DownloadEvent::Connected, &[], 0);
    d.step(DownloadEvent::Sent, &[], 0);
    d
}

#[test]
fn download_without_length_ends_with_the_connection() {
    let mut d = started();
    let head = b"HTTP/1.0 200 OK\r\n\r\n";
    let s = d.step(DownloadEvent::Data, head, 50);
    assert_eq!(s.publish, Some(DownloadProgress { received: 0, total: 0 }));
    d.step(DownloadEvent::Data, b"xyz", 60);
    let s = d.step(DownloadEvent::Written, &[], 150);
    assert_eq!(s.publish, Some(DownloadProgress { received: 3, total: 0 }));
    let s = d.step(DownloadEvent::Closed, &[], 151);
    assert_eq!(s.action, DownloadAction::Finish);
    assert_eq!(s.publish, Some(DownloadProgress { received: 3, total: 3 }));
}

#[test]
fn each_failure_of_a_download_is_told() {
    assert_eq!(Download::start("ftp://1.2.3.4/").err(), Some(HttpError::BadUrl));
    let mut d = Download::start("http://10.0.0.1/a").ok().unwrap();
    assert_eq!(
        d.step(DownloadEvent::ConnectTimedOut, &[], 0).action,
        DownloadAction::AbortAndFail(HttpError::ConnectFailed)
    );
    let mut d = Download::start("http://10.0.0.1/a").ok().unwrap();
    d.step(DownloadEvent::Connected, &[], 0);
    assert_eq!(
        d.step(DownloadEvent::SendFailed, &[], 0).action,
        DownloadAction::Fail(HttpError::Io)
    );
    assert_eq!(
        started().step(DownloadEvent::Closed, &[], 0).action,
        DownloadAction::Fail(HttpError::Truncated)
    );
    assert_eq!(
        started().step(DownloadEvent::ReadFailed, &[], 0).action,
        DownloadAction::Fail(HttpError::Io)
    );
    assert_eq!(
        started().step(DownloadEvent::Data, b"HTTP/1.1 404 No\r\n\r\n", 0).action,
        DownloadAction::Fail(HttpError::BadStatus(404))
    );
    assert_eq!(
        started().step(DownloadEvent::Data, &vec![b'a'; 4097], 0).action,
        DownloadAction::Fail(HttpError::HeadersTooLarge)
    );
    let mut d = started();
    d.step(DownloadEvent::Data, b"HTTP/1.1 200 OK\r\nContent-Length: 9\r\n\r\n", 0);
    assert_eq!(
        d.step(DownloadEvent::Closed, &[], 0).action,
        DownloadAction::Fail(HttpError::Truncated)
    );
    let mut d = started();
    d.step(DownloadEvent::Data, b"HTTP/1.1 200 OK\r\n\r\nx", 0);
    let refused = OtaError::BadImageHeader { magic: 1, chip_id: 2 };
    assert_eq!(
        d.step(DownloadEvent::WriteFailed(refused), &[], 0).action,
        DownloadAction::Fail(HttpError::Writer(refused))
    );
}

#[test]
fn job_reports_success_only_after_activation() {
    let mut state = RadioState::boot();
    assert_eq!(run_job(&mut state, JobEvent::Started), JobAction::Open);
    assert_eq!(state.ota_progress, OtaProgress::Connecting);
    assert!(state.ota_in_progress);
    assert_eq!(run_job(&mut state, JobEvent::Opened), JobAction::Download);
    assert_eq!(run_job(&mut state, JobEvent::Downloaded), JobAction::Activate);
    assert_eq!(state.ota_progress, OtaProgress::Activating);
    assert!(state.ota_in_progress);
    assert_eq!(run_job(&mut state, JobEvent::Activated), JobAction::ReleaseActivated);
    assert_eq!(state.ota_progress, OtaProgress::Success);
    assert!(!state.ota_in_progress);
}

#[test]
fn failed_job_gives_the_flash_back() {
    let mut state = RadioState::boot();
    run_job(&mut state, JobEvent::Started);
    let e = HttpError::BadStatus(500);
    assert_eq!(run_job(&mut state, JobEvent::DownloadFailed(e)), JobAction::Release);
    assert_eq!(state.ota_progress, OtaProgress::Failed(FailReason::HttpStatus));
    assert!(!state.ota_in_progress);
    run_job(&mut state, JobEvent::Started);
    run_job(&mut state, JobEvent::OpenFailed(OtaError::SlotNotFound));
    assert_eq!(state.ota_progress, OtaProgress::Failed(FailReason::Init));
    run_job(&mut state, JobEvent::ActivateFailed(OtaError::Flash(FlashFault::Io)));
    assert_eq!(state.ota_progress, OtaProgress::Failed(FailReason::Activate));
}

#[test]
fn every_failure_has_its_word() {
    let word = |e: HttpError| http_failure_reason(&e).as_text();
    assert_eq!(word(HttpError::BadUrl), "bad url");
    assert_eq!(word(HttpError::ConnectFailed), "connect");
    assert_eq!(word(HttpError::Io), "io");
    assert_eq!(word(HttpError::BadStatus(1)), "http status");
    assert_eq!(word(HttpError::HeadersTooLarge), "headers");
    assert_eq!(word(HttpError::Truncated), "truncated");
    let w = |e: OtaError| word(HttpError::Writer(e));
    assert_eq!(w(OtaError::BadImageHeader { magic: 0, chip_id: 0 }), "bad image");
    assert_eq!(w(OtaError::ImageTooLarge { image_size: 0, slot_size: 0 }), "too large");
    assert_eq!(w(OtaError::SizeMismatch { expected: 0, received: 0 }), "size");
    assert_eq!(w(OtaError::SlotNotFound), "no slot");
    assert_eq!(w(OtaError::from(FlashFault::Timeout)), "flash");
    assert_eq!(w(OtaError::from(PartitionFault::Storage)), "partition");
    assert_eq!(FailReason::Offline.as_text(), "offline");
}

#[test]
fn addresses_are_four_small_numbers() {
    assert_eq!(parse_ipv4("192.168.1.10"), Some([192, 168, 1, 10]));
    assert_eq!(parse_ipv4("192.168.1"), None);
    assert_eq!(parse_ipv4("192.168.1.256"), None);
    assert_eq!(parse_ipv4("192.168.1.10.4"), None);
}
