use radio::listening_log::{LogBuffer, LogEntry, LOG_CAPACITY};
use radio::text::clip_to_buf;

fn entry(uptime: u32, freq: u16) -> LogEntry {
    let mut e = LogEntry::default();
    e.uptime_secs = uptime;
    e.freq_x10 = freq;
    e.rssi = 30;
    e
}

#[test]
fn push_below_capacity_appends() {
    let mut buf = LogBuffer::new();
    buf.push(entry(1, 1015));
    buf.push(entry(2, 1020));
    assert_eq!(buf.len(), 2);
    assert_eq!(buf.latest().unwrap().freq_x10, 1020);
}

#[test]
fn push_at_capacity_evicts_oldest() {
    let mut buf = LogBuffer::new();
    for i in 0..(LOG_CAPACITY as u32 + 5) {
        buf.push(entry(i, 1000 + i as u16));
    }
    assert_eq!(buf.len(), LOG_CAPACITY);
    let first = buf.iter_chronological().into_iter().next().unwrap();
    // After overflow the oldest visible entry should be the 6th
    // pushed (we pushed CAP + 5, evicted the first 5).
    assert_eq!(first.uptime_secs, 5);
}

#[test]
fn iter_chronological_after_wrap() {
    let mut buf = LogBuffer::new();
    for i in 0..(LOG_CAPACITY as u32 + 3) {
        buf.push(entry(i, 1000));
    }
    let collected: Vec<u32> = buf.iter_chronological().iter().map(|e| e.uptime_secs).collect();
    assert_eq!(collected.len(), LOG_CAPACITY);
    assert_eq!(*collected.first().unwrap(), 3);
    assert_eq!(*collected.last().unwrap(), LOG_CAPACITY as u32 + 2);
}

#[test]
fn clip_truncates_at_char_boundary() {
    // Two-byte UTF-8 char "é" + ASCII; with cap=3 we should keep "aé"
    // (3 bytes) but not "aéb".
    let bytes = clip_to_buf("aéb", 3);
    assert_eq!(bytes, "aé".as_bytes());
}

#[test]
fn clip_passthrough_when_short() {
    let bytes = clip_to_buf("BBC", 8);
    assert_eq!(bytes, b"BBC");
}
