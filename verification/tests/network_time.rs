use radio::clock::sntp::{encode_request, NTP_TO_UNIX_OFFSET};
use radio::clock::{is_synced, record_sync, wall_time_unix_secs, Clock};
use radio::ntp::{server, try_sync_once, wait_after, NtpEvent, NtpStep};

fn reply(unix: u64) -> [u8; 48] {
    let mut p = [0u8; 48];
    p[0] = 0x24;
    p[1] = 2;
    p[40..44].copy_from_slice(&((unix + NTP_TO_UNIX_OFFSET) as u32).to_be_bytes());
    p
}

#[test]
fn clock_runs_on_from_the_reply() {
    let mut c = Clock::new();
    assert!(!is_synced(&c));
    assert_eq!(wall_time_unix_secs(&c, 100), None);
    record_sync(&mut c, 1_700_000_000, 100);
    assert!(is_synced(&c));
    assert_eq!(wall_time_unix_secs(&c, 100), Some(1_700_000_000));
    assert_eq!(wall_time_unix_secs(&c, 160), Some(1_700_000_060));
    assert_eq!(wall_time_unix_secs(&c, u64::MAX), Some(u64::MAX));
}

#[test]
fn impossible_times_do_not_set_the_clock() {
    let mut c = Clock::new();
    record_sync(&mut c, 0, 5);
    assert!(!is_synced(&c));
    record_sync(&mut c, 5, 10);
    assert!(!is_synced(&c));
}

#[test]
fn servers_are_asked_in_turn() {
    let mut c = Clock::new();
    assert_eq!(try_sync_once(&mut c, 0, NtpEvent::NoReply, 50), NtpStep::Ask(1));
    assert_eq!(try_sync_once(&mut c, 1, NtpEvent::SendFailed, 50), NtpStep::Sleep(30));
    assert!(!is_synced(&c));
    let p = reply(1_700_000_000);
    assert_eq!(try_sync_once(&mut c, 1, NtpEvent::Reply(&p), 50), NtpStep::Sleep(21_600));
    assert_eq!(wall_time_unix_secs(&c, 51), Some(1_700_000_001));
    // Later rounds without an answer keep the time and the longer wait.
    assert_eq!(try_sync_once(&mut c, 1, NtpEvent::NoReply, 99), NtpStep::Sleep(21_600));
    assert_eq!(wall_time_unix_secs(&c, 51), Some(1_700_000_001));
    assert_eq!(server(0), [162, 159, 200, 1]);
    assert_eq!(server(1), [162, 159, 200, 123]);
    assert_eq!((wait_after(true), wait_after(false)), (21_600, 30));
}

#[test]
fn refused_reply_leaves_the_clock_alone() {
    let mut c = Clock::new();
    let mut p = reply(1_700_000_000);
    p[1] = 0;
    assert_eq!(try_sync_once(&mut c, 0, NtpEvent::Reply(&p), 50), NtpStep::Ask(1));
    assert_eq!(try_sync_once(&mut c, 0, NtpEvent::Reply(&p[..47]), 50), NtpStep::Ask(1));
    assert!(!is_synced(&c));
    assert_eq!(encode_request()[0], 0x23);
}
