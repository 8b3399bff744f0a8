use radio::diagnostics::error_codes::{HEAP_ALLOC, I2C_BUS, PCNT_READ, SI4703_DEV_ID, SI4703_INIT};
use radio::diagnostics::{
    check_heap, check_i2c_bus, check_si4703_device_id, get_post_result, heap_verdict,
    increment_i2c_errors, record_boot_time, self_test, set_post_result, uptime_secs,
    watchdog_elapsed_secs, watchdog_feed, watchdog_ok, CheckStatus, Diagnostics, HealthDto,
    PostResult,
};
use radio::state::RadioState;

fn post(bus: CheckStatus, id: CheckStatus, heap: CheckStatus, enc: CheckStatus) -> PostResult {
    PostResult { i2c_bus: bus, si4703_id: id, heap_alloc: heap, encoder: enc }
}

#[test]
fn heap_of_this_machine_passes() {
    assert_eq!(check_heap(), CheckStatus::Pass);
}

#[test]
fn heap_is_judged_by_room_and_contents() {
    let good: Vec<u8> = (0..64).collect();
    assert_eq!(heap_verdict(64, &good), CheckStatus::Pass);
    assert_eq!(heap_verdict(63, &good), CheckStatus::Fail(HEAP_ALLOC));
    let mut bad = good.clone();
    bad[63] = 0;
    assert_eq!(heap_verdict(64, &bad), CheckStatus::Fail(HEAP_ALLOC));
}

#[test]
fn chip_and_bus_are_judged_by_the_device_id() {
    assert_eq!(check_si4703_device_id(0x1242), CheckStatus::Pass);
    assert_eq!(check_si4703_device_id(0x1243), CheckStatus::Fail(SI4703_DEV_ID));
    assert_eq!(check_i2c_bus(0xFFFF), CheckStatus::Pass);
    assert_eq!(check_i2c_bus(0), CheckStatus::Fail(I2C_BUS));
}

#[test]
fn self_test_tells_the_first_failure() {
    let ok = self_test(CheckStatus::Pass, Some(0x1242), Some(0));
    assert!(ok.all_pass() && !ok.tuner_failed());
    assert_eq!(ok.status_message(), "POST OK");
    assert_eq!(ok.first_failure_code(), None);
    let silent = self_test(CheckStatus::Pass, None, Some(0));
    assert!(silent.tuner_failed());
    assert_eq!(silent.first_failure_code(), Some(I2C_BUS));
    assert_eq!(silent.si4703_id, CheckStatus::Fail(SI4703_INIT));
    let heap = self_test(CheckStatus::Fail(HEAP_ALLOC), Some(0x1242), Some(0));
    assert!(!heap.all_pass() && !heap.tuner_failed());
    assert_eq!(ok.encoder, CheckStatus::Pass);
    let stuck = self_test(CheckStatus::Pass, Some(0x1242), None);
    assert_eq!(stuck.encoder, CheckStatus::Fail(PCNT_READ));
    assert_eq!(stuck.status_message(), "POST FAIL: 0x05");
    assert!(!stuck.all_pass() && !stuck.tuner_failed());
}

#[test]
fn every_code_has_its_message() {
    let s = CheckStatus::Skipped;
    let cases = [
        (I2C_BUS, "POST FAIL: 0x01"),
        (SI4703_DEV_ID, "POST FAIL: 0x02"),
        (SI4703_INIT, "POST FAIL: 0x03"),
        (HEAP_ALLOC, "POST FAIL: 0x04"),
        (PCNT_READ, "POST FAIL: 0x05"),
        (0x9F, "POST FAIL: 0x9F"),
    ];
    for (code, message) in cases {
        assert_eq!(post(s, s, s, CheckStatus::Fail(code)).status_message(), message);
    }
    assert!(post(s, s, s, s).all_pass());
}

#[test]
fn watchdog_tells_a_stall() {
    let mut d = Diagnostics::new();
    assert!(watchdog_ok(&d, 1000));
    assert_eq!(watchdog_elapsed_secs(&d, 1000), None);
    watchdog_feed(&mut d, 1000);
    assert!(watchdog_ok(&d, 1005));
    assert!(!watchdog_ok(&d, 1006));
    assert_eq!(watchdog_elapsed_secs(&d, 1006), Some(6));
    watchdog_feed(&mut d, 0);
    assert_eq!(watchdog_elapsed_secs(&d, 6), Some(6));
    assert!(watchdog_ok(&d, 5) && !watchdog_ok(&d, 6));
}

#[test]
fn health_is_captured() {
    let mut d = Diagnostics::new();
    record_boot_time(&mut d, 10);
    assert_eq!(uptime_secs(&d, 100), 90);
    increment_i2c_errors(&mut d);
    let state = RadioState { rssi: 33, wifi_connected: true, ..RadioState::boot() };
    let p = self_test(CheckStatus::Pass, Some(0x1242), Some(0));
    set_post_result(&mut d, p);
    assert_eq!(get_post_result(&d), Some(p));
    let h = HealthDto::capture(&d, &p, &state, 40_000, 160_000, 100);
    assert_eq!((h.uptime_secs, h.i2c_errors, h.rssi), (90, 1, 33));
    assert_eq!((h.heap_free, h.heap_total, h.heap_usage_pct), (40_000, 160_000, 75));
    assert!(h.wifi_connected && h.tuner_ok && h.radio_task_alive);
    assert_eq!(h.post_status, "POST OK");
    let h = HealthDto::pending(&d, 10, 0, 100);
    assert_eq!((h.heap_usage_pct, h.post_status.as_str()), (0, "pending"));
}

#[test]
fn error_counter_goes_round() {
    let mut d = Diagnostics { i2c_errors: u32::MAX, ..Diagnostics::new() };
    increment_i2c_errors(&mut d);
    assert_eq!(d.i2c_errors, 0);
}
