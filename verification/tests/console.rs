use radio::diagnostics::{self_test, set_post_result, CheckStatus, Diagnostics};
use radio::listening_log::{capture, LogBuffer, Logger};
use radio::state::{FailReason, OtaCommand, OtaProgress, PresetSet, RadioCommand, RadioState};
use radio::web::{
    build_preset_slots, decode_preset_ps, format_rt_plus, handle_get_health, handle_get_log,
    handle_get_spectrum, handle_get_state, handle_post_mute, handle_post_ota,
    handle_post_preset_cycle, handle_post_preset_save, handle_post_spectrum_scan, handle_post_tune,
    handle_post_tune_down, handle_post_tune_up, status_code, OtaProgressDto, Refusal,
};

#[test]
fn tune_requests_outside_the_band_are_refused() {
    assert_eq!(handle_post_tune(874), Err(Refusal::BadRequest));
    assert_eq!(handle_post_tune(875), Ok(RadioCommand::TuneAbsolute(875)));
    assert_eq!(handle_post_tune(1080), Ok(RadioCommand::TuneAbsolute(1080)));
    assert_eq!(handle_post_tune(1081), Err(Refusal::BadRequest));
    assert_eq!(status_code(Some(Refusal::BadRequest)), 400);
    assert_eq!(status_code(Some(Refusal::Conflict)), 409);
    assert_eq!(status_code(None), 204);
}

#[test]
fn buttons_of_the_console_give_commands() {
    assert_eq!(handle_post_tune_up(), RadioCommand::TuneRelative(1));
    assert_eq!(handle_post_tune_down(), RadioCommand::TuneRelative(-1));
    assert_eq!(handle_post_preset_cycle(), RadioCommand::CyclePreset);
    assert_eq!(handle_post_mute(), RadioCommand::ToggleMute);
    assert_eq!(handle_post_spectrum_scan(), RadioCommand::SpectrumScan);
    let mut s = RadioState::boot();
    assert_eq!(handle_post_preset_save(&s), Ok(RadioCommand::SavePreset));
    s.freq_mhz_x10 = 0;
    assert_eq!(handle_post_preset_save(&s), Err(Refusal::Conflict));
}

#[test]
fn update_requests_are_checked() {
    let mut s = RadioState::boot();
    let url = "http://10.0.0.2/fw.bin".to_string();
    match handle_post_ota(url.clone(), &s) {
        Ok(OtaCommand::Start(u)) => assert_eq!(u, url),
        Err(e) => panic!("{:?}", e),
    }
    for bad in ["", "https://10.0.0.2/", "http:/x"] {
        assert_eq!(handle_post_ota(bad.to_string(), &s).err(), Some(Refusal::BadRequest));
    }
    let longest = format!("http://{}", "a".repeat(249));
    assert!(handle_post_ota(longest.clone(), &s).is_ok());
    assert_eq!(handle_post_ota(longest + "a", &s).err(), Some(Refusal::BadRequest));
    s.ota_in_progress = true;
    assert_eq!(handle_post_ota(url, &s).err(), Some(Refusal::Conflict));
}

#[test]
fn preset_names_are_cleaned() {
    assert_eq!(decode_preset_ps(b"BBC R1  ").as_deref(), Some("BBC R1"));
    assert_eq!(decode_preset_ps(b" \0A B\xC4\0 ").as_deref(), Some("A B?"));
    assert_eq!(decode_preset_ps(b"        "), None);
    assert_eq!(decode_preset_ps(&[0; 8]), None);
    assert_eq!(decode_preset_ps(b"\tBBC R1\r").as_deref(), Some("BBC R1"));
    assert_eq!(decode_preset_ps(b"A\tB\x7F\n\x0C\r ").as_deref(), Some("A?B?"));
    assert_eq!(decode_preset_ps(b"\t\n\x0C\r\0   "), None);
    let mut p = PresetSet::empty();
    p.save_with_meta(977, None, Some(*b"BBC R1  "));
    let slots = build_preset_slots(&p);
    assert_eq!(slots.len(), 8);
    assert_eq!((slots[0].freq, slots[0].ps.as_deref()), (977, Some("BBC R1")));
    assert_eq!((slots[1].freq, slots[1].ps.as_deref()), (0, None));
}

#[test]
fn song_is_shown_in_one_line() {
    let a = Some("Adele".to_string());
    let t = Some("Hello".to_string());
    assert_eq!(format_rt_plus(&a, &t).as_deref(), Some("Adele — Hello"));
    assert_eq!(format_rt_plus(&a, &None).as_deref(), Some("Adele"));
    assert_eq!(format_rt_plus(&None, &t).as_deref(), Some("Hello"));
    assert_eq!(format_rt_plus(&None, &None), None);
}

#[test]
fn state_is_answered() {
    let mut s = RadioState {
        freq_mhz_x10: 1015,
        station_name: "RADIO 1".to_string(),
        clock_hh_mm: Some((23, 4)),
        ota_progress: OtaProgress::Downloading { received: 5, total: 0 },
        ..RadioState::boot()
    };
    s.spectrum[51] = 9;
    let dto = handle_get_state(&s);
    assert_eq!((dto.freq_x10, dto.clock.as_str()), (1015, "23:04"));
    assert_eq!(dto.station_name, "RADIO 1");
    assert_eq!((dto.ota.phase, dto.ota.received, dto.ota.total), ("downloading", Some(5), None));
    let sp = handle_get_spectrum(&s);
    assert_eq!((sp.samples.len(), sp.samples[51]), (52, 9));
    assert_eq!((sp.freq_x10, sp.bottom_x10, sp.top_x10), (1015, 875, 1080));
}

#[test]
fn update_phases_have_names() {
    let name = |p| OtaProgressDto::from_progress(p).phase;
    assert_eq!(name(OtaProgress::Idle), "idle");
    assert_eq!(name(OtaProgress::Connecting), "connecting");
    assert_eq!(name(OtaProgress::Activating), "activating");
    assert_eq!(name(OtaProgress::Success), "success");
    let f = OtaProgressDto::from_progress(OtaProgress::Failed(FailReason::NoSlot));
    assert_eq!((f.phase, f.reason), ("failed", Some("no slot")));
    let d = OtaProgressDto::from_progress(OtaProgress::Downloading { received: 1, total: 2 });
    assert_eq!((d.received, d.total), (Some(1), Some(2)));
}

#[test]
fn log_is_sampled_and_answered() {
    let mut log = LogBuffer::new();
    let mut logger = Logger::new();
    let mut s = RadioState::boot();
    s.station_name = "RADIO 1".to_string();
    s.radio_text = "a text of more than twenty-four bytes".to_string();
    assert!(logger.sample(&mut log, 20, &s));
    assert!(!logger.sample(&mut log, 30, &s));
    s.station_name = "RADIO 2".to_string();
    assert!(logger.sample(&mut log, 40, &s));
    let dto = handle_get_log(&log, Some(1_700_000_000));
    assert_eq!((dto.capacity, dto.now_unix), (64, Some(1_700_000_000)));
    assert_eq!(dto.entries.len(), 2);
    assert_eq!((dto.entries[0].uptime_secs, dto.entries[0].ps.as_str()), (20, "RADIO 1"));
    assert_eq!(dto.entries[1].ps, "RADIO 2");
    assert_eq!(dto.entries[1].rt, "a text of more than twen");
    let e = capture(7, &s);
    assert_eq!((e.uptime_secs, e.freq_x10, e.ps_str()), (7, 875, "RADIO 2"));
}

#[test]
fn health_is_pending_until_the_self_test_is_over() {
    let mut d = Diagnostics::new();
    let s = RadioState::boot();
    let h = handle_get_health(&d, &s, 50, 100, 3);
    assert_eq!((h.post_status.as_str(), h.tuner_ok, h.heap_usage_pct), ("pending", false, 50));
    set_post_result(&mut d, self_test(CheckStatus::Pass, Some(0), Some(0)));
    let h = handle_get_health(&d, &s, 50, 100, 3);
    assert_eq!((h.post_status.as_str(), h.tuner_ok), ("POST FAIL: 0x01", false));
}
