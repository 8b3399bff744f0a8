use radio::diagnostics::Diagnostics;
use radio::presets::PresetStore;
use radio::si4703::rds::RdsClockTime;
use radio::state::{FailReason, OtaProgress, RadioCommand, RadioState};
use radio::tasks::af_probe::{AfProbe, ProbeAction, ProbeEvent};
use radio::tasks::command::{CommandAction, CommandEvent, CommandRun};
use radio::tasks::controllers::{AfFollower, MonoController, WallClock};
use radio::tasks::preset_meta::{fill_meta_if_due, meta_filled};
use radio::tasks::refresh::{
    flush_last_tuned_if_due, handle_ota_command, next_step, ota_finished, refresh_begin,
    refresh_finish, wake_step, ControlStep, LastTuned, RadioControl, RefreshPlan, Wake,
};

fn control() -> (RadioControl, RadioState) {
    (RadioControl::new(PresetStore::open(None)), RadioState::boot())
}

fn run(
    c: &mut RadioControl,
    s: &mut RadioState,
    command: RadioCommand,
    events: &[CommandEvent],
    now: u64,
) -> Vec<CommandAction> {
    let mut run = CommandRun::new(command);
    let mut done = vec![run.handle_command(c, s, CommandEvent::Started, now)];
    for e in events {
        done.push(run.handle_command(c, s, *e, now));
    }
    done
}

/// Sends name and identification of a station, with its alternatives.
fn hear(c: &mut RadioControl, s: &mut RadioState, pi: u16, name: &[u8; 8], af: u16) {
    let plan = RefreshPlan { rssi: 30, stereo: true, set_mono: None };
    for seg in 0..4usize {
        let two = u16::from_be_bytes([name[2 * seg], name[2 * seg + 1]]);
        refresh_finish(c, s, plan, Some((pi, seg as u16, af, two)), 8, 0);
    }
}

#[test]
fn relative_tune_stays_in_the_band() {
    let (mut c, mut s) = control();
    let at = CommandEvent::Frequency(Some(1078));
    let did = run(&mut c, &mut s, RadioCommand::TuneRelative(5), &[at, CommandEvent::Tuned(true)], 9);
    assert_eq!(
        did,
        vec![CommandAction::ReadFrequency, CommandAction::Tune(1080), CommandAction::Done]
    );
    assert_eq!(s.freq_mhz_x10, 1080);
    assert_eq!(s.station_name, "--------");
    assert_eq!(c.last_tuned_pending, Some((1080, 9)));
    let unknown = CommandEvent::Frequency(None);
    let did = run(&mut c, &mut s, RadioCommand::TuneRelative(-3), &[unknown], 9);
    assert_eq!(did[1], CommandAction::Tune(875));
}

#[test]
fn tune_forgets_the_former_station() {
    let (mut c, mut s) = control();
    let mut d = Diagnostics::new();
    hear(&mut c, &mut s, 0xC201, b"BBC R1  ", 0xE205);
    refresh_finish(
        &mut c,
        &mut s,
        RefreshPlan { rssi: 30, stereo: true, set_mono: None },
        Some((0xC201, 0x2000, 0x4849, 0x0D20)),
        8,
        0,
    );
    assert_eq!((s.station_name.as_str(), s.radio_text.as_str()), ("BBC R1", "HI"));
    assert_eq!(s.af_count, 1);
    run(&mut c, &mut s, RadioCommand::TuneAbsolute(1015), &[CommandEvent::Tuned(true)], 5);
    assert_eq!(s.af_count, 0);
    let plan = refresh_begin(&mut c, &mut s, &mut d, Some((40, true)));
    refresh_finish(&mut c, &mut s, plan, None, 8, 10);
    assert_eq!((s.station_name.as_str(), s.radio_text.as_str()), ("--------", ""));
    refresh_finish(&mut c, &mut s, plan, Some((0xD301, 0x0000, 0, 0x4142)), 8, 20);
    assert_eq!((s.station_name.as_str(), s.radio_text.as_str()), ("AB", ""));
}

#[test]
fn failed_tune_changes_nothing() {
    let (mut c, mut s) = control();
    let did = run(&mut c, &mut s, RadioCommand::TuneAbsolute(2000), &[CommandEvent::Tuned(false)], 0);
    assert_eq!(did, vec![CommandAction::Tune(1080), CommandAction::Done]);
    assert_eq!(s.freq_mhz_x10, 875);
    assert_eq!(c.last_tuned_pending, None);
}

#[test]
fn mute_is_shown_once_it_is_set() {
    let (mut c, mut s) = control();
    let did = run(&mut c, &mut s, RadioCommand::ToggleMute, &[CommandEvent::Muted(true)], 0);
    assert_eq!(did, vec![CommandAction::SetMute(true), CommandAction::Done]);
    assert!(s.muted);
    run(&mut c, &mut s, RadioCommand::ToggleMute, &[CommandEvent::Muted(false)], 0);
    assert!(s.muted);
}

#[test]
fn preset_is_saved_with_what_is_known_of_its_station() {
    let (mut c, mut s) = control();
    hear(&mut c, &mut s, 0xC201, b"BBC R1  ", 0);
    let events = [CommandEvent::Frequency(Some(977)), CommandEvent::Stored(true)];
    let did = run(&mut c, &mut s, RadioCommand::SavePreset, &events, 0);
    assert_eq!(did[1], CommandAction::StorePresets);
    let stored = c.store.as_ref().unwrap().snapshot();
    assert_eq!(stored.freqs[0], 977);
    assert_eq!(stored.pi[0], 0xC201);
    assert_eq!(&stored.ps[0], b"BBC R1  ");
    assert_eq!(s.presets, stored);
    assert_eq!(s.preset_idx, Some(0));
}

#[test]
fn saving_a_saved_frequency_does_nothing() {
    let (mut c, mut s) = control();
    let save = [CommandEvent::Frequency(Some(977)), CommandEvent::Stored(true)];
    run(&mut c, &mut s, RadioCommand::SavePreset, &save, 0);
    let stored = c.store.as_ref().unwrap().snapshot();
    hear(&mut c, &mut s, 0xC201, b"BBC R1  ", 0);
    let did = run(&mut c, &mut s, RadioCommand::SavePreset, &save[..1], 0);
    assert_eq!(did, vec![CommandAction::ReadFrequency, CommandAction::Done]);
    assert_eq!(c.store.as_ref().unwrap().snapshot(), stored);
    assert_eq!(s.presets, stored);
}

#[test]
fn preset_that_could_not_be_stored_is_not_shown() {
    let (mut c, mut s) = control();
    let events = [CommandEvent::Frequency(Some(977)), CommandEvent::Stored(false)];
    run(&mut c, &mut s, RadioCommand::SavePreset, &events, 0);
    assert_eq!(c.store.as_ref().unwrap().snapshot().used(), 0);
    assert_eq!(s.presets.used(), 0);
}

#[test]
fn presets_are_cycled_or_sought() {
    let (mut c, mut s) = control();
    let at = CommandEvent::Frequency(Some(900));
    let found = CommandEvent::Sought(Some(950));
    let did = run(&mut c, &mut s, RadioCommand::CyclePreset, &[at, found], 0);
    assert_eq!(did[1], CommandAction::SeekUp);
    assert_eq!(s.freq_mhz_x10, 950);
    let save = [CommandEvent::Frequency(Some(977)), CommandEvent::Stored(true)];
    run(&mut c, &mut s, RadioCommand::SavePreset, &save, 0);
    let did = run(&mut c, &mut s, RadioCommand::CyclePreset, &[at, CommandEvent::Tuned(true)], 0);
    assert_eq!(did[1], CommandAction::Tune(977));
    assert_eq!((s.freq_mhz_x10, s.preset_idx), (977, Some(0)));
    // The only preset is tuned already.
    let at = CommandEvent::Frequency(Some(977));
    let did = run(&mut c, &mut s, RadioCommand::CyclePreset, &[at, CommandEvent::Sought(None)], 0);
    assert_eq!(did[1], CommandAction::SeekUp);
    assert_eq!(s.freq_mhz_x10, 977);
}

#[test]
fn sweep_returns_to_the_station() {
    let (mut c, mut s) = control();
    let mut run = CommandRun::new(RadioCommand::SpectrumScan);
    run.handle_command(&mut c, &mut s, CommandEvent::Started, 0);
    let a = run.handle_command(&mut c, &mut s, CommandEvent::Frequency(Some(1015)), 0);
    assert_eq!(a, CommandAction::Sweep);
    run.spectrum[7] = 42;
    let a = run.handle_command(&mut c, &mut s, CommandEvent::Swept, 0);
    assert_eq!(a, CommandAction::Tune(1015));
    assert_eq!(s.spectrum[7], 42);
    let a = run.handle_command(&mut c, &mut s, CommandEvent::Tuned(true), 0);
    assert_eq!(a, CommandAction::Done);
    assert_eq!(c.last_tuned_pending, None);
}

#[test]
fn metadata_is_filled_in_later() {
    let (mut c, mut s) = control();
    let save = [CommandEvent::Frequency(Some(977)), CommandEvent::Stored(true)];
    run(&mut c, &mut s, RadioCommand::SavePreset, &save, 0);
    run(&mut c, &mut s, RadioCommand::TuneAbsolute(977), &[CommandEvent::Tuned(true)], 1000);
    assert_eq!(c.store.as_ref().unwrap().snapshot().pi[0], 0);
    hear(&mut c, &mut s, 0xC201, b"BBC R1  ", 0);
    assert!(fill_meta_if_due(&mut c, 977, Some(false), 30_999).is_none());
    assert!(fill_meta_if_due(&mut c, 977, Some(true), 31_000).is_none());
    assert!(fill_meta_if_due(&mut c, 977, None, 31_000).is_none());
    let set = fill_meta_if_due(&mut c, 977, Some(false), 31_000).unwrap();
    assert_eq!(set.pi[0], 0xC201);
    meta_filled(&mut c, &mut s, set, false);
    assert_eq!(c.store.as_ref().unwrap().snapshot().pi[0], 0);
    let set = fill_meta_if_due(&mut c, 977, Some(false), 61_000).unwrap();
    meta_filled(&mut c, &mut s, set, true);
    assert_eq!(&s.presets.ps[0], b"BBC R1  ");
    assert!(fill_meta_if_due(&mut c, 977, Some(false), 91_000).is_none());
}

#[test]
fn last_tuned_is_stored_after_the_quiet_time() {
    let (mut c, mut s) = control();
    run(&mut c, &mut s, RadioCommand::TuneAbsolute(1015), &[CommandEvent::Tuned(true)], 500);
    assert!(matches!(flush_last_tuned_if_due(&mut c, Some(false), 30_499), LastTuned::Wait));
    assert!(matches!(flush_last_tuned_if_due(&mut c, Some(true), 40_000), LastTuned::Wait));
    assert!(matches!(flush_last_tuned_if_due(&mut c, None, 40_000), LastTuned::Wait));
    match flush_last_tuned_if_due(&mut c, Some(false), 40_000) {
        LastTuned::Store(set) => {
            assert_eq!(set.last_tuned, 1015);
            c.store.as_mut().unwrap().save_set(set, true).unwrap();
        }
        _ => panic!("nothing stored"),
    }
    assert!(matches!(flush_last_tuned_if_due(&mut c, Some(false), 80_000), LastTuned::Wait));
    run(&mut c, &mut s, RadioCommand::TuneAbsolute(1015), &[CommandEvent::Tuned(true)], 100_000);
    assert!(matches!(flush_last_tuned_if_due(&mut c, Some(false), 130_000), LastTuned::Unchanged));
}

#[test]
fn update_takes_the_store_and_gives_it_back() {
    let (mut c, mut s) = control();
    assert!(handle_ota_command(&mut c, &mut s, false).is_none());
    assert_eq!(s.ota_progress, OtaProgress::Failed(FailReason::Offline));
    run(&mut c, &mut s, RadioCommand::TuneAbsolute(1015), &[CommandEvent::Tuned(true)], 0);
    let paused = handle_ota_command(&mut c, &mut s, true).unwrap();
    assert!(c.store.is_none() && c.last_tuned_pending.is_none());
    assert!(handle_ota_command(&mut c, &mut s, true).is_none());
    ota_finished(&mut c, paused);
    assert!(c.store.is_some());
}

#[test]
fn refresh_copies_the_station_into_the_state() {
    let (mut c, mut s) = control();
    let mut d = Diagnostics::new();
    let plan = refresh_begin(&mut c, &mut s, &mut d, Some((40, true)));
    assert_eq!(plan, RefreshPlan { rssi: 40, stereo: true, set_mono: None });
    let group = Some((0xC201, 0x4000 | (14 << 5), 0x0000, (9 << 12) | (5 << 6) | 2));
    assert!(!refresh_finish(&mut c, &mut s, plan, group, 11, 60_000));
    assert_eq!((s.rssi, s.stereo, s.volume), (40, true, 11));
    assert_eq!(s.clock_hh_mm, Some((10, 5)));
    assert_eq!(s.pty_label, Some("Jazz"));
    assert_eq!(s.station_name, "--------");
    // The clock runs on without groups.
    refresh_finish(&mut c, &mut s, plan, None, 11, 60_000 + 61 * 60_000);
    assert_eq!(s.clock_hh_mm, Some((11, 6)));
    hear(&mut c, &mut s, 0xC201, b"RADIO 1 ", 0);
    assert_eq!(s.station_name, "RADIO 1");
}

#[test]
fn many_failed_reads_are_shown() {
    let (mut c, mut s) = control();
    let mut d = Diagnostics::new();
    for _ in 0..9 {
        refresh_begin(&mut c, &mut s, &mut d, None);
    }
    assert_eq!(s.station_name, "");
    refresh_begin(&mut c, &mut s, &mut d, None);
    assert_eq!(s.station_name, "I2C ERR!");
    assert_eq!(d.i2c_errors, 10);
    refresh_begin(&mut c, &mut s, &mut d, Some((1, false)));
    assert_eq!((c.i2c_error_count, d.i2c_errors), (0, 10));
}

#[test]
fn mono_is_forced_only_while_the_signal_stays_weak() {
    let mut m = MonoController::new();
    for _ in 0..9 {
        assert_eq!(m.observe(25), None);
    }
    assert_eq!(m.observe(26), None);
    for _ in 0..9 {
        assert_eq!(m.observe(10), None);
    }
    assert_eq!(m.observe(10), Some(true));
    assert!(m.engaged());
    for _ in 0..100 {
        assert_eq!(m.observe(34), None);
    }
    for _ in 0..9 {
        assert_eq!(m.observe(35), None);
    }
    assert_eq!(m.observe(75), Some(false));
}

#[test]
fn alternatives_are_probed_after_five_weak_seconds() {
    let mut f = AfFollower::new();
    for _ in 0..24 {
        assert!(!f.observe(18, 3));
    }
    assert!(f.observe(18, 3));
    for _ in 0..150 {
        assert!(!f.observe(0, 3));
    }
    for _ in 0..24 {
        assert!(!f.observe(0, 3));
    }
    assert!(f.observe(0, 3));
    let mut none = AfFollower::new();
    for _ in 0..300 {
        assert!(!none.observe(0, 0));
    }
}

#[test]
fn wall_clock_runs_from_the_group() {
    let ct = RdsClockTime { utc_hour: 23, utc_minute: 59, local_offset_half_hours: -3 };
    let w = WallClock::from_ct(ct, 1_000);
    assert_eq!(w.local_hh_mm(1_000), (22, 29));
    assert_eq!(w.local_hh_mm(60_999), (22, 29));
    assert_eq!(w.local_hh_mm(61_000), (22, 30));
    assert_eq!(w.local_hh_mm(0), (22, 29));
}

fn probe(c: &mut RadioControl, s: &mut RadioState) -> AfProbe {
    // A list of two: 88.0 and 90.0 MHz.
    let plan = RefreshPlan { rssi: 10, stereo: false, set_mono: None };
    refresh_finish(c, s, plan, Some((0xC201, 0, 0xE205, 0x2020)), 8, 0);
    refresh_finish(c, s, plan, Some((0xC201, 0, 0x1900, 0x2020)), 8, 0);
    AfProbe::begin(c, s, Some(1000)).unwrap()
}

#[test]
fn probe_moves_to_the_same_programme() {
    let (mut c, mut s) = control();
    let mut p = probe(&mut c, &mut s);
    assert!(s.af_following);
    let mut go = |c: &mut RadioControl, s: &mut RadioState, e, t| p.run_af_probe(c, s, e, t);
    assert_eq!(go(&mut c, &mut s, ProbeEvent::Rssi(Some(10)), 0), ProbeAction::Tune(880));
    assert_eq!(go(&mut c, &mut s, ProbeEvent::Tuned(true), 0), ProbeAction::Wait(120));
    assert_eq!(go(&mut c, &mut s, ProbeEvent::Waited, 0), ProbeAction::ReadRssi);
    assert_eq!(go(&mut c, &mut s, ProbeEvent::Rssi(Some(15)), 0), ProbeAction::Tune(900));
    assert_eq!(go(&mut c, &mut s, ProbeEvent::Tuned(true), 0), ProbeAction::Wait(120));
    assert_eq!(go(&mut c, &mut s, ProbeEvent::Waited, 0), ProbeAction::ReadRssi);
    assert_eq!(go(&mut c, &mut s, ProbeEvent::Rssi(Some(16)), 0), ProbeAction::Tune(900));
    assert_eq!(go(&mut c, &mut s, ProbeEvent::Tuned(true), 1000), ProbeAction::ReadGroup);
    assert_eq!(go(&mut c, &mut s, ProbeEvent::Group(None), 1000), ProbeAction::Wait(60));
    assert_eq!(go(&mut c, &mut s, ProbeEvent::Waited, 1060), ProbeAction::ReadGroup);
    let same = ProbeEvent::Group(Some((0xC201, 0, 0, 0x2020)));
    assert_eq!(go(&mut c, &mut s, same, 1060), ProbeAction::Done);
    assert_eq!(s.freq_mhz_x10, 900);
    assert!(!s.af_following);
    assert_eq!(c.last_tuned_pending, Some((900, 1060)));
}

#[test]
fn probe_returns_from_another_programme() {
    let (mut c, mut s) = control();
    let mut p = probe(&mut c, &mut s);
    let mut go = |c: &mut RadioControl, s: &mut RadioState, e, t| p.run_af_probe(c, s, e, t);
    go(&mut c, &mut s, ProbeEvent::Rssi(Some(10)), 0);
    assert_eq!(go(&mut c, &mut s, ProbeEvent::Tuned(false), 0), ProbeAction::Tune(900));
    go(&mut c, &mut s, ProbeEvent::Tuned(true), 0);
    go(&mut c, &mut s, ProbeEvent::Waited, 0);
    assert_eq!(go(&mut c, &mut s, ProbeEvent::Rssi(Some(40)), 0), ProbeAction::Tune(900));
    assert_eq!(go(&mut c, &mut s, ProbeEvent::Tuned(true), 0), ProbeAction::ReadGroup);
    let other = ProbeEvent::Group(Some((0xBEEF, 0, 0, 0x2020)));
    assert_eq!(go(&mut c, &mut s, other, 10), ProbeAction::Wait(60));
    assert_eq!(go(&mut c, &mut s, ProbeEvent::Waited, 799), ProbeAction::ReadGroup);
    assert_eq!(go(&mut c, &mut s, other, 799), ProbeAction::Wait(60));
    assert_eq!(go(&mut c, &mut s, ProbeEvent::Waited, 800), ProbeAction::Tune(1000));
    assert_eq!(go(&mut c, &mut s, ProbeEvent::Tuned(true), 800), ProbeAction::Done);
    assert_eq!(s.freq_mhz_x10, 875);
    assert!(!s.af_following);
    assert_eq!(c.rds.pi(), None);
}

#[test]
fn probe_returns_where_nothing_is_clearly_stronger() {
    let (mut c, mut s) = control();
    let mut p = probe(&mut c, &mut s);
    let mut go = |c: &mut RadioControl, s: &mut RadioState, e, t| p.run_af_probe(c, s, e, t);
    go(&mut c, &mut s, ProbeEvent::Rssi(Some(10)), 0);
    for rssi in [None, Some(15)] {
        go(&mut c, &mut s, ProbeEvent::Tuned(true), 0);
        go(&mut c, &mut s, ProbeEvent::Waited, 0);
        let a = go(&mut c, &mut s, ProbeEvent::Rssi(rssi), 0);
        assert_eq!(a, if rssi.is_none() { ProbeAction::Tune(900) } else { ProbeAction::Tune(1000) });
    }
}

#[test]
fn nothing_is_probed_without_identification_or_candidates() {
    let (mut c, mut s) = control();
    assert!(AfProbe::begin(&c, &mut s, Some(1000)).is_none());
    hear(&mut c, &mut s, 0xC201, b"RADIO 1 ", 0xE105);
    assert!(AfProbe::begin(&c, &mut s, None).is_none());
    assert!(AfProbe::begin(&c, &mut s, Some(880)).is_none());
    assert!(!s.af_following);
    assert!(AfProbe::begin(&c, &mut s, Some(1000)).is_some());
}

#[test]
fn tick_is_a_refresh_and_what_follows_it() {
    let mut d = Diagnostics::new();
    assert_eq!(wake_step(&Wake::Tick, &mut d, 77), ControlStep::Refresh);
    assert_eq!(d.last_feed_secs, Some(77));
    assert_eq!(wake_step(&Wake::Update, &mut d, 78), ControlStep::Update);
    let c = RadioCommand::ToggleMute;
    assert_eq!(wake_step(&Wake::Command(c), &mut d, 79), ControlStep::RunCommand(c));
    assert_eq!(next_step(ControlStep::Refresh, true), ControlStep::ProbeAlternatives);
    assert_eq!(next_step(ControlStep::Refresh, false), ControlStep::StoreLastTuned);
    assert_eq!(next_step(ControlStep::ProbeAlternatives, true), ControlStep::StoreLastTuned);
    assert_eq!(next_step(ControlStep::StoreLastTuned, false), ControlStep::FillPresetMeta);
    assert_eq!(next_step(ControlStep::FillPresetMeta, false), ControlStep::Sleep);
    assert_eq!(next_step(ControlStep::RunCommand(c), false), ControlStep::Sleep);
}
