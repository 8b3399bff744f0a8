use radio::boot::{forgets_network, initial_frequency, needs_scan, publish_wifi};
use radio::display::{process_line, LinePixel};
use radio::si4703::Station;
use radio::state::{
    clamp_freq, pick_strongest, publish_clock, publish_freq, publish_presets, publish_pty,
    publish_radio_text, publish_rt_plus, publish_station_name, publish_web_ip, set_status,
    FailReason, OtaProgress, PresetSet, RadioState,
};
use radio::ui::{
    apply_ota_to_ui, apply_state_to_ui, spectrum_cursor_for, take_dirty, OverlayBar, OverlayStatus,
};

fn clean() -> RadioState {
    RadioState { dirty: false, ..RadioState::boot() }
}

#[test]
fn line_is_split_into_pixels() {
    let pixels = process_line(5, 100, &[0xF800, 0x07E0, 0x001F, 0xFFFF]);
    assert_eq!(pixels[0], LinePixel { x: 100, y: 5, r: 31, g: 0, b: 0 });
    assert_eq!(pixels[1], LinePixel { x: 101, y: 5, r: 0, g: 63, b: 0 });
    assert_eq!(pixels[2], LinePixel { x: 102, y: 5, r: 0, g: 0, b: 31 });
    assert_eq!(pixels[3], LinePixel { x: 103, y: 5, r: 31, g: 63, b: 31 });
}

#[test]
fn cursor_stands_on_the_bucket_of_the_frequency() {
    assert_eq!(spectrum_cursor_for(0), 0);
    assert_eq!(spectrum_cursor_for(875), 0);
    assert_eq!(spectrum_cursor_for(1015), 35);
    assert_eq!(spectrum_cursor_for(1080), 51);
    assert_eq!(spectrum_cursor_for(u16::MAX), 51);
}

#[test]
fn state_is_shown_as_text() {
    let mut s = RadioState {
        freq_mhz_x10: 1015,
        rssi: 40,
        stereo: true,
        clock_hh_mm: Some((9, 5)),
        pty_label: Some("News"),
        af_count: 3,
        web_ip: Some([192, 168, 1, 20]),
        ..RadioState::boot()
    };
    s.presets.save(1015);
    s.presets.save(977);
    s.preset_idx = Some(0);
    s.spectrum[2] = 7;
    let v = apply_state_to_ui(&s);
    assert_eq!((v.freq_mhz_x10, v.rssi, v.volume), (1015, 40, 8));
    assert_eq!(v.clock_text, "09:05");
    assert_eq!(v.pty_label, "News");
    assert_eq!((v.stereo_text, v.stereo_active), ("ST", true));
    assert_eq!((v.af_text.as_str(), v.af_active), ("AF·3", false));
    assert_eq!(v.preset_text, "P 1/2");
    assert_eq!(v.web_ip, "192.168.1.20");
    assert_eq!((v.spectrum.len(), v.spectrum[2], v.spectrum_cursor), (52, 7, 35));
    assert_eq!(v.status_text, "Booting...");
}

#[test]
fn badges_follow_the_state() {
    let v = apply_state_to_ui(&RadioState::boot());
    assert_eq!((v.stereo_text, v.af_text.as_str(), v.preset_text.as_str()), ("MO", "", ""));
    assert_eq!((v.clock_text.as_str(), v.web_ip.as_str(), v.pty_label), ("", "", ""));
    let mut s = RadioState { auto_mono: true, stereo: true, ..RadioState::boot() };
    s.af_following = true;
    s.presets.save(977);
    let v = apply_state_to_ui(&s);
    assert_eq!((v.stereo_text, v.stereo_active), ("MO*", false));
    assert_eq!((v.af_text.as_str(), v.af_active), ("AF→", true));
    assert_eq!(v.preset_text, "P -/1");
}

#[test]
fn overlay_follows_the_update() {
    let idle = apply_ota_to_ui(OtaProgress::Idle);
    assert!(!idle.active);
    assert_eq!(idle.bar, OverlayBar::Percent(0));
    let c = apply_ota_to_ui(OtaProgress::Connecting);
    assert!(matches!(c.status, OverlayStatus::Text(t) if t == "Connecting…"));
    assert_eq!(c.bar, OverlayBar::Percent(5));
    let d = apply_ota_to_ui(OtaProgress::Downloading { received: 10, total: 0 });
    assert!(d.indeterminate && matches!(d.status, OverlayStatus::Received(10)));
    assert_eq!(d.bar, OverlayBar::Percent(50));
    let d = apply_ota_to_ui(OtaProgress::Downloading { received: 10, total: 40 });
    assert!(!d.indeterminate && matches!(d.status, OverlayStatus::ReceivedOf(10, 40)));
    assert_eq!(d.bar, OverlayBar::Ratio(10, 40));
    assert_eq!(apply_ota_to_ui(OtaProgress::Activating).bar, OverlayBar::Percent(95));
    assert!(apply_ota_to_ui(OtaProgress::Success).success);
    let f = apply_ota_to_ui(OtaProgress::Failed(FailReason::BadImage));
    assert!(f.failed && matches!(f.status, OverlayStatus::Text(t) if t == "Failed: bad image"));
}

#[test]
fn display_is_redrawn_only_on_a_change() {
    let mut s = clean();
    publish_clock(&mut s, None);
    publish_pty(&mut s, None);
    publish_web_ip(&mut s, None);
    publish_presets(&mut s, PresetSet::empty(), 900);
    assert!(!s.dirty);
    publish_clock(&mut s, Some((1, 2)));
    assert!(take_dirty(&mut s));
    assert!(!take_dirty(&mut s));
    publish_pty(&mut s, Some("News"));
    assert!(take_dirty(&mut s));
    publish_web_ip(&mut s, Some([1, 2, 3, 4]));
    publish_web_ip(&mut s, Some([1, 2, 3, 4]));
    assert!(take_dirty(&mut s));
    publish_freq(&mut s, 875);
    assert!(take_dirty(&mut s));
    set_status(&mut s, "Ready");
    assert!(s.dirty);
    assert_eq!(s.status, "Ready");
}

#[test]
fn strongest_station_is_tuned_first() {
    let found = [
        Station { freq_mhz_x10: 900, rssi: 30 },
        Station { freq_mhz_x10: 950, rssi: 45 },
        Station { freq_mhz_x10: 1000, rssi: 45 },
    ];
    assert_eq!(pick_strongest(&found), Some(1000));
    assert_eq!(pick_strongest(&[]), None);
    assert_eq!(initial_frequency(977, Some(&found)), 977);
    assert_eq!(initial_frequency(0, Some(&found)), 1000);
    assert_eq!(initial_frequency(0, Some(&[])), 875);
    assert_eq!(initial_frequency(0, None), 875);
    assert!(needs_scan(0) && !needs_scan(977));
}

#[test]
fn frequencies_are_brought_into_the_band() {
    assert_eq!((clamp_freq(-5), clamp_freq(1000), clamp_freq(5000)), (875, 1000, 1080));
}

#[test]
fn network_is_shown_and_can_be_forgotten() {
    let mut s = clean();
    publish_wifi(&mut s, Some("home"));
    assert!(s.wifi_connected && s.dirty);
    assert_eq!((s.wifi_ssid.as_str(), s.status.as_str()), ("home", "WiFi OK"));
    publish_wifi(&mut s, None);
    assert!(!s.wifi_connected);
    assert_eq!(s.status, "WiFi failed");
    assert!(!forgets_network(799));
    assert!(forgets_network(800));
}

#[test]
fn texts_are_published_whole() {
    let mut s = clean();
    publish_station_name(&mut s, "BBC R1".to_string());
    publish_radio_text(&mut s, "Now playing".to_string());
    publish_rt_plus(&mut s, Some("Hello".to_string()), None);
    assert!(s.dirty);
    assert_eq!((s.station_name.as_str(), s.radio_text.as_str()), ("BBC R1", "Now playing"));
    assert_eq!((s.rt_plus_title.as_deref(), s.rt_plus_artist), (Some("Hello"), None));
}
