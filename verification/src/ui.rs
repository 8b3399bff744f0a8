//! What the display shows: the state as texts, numbers and flags.

use vstd::prelude::*;

use crate::ota::http_download;
use crate::ota::http_download::push_dotted;
use crate::spectrum;
use crate::state;
use crate::state::{clock_text, FailReason, OtaProgress, RadioState, SPECTRUM_LEN};
use crate::strings;
use crate::strings::{push_decimal, push_text};

verus! {

/// Lower end of the band (0.1 MHz).
pub const BOTTOM_X10: u16 = 875;

/// Upper end of the band (0.1 MHz).
pub const TOP_X10: u16 = 1080;

/// Bucket of the band sweep in which a frequency lies; the first below the
/// band, the last above it.
pub open spec fn cursor_of(freq: u16) -> int {
    if freq < BOTTOM_X10 {
        0
    } else {
        let i = (freq - BOTTOM_X10) * SPECTRUM_LEN as int / (TOP_X10 - BOTTOM_X10);
        if i > SPECTRUM_LEN - 1 {
            SPECTRUM_LEN - 1
        } else {
            i
        }
    }
}

/// Bucket of the band sweep in which a frequency lies.
pub fn spectrum_cursor_for(freq_mhz_x10: u16) -> (r: i32)
    ensures
        r == cursor_of(freq_mhz_x10),
        0 <= r < SPECTRUM_LEN,
{
    if freq_mhz_x10 < BOTTOM_X10 {
        return 0;
    }
    let span: u32 = (TOP_X10 - BOTTOM_X10) as u32;
    let offset: u32 = (freq_mhz_x10 - BOTTOM_X10) as u32;
    let n: u32 = SPECTRUM_LEN as u32;
    let idx: u32 = offset * n / span;
    if idx > n - 1 {
        (n - 1) as i32
    } else {
        idx as i32
    }
}

/// The cursor stands on the bucket of the band sweep that holds the frequency,
/// and for a frequency that the sweep sampled, on the bucket of that sample.
pub proof fn law_cursor_stands_on_the_sampled_bucket(freq: u16, i: int)
    requires
        0 <= i < SPECTRUM_LEN,
    ensures
        cursor_of(freq) == spectrum::bucket_of(
            BOTTOM_X10,
            TOP_X10,
            SPECTRUM_LEN as int,
            freq as int,
        ),
        cursor_of(
            spectrum::bucket_centre(BOTTOM_X10, TOP_X10, SPECTRUM_LEN as int, i) as u16,
        ) == i,
{
    spectrum::law_centre_in_band(BOTTOM_X10, TOP_X10, SPECTRUM_LEN as int, i);
    spectrum::law_centre_falls_into_its_bucket(BOTTOM_X10, TOP_X10, SPECTRUM_LEN as int, i);
}

/// What the display shows.
pub struct UiView {
    pub freq_mhz_x10: i32,
    pub rssi: i32,
    pub volume: i32,
    pub muted: bool,
    pub wifi_connected: bool,
    pub wifi_ssid: String,
    /// Address of the web console, empty where unknown.
    pub web_ip: String,
    pub status_text: String,
    pub station_name: String,
    pub radio_text: String,
    /// Local time, empty where unknown.
    pub clock_text: String,
    /// Programme type, empty where unknown.
    pub pty_label: &'static str,
    /// `ST`, `MO`, or `MO*` where mono is forced.
    pub stereo_text: &'static str,
    pub stereo_active: bool,
    /// Badge of the alternative frequencies, empty where there are none.
    pub af_text: String,
    pub af_active: bool,
    /// Badge of the presets, empty where there are none.
    pub preset_text: String,
    pub spectrum: Vec<i32>,
    pub spectrum_cursor: i32,
}

/// The stereo indicator.
pub open spec fn stereo_shown(auto_mono: bool, stereo: bool) -> Seq<char> {
    if auto_mono {
        "MO*"@
    } else if stereo {
        "ST"@
    } else {
        "MO"@
    }
}

/// The badge of the alternative frequencies.
pub open spec fn af_shown(following: bool, count: u8) -> Seq<char> {
    if following {
        "AF→"@
    } else if count == 0 {
        Seq::empty()
    } else {
        "AF·"@ + strings::decimal(count as nat)
    }
}

/// The badge of the presets: which of them is tuned, and how many there are.
pub open spec fn presets_shown(idx: Option<u8>, used: nat) -> Seq<char> {
    if used == 0 {
        Seq::empty()
    } else {
        match idx {
            Some(i) => "P "@ + strings::decimal((i + 1) as nat) + "/"@ + strings::decimal(used),
            None => "P -/"@ + strings::decimal(used),
        }
    }
}

/// The address of the web console.
pub open spec fn ip_shown(ip: Option<[u8; 4]>) -> Seq<char> {
    match ip {
        Some(a) => http_download::dotted(a@),
        None => Seq::empty(),
    }
}

fn af_badge(following: bool, count: u8) -> (r: String)
    ensures
        r@ == af_shown(following, count),
{
    let mut s: String = String::new();
    if following {
        push_text(&mut s, "AF→");
        assert(s@ =~= "AF→"@);
    } else if count > 0 {
        push_text(&mut s, "AF·");
        push_decimal(&mut s, count as u64);
        assert(s@ =~= "AF·"@ + strings::decimal(count as nat));
    }
    s
}

fn preset_badge(idx: Option<u8>, used: usize) -> (r: String)
    ensures
        r@ == presets_shown(idx, used as nat),
{
    let mut s: String = String::new();
    if used > 0 {
        match idx {
            Some(i) => {
                push_text(&mut s, "P ");
                push_decimal(&mut s, i as u64 + 1);
                push_text(&mut s, "/");
                push_decimal(&mut s, used as u64);
            },
            None => {
                push_text(&mut s, "P -/");
                push_decimal(&mut s, used as u64);
            },
        }
        assert(s@ =~= presets_shown(idx, used as nat));
    }
    s
}

/// What the display shows of a state.
pub fn apply_state_to_ui(snapshot: &RadioState) -> (r: UiView)
    ensures
        r.freq_mhz_x10 == snapshot.freq_mhz_x10,
        r.rssi == snapshot.rssi,
        r.volume == snapshot.volume,
        r.muted == snapshot.muted,
        r.wifi_connected == snapshot.wifi_connected,
        r.wifi_ssid@ == snapshot.wifi_ssid@,
        r.web_ip@ == ip_shown(snapshot.web_ip),
        r.status_text@ == snapshot.status@,
        r.station_name@ == snapshot.station_name@,
        r.radio_text@ == snapshot.radio_text@,
        r.clock_text@ == state::clock_shown(snapshot.clock_hh_mm),
        r.pty_label@ == (match snapshot.pty_label {
            Some(l) => l@,
            None => ""@,
        }),
        r.stereo_text@ == stereo_shown(snapshot.auto_mono, snapshot.stereo),
        r.stereo_active == (snapshot.stereo && !snapshot.auto_mono),
        r.af_text@ == af_shown(snapshot.af_following, snapshot.af_count),
        r.af_active == snapshot.af_following,
        r.preset_text@ == presets_shown(
            snapshot.preset_idx,
            state::used_slots(snapshot.presets.freqs@, 8),
        ),
        r.spectrum@ == Seq::new(SPECTRUM_LEN as nat, |i: int| snapshot.spectrum@[i] as i32),
        r.spectrum_cursor == cursor_of(snapshot.freq_mhz_x10),
{
    let mut web_ip: String = String::new();
    if let Some(ip) = snapshot.web_ip {
        push_dotted(&mut web_ip, ip);
        assert(web_ip@ =~= http_download::dotted(ip@));
    }
    let mut spectrum: Vec<i32> = Vec::new();
    let mut i: usize = 0;
    while i < SPECTRUM_LEN
        invariant
            i <= SPECTRUM_LEN,
            spectrum@ == Seq::new(i as nat, |k: int| snapshot.spectrum@[k] as i32),
        decreases SPECTRUM_LEN - i,
    {
        spectrum.push(snapshot.spectrum[i] as i32);
        i = i + 1;
        assert(spectrum@ =~= Seq::new(i as nat, |k: int| snapshot.spectrum@[k] as i32));
    }
    UiView {
        freq_mhz_x10: snapshot.freq_mhz_x10 as i32,
        rssi: snapshot.rssi as i32,
        volume: snapshot.volume as i32,
        muted: snapshot.muted,
        wifi_connected: snapshot.wifi_connected,
        wifi_ssid: snapshot.wifi_ssid.clone(),
        web_ip,
        status_text: snapshot.status.clone(),
        station_name: snapshot.station_name.clone(),
        radio_text: snapshot.radio_text.clone(),
        clock_text: clock_text(snapshot.clock_hh_mm),
        pty_label: match snapshot.pty_label {
            Some(l) => l,
            None => "",
        },
        stereo_text: if snapshot.auto_mono {
            "MO*"
        } else if snapshot.stereo {
            "ST"
        } else {
            "MO"
        },
        stereo_active: snapshot.stereo && !snapshot.auto_mono,
        af_text: af_badge(snapshot.af_following, snapshot.af_count),
        af_active: snapshot.af_following,
        preset_text: preset_badge(snapshot.preset_idx, snapshot.presets.used()),
        spectrum,
        spectrum_cursor: spectrum_cursor_for(snapshot.freq_mhz_x10),
    }
}

// ---------------------------------------------------------------------------
// Overlay of an update
// ---------------------------------------------------------------------------

/// Line of text in the overlay.
pub enum OverlayStatus {
    Text(String),
    /// Bytes received; of how many is not known.
    Received(u32),
    /// Bytes received, of so many.
    ReceivedOf(u32, u32),
}

/// Length of the overlay's bar.
#[derive(Clone, Copy, Debug, PartialEq, Eq, Structural)]
pub enum OverlayBar {
    /// So many hundredths.
    Percent(u8),
    /// The first as a part of the second, which is not 0, and at most all.
    Ratio(u32, u32),
}

/// The overlay that is shown during an update.
pub struct OtaOverlay {
    /// Whether it is shown.
    pub active: bool,
    pub status: OverlayStatus,
    pub bar: OverlayBar,
    /// Whether the bar only says that something is going on.
    pub indeterminate: bool,
    pub success: bool,
    pub failed: bool,
}

/// The line of text.
pub open spec fn overlay_status(progress: OtaProgress) -> Seq<char> {
    match progress {
        OtaProgress::Connecting => "Connecting…"@,
        OtaProgress::Activating => "Activating…"@,
        OtaProgress::Success => "Update staged"@,
        OtaProgress::Failed(reason) => "Failed: "@ + reason.text(),
        _ => Seq::empty(),
    }
}

/// The bar. Phases that count no bytes have a fixed length each.
pub open spec fn overlay_bar(progress: OtaProgress) -> OverlayBar {
    match progress {
        OtaProgress::Idle => OverlayBar::Percent(0),
        OtaProgress::Connecting => OverlayBar::Percent(5),
        OtaProgress::Downloading { received, total } => if total == 0 {
            OverlayBar::Percent(50)
        } else {
            OverlayBar::Ratio(received, total)
        },
        OtaProgress::Activating => OverlayBar::Percent(95),
        OtaProgress::Success => OverlayBar::Percent(100),
        OtaProgress::Failed(_) => OverlayBar::Percent(100),
    }
}

fn failed_text(reason: FailReason) -> (r: String)
    ensures
        r@ == "Failed: "@ + reason.text(),
{
    let mut s: String = String::new();
    push_text(&mut s, "Failed: ");
    push_text(&mut s, reason.as_text());
    assert(s@ =~= "Failed: "@ + reason.text());
    s
}

/// The overlay for where an update stands.
pub fn apply_ota_to_ui(progress: OtaProgress) -> (r: OtaOverlay)
    ensures
        r.active == !(progress is Idle),
        match progress {
            OtaProgress::Downloading { received, total } => if total == 0 {
                r.status == OverlayStatus::Received(received)
            } else {
                r.status == OverlayStatus::ReceivedOf(received, total)
            },
            _ => r.status matches OverlayStatus::Text(s) && s@ == overlay_status(progress),
        },
        r.bar == overlay_bar(progress),
        r.indeterminate == (progress matches OtaProgress::Downloading { total, .. } && total == 0),
        r.success == (progress is Success),
        r.failed == (progress is Failed),
{
    let (status, bar): (OverlayStatus, OverlayBar) = match progress {
        OtaProgress::Idle => (OverlayStatus::Text(String::new()), OverlayBar::Percent(0)),
        OtaProgress::Connecting => (
            OverlayStatus::Text("Connecting…".to_owned()),
            OverlayBar::Percent(5),
        ),
        OtaProgress::Downloading { received, total } => if total == 0 {
            (OverlayStatus::Received(received), OverlayBar::Percent(50))
        } else {
            (OverlayStatus::ReceivedOf(received, total), OverlayBar::Ratio(received, total))
        },
        OtaProgress::Activating => (
            OverlayStatus::Text("Activating…".to_owned()),
            OverlayBar::Percent(95),
        ),
        OtaProgress::Success => (
            OverlayStatus::Text("Update staged".to_owned()),
            OverlayBar::Percent(100),
        ),
        OtaProgress::Failed(reason) => (
            OverlayStatus::Text(failed_text(reason)),
            OverlayBar::Percent(100),
        ),
    };
    OtaOverlay {
        active: !matches!(progress, OtaProgress::Idle),
        status,
        bar,
        indeterminate: match progress {
            OtaProgress::Downloading { total, .. } => total == 0,
            _ => false,
        },
        success: matches!(progress, OtaProgress::Success),
        failed: matches!(progress, OtaProgress::Failed(_)),
    }
}

/// Whether the display is to be drawn anew; clears the mark that says so.
pub fn take_dirty(state: &mut RadioState) -> (r: bool)
    ensures
        r == old(state).dirty,
        *final(state) == (RadioState { dirty: false, ..*old(state) }),
{
    let r: bool = state.dirty;
    state.dirty = false;
    r
}

/// The badges say what they stand for: mono that is forced is marked as such, a
/// running probe hides the count of alternatives, and the tuned preset is
/// counted from one, among those that are in use.
pub proof fn law_badges_say_what_they_stand_for(stereo: bool, count: u8, idx: u8, used: nat)
    requires
        used > 0,
    ensures
        stereo_shown(true, stereo) == "MO*"@,
        stereo_shown(false, true) == "ST"@,
        stereo_shown(false, false) == "MO"@,
        af_shown(true, count) == "AF→"@,
        count > 0 ==> af_shown(false, count) == "AF·"@ + strings::decimal(count as nat),
        af_shown(false, 0).len() == 0,
        presets_shown(Some(idx), used) == "P "@ + strings::decimal(idx as nat + 1) + "/"@
            + strings::decimal(used),
        presets_shown(None, used) == "P -/"@ + strings::decimal(used),
        presets_shown(Some(idx), 0).len() == 0,
{
}

/// The bar never goes back while an update goes on, shows the share that has
/// arrived where the length is known, and is full at the end.
pub proof fn law_bar_goes_with_the_update(received: u32, total: u32, reason: FailReason)
    ensures
        overlay_bar(OtaProgress::Idle) == OverlayBar::Percent(0),
        overlay_bar(OtaProgress::Connecting) == OverlayBar::Percent(5),
        total > 0 ==> overlay_bar(OtaProgress::Downloading { received, total })
            == OverlayBar::Ratio(received, total),
        overlay_bar(OtaProgress::Downloading { received, total: 0 }) == OverlayBar::Percent(50),
        overlay_bar(OtaProgress::Activating) == OverlayBar::Percent(95),
        overlay_bar(OtaProgress::Success) == OverlayBar::Percent(100),
        overlay_bar(OtaProgress::Failed(reason)) == OverlayBar::Percent(100),
{
}

/// The overlay says what an update is doing, and why it failed.
pub proof fn law_overlay_says_what_goes_on(reason: FailReason)
    ensures
        overlay_status(OtaProgress::Connecting) == "Connecting…"@,
        overlay_status(OtaProgress::Activating) == "Activating…"@,
        overlay_status(OtaProgress::Success) == "Update staged"@,
        overlay_status(OtaProgress::Failed(reason)) == "Failed: "@ + reason.text(),
        overlay_status(OtaProgress::Idle).len() == 0,
{
}

} // verus!
