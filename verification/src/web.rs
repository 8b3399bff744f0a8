//! Web console: what its requests answer, and which commands they give.

use vstd::prelude::*;
use vstd::utf8::*;

use crate::diagnostics;
use crate::diagnostics::{Diagnostics, HealthDto};
use crate::listening_log::{LogBuffer, LogEntry, LOG_CAPACITY};
use crate::preset_codec;
use crate::state;
use crate::state::{
    clock_text, OtaCommand, OtaProgress, PresetSet, RadioCommand, RadioState,
    PRESET_EMPTY, SPECTRUM_LEN,
};
use crate::strings;
use crate::strings::{bytes_match_at, push_text};

verus! {

/// TCP port of the console.
pub const WEB_PORT: u16 = 80;

/// Longest URL of an update (bytes).
pub const MAX_URL_LEN: usize = 256;

/// Lower end of the band (0.1 MHz).
pub const BOTTOM_X10: u16 = 875;

/// Upper end of the band (0.1 MHz).
pub const TOP_X10: u16 = 1080;

/// Why a request is refused.
#[derive(Clone, Copy, Debug, PartialEq, Eq, Structural)]
pub enum Refusal {
    BadRequest,
    Conflict,
}

/// Status code of the answer to a request that gives a command.
pub open spec fn status_of<T>(r: Result<T, Refusal>) -> u16 {
    match r {
        Ok(_) => 204,
        Err(Refusal::BadRequest) => 400,
        Err(Refusal::Conflict) => 409,
    }
}

/// Status code of the answer to a request that gives a command.
pub fn status_code(refused: Option<Refusal>) -> (r: u16)
    ensures
        r == (match refused {
            None => status_of(Ok::<(), Refusal>(())),
            Some(e) => status_of(Err::<(), Refusal>(e)),
        }),
{
    match refused {
        None => 204,
        Some(Refusal::BadRequest) => 400,
        Some(Refusal::Conflict) => 409,
    }
}

// ---------------------------------------------------------------------------
// Answers
// ---------------------------------------------------------------------------

/// Where an update stands. Only the fields that belong to the phase are set.
pub struct OtaProgressDto {
    pub phase: &'static str,
    pub received: Option<u32>,
    /// `None` where the server did not say.
    pub total: Option<u32>,
    pub reason: Option<&'static str>,
}

/// Name of a phase.
pub open spec fn phase_name(p: OtaProgress) -> Seq<char> {
    match p {
        OtaProgress::Idle => "idle"@,
        OtaProgress::Connecting => "connecting"@,
        OtaProgress::Downloading { .. } => "downloading"@,
        OtaProgress::Activating => "activating"@,
        OtaProgress::Success => "success"@,
        OtaProgress::Failed(_) => "failed"@,
    }
}

impl OtaProgressDto {
    /// The answer for where an update stands.
    pub open spec fn shows(self, p: OtaProgress) -> bool {
        &&& self.phase@ == phase_name(p)
        &&& match p {
            OtaProgress::Downloading { received, total } => self.received == Some(received)
                && self.total == (if total == 0 {
                None
            } else {
                Some(total)
            }),
            _ => self.received is None && self.total is None,
        }
        &&& state::opt_label(self.reason) == (match p {
            OtaProgress::Failed(reason) => Some(reason.text()),
            _ => None,
        })
    }

    /// The answer for where an update stands.
    pub fn from_progress(p: OtaProgress) -> (r: OtaProgressDto)
        ensures
            r.shows(p),
    {
        match p {
            OtaProgress::Idle => OtaProgressDto {
                phase: "idle",
                received: None,
                total: None,
                reason: None,
            },
            OtaProgress::Connecting => OtaProgressDto {
                phase: "connecting",
                received: None,
                total: None,
                reason: None,
            },
            OtaProgress::Downloading { received, total } => OtaProgressDto {
                phase: "downloading",
                received: Some(received),
                total: if total == 0 {
                    None
                } else {
                    Some(total)
                },
                reason: None,
            },
            OtaProgress::Activating => OtaProgressDto {
                phase: "activating",
                received: None,
                total: None,
                reason: None,
            },
            OtaProgress::Success => OtaProgressDto {
                phase: "success",
                received: None,
                total: None,
                reason: None,
            },
            OtaProgress::Failed(reason) => OtaProgressDto {
                phase: "failed",
                received: None,
                total: None,
                reason: Some(reason.as_text()),
            },
        }
    }
}

/// Artist and title of the running song in one line.
pub open spec fn rt_plus_shown(artist: Option<Seq<char>>, title: Option<Seq<char>>) -> Option<
    Seq<char>,
> {
    match (artist, title) {
        (Some(a), Some(t)) => Some(a + " — "@ + t),
        (Some(a), None) => Some(a),
        (None, Some(t)) => Some(t),
        (None, None) => None,
    }
}

/// Artist and title of the running song in one line.
pub fn format_rt_plus(artist: &Option<String>, title: &Option<String>) -> (r: Option<String>)
    ensures
        state::opt_text(r) == rt_plus_shown(state::opt_text(*artist), state::opt_text(*title)),
{
    match (artist, title) {
        (Some(a), Some(t)) => {
            let mut s: String = a.clone();
            push_text(&mut s, " — ");
            push_text(&mut s, t.as_str());
            assert(s@ =~= a@ + " — "@ + t@);
            Some(s)
        },
        (Some(a), None) => Some(a.clone()),
        (None, Some(t)) => Some(t.clone()),
        (None, None) => None,
    }
}

/// A byte that pads a station name: NUL or white space.
pub open spec fn is_padding(b: u8) -> bool {
    b == 0 || b == 9 || b == 10 || b == 12 || b == 13 || b == 32
}

/// Whether the byte pads a station name.
fn pads(b: u8) -> (r: bool)
    ensures
        r == is_padding(b),
{
    b == 0 || b == 9 || b == 10 || b == 12 || b == 13 || b == 32
}

/// A byte as a printable character, `?` where it is none.
pub open spec fn printable(b: u8) -> char {
    if 0x20 <= b <= 0x7e {
        b as char
    } else {
        '?'
    }
}

/// First index that is no padding.
pub open spec fn name_start(b: Seq<u8>) -> int
    decreases b.len(),
{
    if b.len() == 0 || !is_padding(b[0]) {
        0
    } else {
        1 + name_start(b.skip(1))
    }
}

/// Index behind the last byte that is no padding.
pub open spec fn name_end(b: Seq<u8>) -> int
    decreases b.len(),
{
    if b.len() == 0 || !is_padding(b.last()) {
        b.len() as int
    } else {
        name_end(b.drop_last())
    }
}

/// A station name without padding, in printable characters; `None` where it
/// is nothing but padding.
pub open spec fn name_shown(b: Seq<u8>) -> Option<Seq<char>> {
    if forall|i: int| 0 <= i < b.len() ==> is_padding(#[trigger] b[i]) {
        None
    } else {
        let t = b.subrange(name_start(b), name_end(b));
        Some(Seq::new(t.len(), |i: int| printable(t[i])))
    }
}

proof fn lemma_name_start(b: Seq<u8>, k: int)
    requires
        0 <= k < b.len(),
        !is_padding(b[k]),
        forall|i: int| 0 <= i < k ==> is_padding(#[trigger] b[i]),
    ensures
        name_start(b) == k,
    decreases b.len(),
{
    if k > 0 {
        assert(is_padding(b[0]));
        assert(b.skip(1)[k - 1] == b[k]);
        assert forall|i: int| 0 <= i < k - 1 implies is_padding(#[trigger] b.skip(1)[i]) by {
            assert(b.skip(1)[i] == b[i + 1]);
        }
        lemma_name_start(b.skip(1), k - 1);
    }
}

proof fn lemma_name_end(b: Seq<u8>, k: int)
    requires
        0 < k <= b.len(),
        !is_padding(b[k - 1]),
        forall|i: int| k <= i < b.len() ==> is_padding(#[trigger] b[i]),
    ensures
        name_end(b) == k,
    decreases b.len(),
{
    if k < b.len() {
        assert(is_padding(b[b.len() - 1]));
        assert forall|i: int| k <= i < b.drop_last().len() implies is_padding(
            #[trigger] b.drop_last()[i],
        ) by {
            assert(b.drop_last()[i] == b[i]);
        }
        lemma_name_end(b.drop_last(), k);
    }
}

/// A station name without padding, in printable characters.
pub fn decode_preset_ps(buf: &[u8; 8]) -> (r: Option<String>)
    ensures
        state::opt_text(r) == name_shown(buf@),
{
    let mut start: usize = 0;
    while start < 8 && pads(buf[start])
        invariant
            start <= 8,
            forall|j: int| 0 <= j < start ==> is_padding(#[trigger] buf@[j]),
        decreases 8 - start,
    {
        start = start + 1;
    }
    if start == 8 {
        return None;
    }
    let mut end: usize = 8;
    while end > start && pads(buf[end - 1])
        invariant
            start < 8,
            start <= end <= 8,
            !is_padding(buf@[start as int]),
            forall|j: int| end <= j < 8 ==> is_padding(#[trigger] buf@[j]),
        decreases end,
    {
        end = end - 1;
    }
    assert(start < end) by {
        assert(!is_padding(buf@[start as int]));
    }
    proof {
        lemma_name_start(buf@, start as int);
        lemma_name_end(buf@, end as int);
    }
    let ghost t = buf@.subrange(start as int, end as int);
    let mut s: String = String::new();
    let mut i: usize = start;
    while i < end
        invariant
            start <= i <= end <= 8,
            t == buf@.subrange(start as int, end as int),
            s@ == Seq::new((i - start) as nat, |k: int| printable(t[k])),
        decreases end - i,
    {
        let b: u8 = buf[i];
        assert(t[i - start] == b);
        if 0x20 <= b && b <= 0x7e {
            s.push(b as char);
        } else {
            s.push('?');
        }
        i = i + 1;
        assert(s@ =~= Seq::new((i - start) as nat, |k: int| printable(t[k])));
    }
    assert(s@ =~= Seq::new(t.len(), |k: int| printable(t[k])));
    Some(s)
}

/// A station name that is shown is never empty, neither starts nor ends with a
/// blank, and is all printable characters.
pub proof fn law_shown_name_is_clean(b: Seq<u8>)
    ensures
        match name_shown(b) {
            Some(s) => {
                &&& 0 < s.len() <= b.len()
                &&& s[0] != ' '
                &&& s.last() != ' '
                &&& forall|i: int| 0 <= i < s.len() ==> 0x20 <= #[trigger] s[i] as u32 <= 0x7e
            },
            None => forall|i: int| 0 <= i < b.len() ==> is_padding(#[trigger] b[i]),
        },
{
    if name_shown(b) is Some {
        let w = choose|i: int| 0 <= i < b.len() && !is_padding(#[trigger] b[i]);
        lemma_bounds(b, w);
        let t = b.subrange(name_start(b), name_end(b));
        assert(t[0] == b[name_start(b)]);
        assert(t.last() == b[name_end(b) - 1]);
        let s = name_shown(b)->0;
        assert(s[0] == printable(t[0]));
        assert(s.last() == printable(t.last()));
        assert forall|i: int| 0 <= i < s.len() implies 0x20 <= #[trigger] s[i] as u32 <= 0x7e by {
            assert(s[i] == printable(t[i]));
        }
    }
}

proof fn lemma_bounds(b: Seq<u8>, w: int)
    requires
        0 <= w < b.len(),
        !is_padding(b[w]),
    ensures
        0 <= name_start(b) <= w < name_end(b) <= b.len(),
        !is_padding(b[name_start(b)]),
        !is_padding(b[name_end(b) - 1]),
    decreases b.len(),
{
    if is_padding(b[0]) {
        assert(b.skip(1)[w - 1] == b[w]);
        lemma_bounds(b.skip(1), w - 1);
        assert(b.skip(1)[name_start(b.skip(1))] == b[name_start(b)]);
    }
    if is_padding(b.last()) {
        assert(b.drop_last()[w] == b[w]);
        lemma_bounds(b.drop_last(), w);
        assert(b.drop_last()[name_end(b.drop_last()) - 1] == b[name_end(b) - 1]);
    }
}

/// A preset slot. An empty one has frequency 0 and no name.
pub struct PresetSlotDto {
    pub freq: u16,
    /// Station name, where it is known.
    pub ps: Option<String>,
}

/// Whether `slots` shows the presets `v`.
pub open spec fn slots_show(slots: Seq<PresetSlotDto>, v: preset_codec::PresetView) -> bool {
    slots.len() == 8 && forall|i: int|
        0 <= i < 8 ==> (#[trigger] slots[i]).freq == v.freqs[i] && state::opt_text(slots[i].ps) == (
        if v.freqs[i] == PRESET_EMPTY {
            None
        } else {
            name_shown(v.ps[i])
        })
}

/// The preset slots.
pub fn build_preset_slots(presets: &PresetSet) -> (r: Vec<PresetSlotDto>)
    ensures
        slots_show(r@, presets@),
{
    let mut slots: Vec<PresetSlotDto> = Vec::new();
    let mut i: usize = 0;
    while i < 8
        invariant
            i <= 8,
            slots@.len() == i,
            forall|k: int|
                0 <= k < i ==> (#[trigger] slots@[k]).freq == presets@.freqs[k] && state::opt_text(
                    slots@[k].ps,
                ) == (if presets@.freqs[k] == PRESET_EMPTY {
                    None
                } else {
                    name_shown(presets@.ps[k])
                }),
        decreases 8 - i,
    {
        let freq: u16 = presets.freqs[i];
        let ps: Option<String> = if freq == PRESET_EMPTY {
            None
        } else {
            decode_preset_ps(&presets.ps[i])
        };
        slots.push(PresetSlotDto { freq, ps });
        i = i + 1;
    }
    slots
}

/// The state of the radio.
pub struct StateDto {
    pub freq_x10: u16,
    pub rssi: u8,
    pub volume: u8,
    pub muted: bool,
    pub stereo: bool,
    pub auto_mono: bool,
    pub station_name: String,
    pub radio_text: String,
    /// Artist and title of the running song, where known.
    pub rt_plus: Option<String>,
    pub pty_label: Option<&'static str>,
    /// Local time, empty where unknown.
    pub clock: String,
    pub af_count: u8,
    pub af_following: bool,
    pub preset_idx: Option<u8>,
    pub presets: Vec<PresetSlotDto>,
    pub wifi_ssid: String,
    pub wifi_connected: bool,
    pub ota: OtaProgressDto,
}

/// Answers a request for the state.
pub fn handle_get_state(state: &RadioState) -> (r: StateDto)
    ensures
        r.freq_x10 == state.freq_mhz_x10,
        r.rssi == state.rssi,
        r.volume == state.volume,
        r.muted == state.muted,
        r.stereo == state.stereo,
        r.auto_mono == state.auto_mono,
        r.station_name@ == state.station_name@,
        r.radio_text@ == state.radio_text@,
        state::opt_text(r.rt_plus) == rt_plus_shown(
            state::opt_text(state.rt_plus_artist),
            state::opt_text(state.rt_plus_title),
        ),
        state::opt_label(r.pty_label) == state::opt_label(state.pty_label),
        r.clock@ == state::clock_shown(state.clock_hh_mm),
        r.af_count == state.af_count,
        r.af_following == state.af_following,
        r.preset_idx == state.preset_idx,
        slots_show(r.presets@, state.presets@),
        r.wifi_ssid@ == state.wifi_ssid@,
        r.wifi_connected == state.wifi_connected,
        r.ota.shows(state.ota_progress),
{
    StateDto {
        freq_x10: state.freq_mhz_x10,
        rssi: state.rssi,
        volume: state.volume,
        muted: state.muted,
        stereo: state.stereo,
        auto_mono: state.auto_mono,
        station_name: state.station_name.clone(),
        radio_text: state.radio_text.clone(),
        rt_plus: format_rt_plus(&state.rt_plus_artist, &state.rt_plus_title),
        pty_label: state.pty_label,
        clock: clock_text(state.clock_hh_mm),
        af_count: state.af_count,
        af_following: state.af_following,
        preset_idx: state.preset_idx,
        presets: build_preset_slots(&state.presets),
        wifi_ssid: state.wifi_ssid.clone(),
        wifi_connected: state.wifi_connected,
        ota: OtaProgressDto::from_progress(state.ota_progress),
    }
}

/// The latest band sweep.
pub struct SpectrumDto {
    pub samples: Vec<u8>,
    pub freq_x10: u16,
    pub bottom_x10: u16,
    pub top_x10: u16,
}

/// Answers a request for the band sweep.
pub fn handle_get_spectrum(state: &RadioState) -> (r: SpectrumDto)
    ensures
        r.samples@ == state.spectrum@,
        r.freq_x10 == state.freq_mhz_x10,
        r.bottom_x10 == BOTTOM_X10,
        r.top_x10 == TOP_X10,
{
    let mut samples: Vec<u8> = Vec::new();
    let mut i: usize = 0;
    while i < SPECTRUM_LEN
        invariant
            i <= SPECTRUM_LEN,
            samples@ == state.spectrum@.take(i as int),
        decreases SPECTRUM_LEN - i,
    {
        assert(state.spectrum@.take(i + 1) =~= state.spectrum@.take(i as int).push(
            state.spectrum@[i as int],
        ));
        samples.push(state.spectrum[i]);
        i = i + 1;
    }
    assert(state.spectrum@.take(52) =~= state.spectrum@);
    SpectrumDto {
        samples,
        freq_x10: state.freq_mhz_x10,
        bottom_x10: BOTTOM_X10,
        top_x10: TOP_X10,
    }
}

/// An entry of the listening log.
pub struct LogEntryDto {
    /// Seconds since boot.
    pub uptime_secs: u32,
    pub freq_x10: u16,
    pub rssi: u8,
    pub ps: String,
    pub rt: String,
}

impl LogEntryDto {
    /// Whether this shows the entry `e`.
    pub open spec fn shows(self, e: LogEntry) -> bool {
        &&& self.uptime_secs == e.uptime_secs
        &&& self.freq_x10 == e.freq_x10
        &&& self.rssi == e.rssi
        &&& self.ps@ == decode_utf8(e.ps())
        &&& self.rt@ == decode_utf8(e.rt())
    }
}

/// The listening log.
pub struct LogDto {
    pub capacity: u16,
    /// Unix time, once it is known.
    pub now_unix: Option<u64>,
    /// The entries, oldest first.
    pub entries: Vec<LogEntryDto>,
}

/// Answers a request for the listening log.
pub fn handle_get_log(log: &LogBuffer, now_unix: Option<u64>) -> (r: LogDto)
    requires
        log.inv(),
    ensures
        r.capacity == LOG_CAPACITY,
        r.now_unix == now_unix,
        r.entries@.len() == log@.len(),
        forall|i: int| 0 <= i < log@.len() ==> (#[trigger] r.entries@[i]).shows(log@[i]),
{
    let logged: Vec<LogEntry> = log.iter_chronological();
    let mut entries: Vec<LogEntryDto> = Vec::new();
    let mut i: usize = 0;
    while i < logged.len()
        invariant
            logged@ == log@,
            i <= logged@.len(),
            entries@.len() == i,
            forall|k: int| 0 <= k < logged@.len() ==> (#[trigger] logged@[k]).wf(),
            forall|k: int| 0 <= k < i ==> (#[trigger] entries@[k]).shows(logged@[k]),
        decreases logged@.len() - i,
    {
        let e: LogEntry = logged[i];
        entries.push(
            LogEntryDto {
                uptime_secs: e.uptime_secs,
                freq_x10: e.freq_x10,
                rssi: e.rssi,
                ps: e.ps_str().to_owned(),
                rt: e.rt_str().to_owned(),
            },
        );
        i = i + 1;
    }
    LogDto { capacity: LOG_CAPACITY as u16, now_unix, entries }
}

/// Answers a request for the radio's health.
pub fn handle_get_health(
    d: &Diagnostics,
    state: &RadioState,
    heap_free: usize,
    heap_total: usize,
    now_secs: u64,
) -> (r: HealthDto)
    requires
        d.post is Some ==> heap_free <= heap_total && (heap_total - heap_free) * 100 <= usize::MAX,
    ensures
        r.uptime_secs == d.uptime(now_secs),
        r.heap_free == heap_free,
        r.heap_total == heap_total,
        r.heap_usage_pct == (if heap_free <= heap_total && (heap_total - heap_free) * 100
            <= usize::MAX {
            diagnostics::used_pct(heap_free as int, heap_total as int)
        } else {
            0
        }),
        r.i2c_errors == d.i2c_errors,
        r.radio_task_alive == d.alive(now_secs),
        r.watchdog_elapsed_secs == d.since_feed(now_secs),
        match d.post {
            Some(post) => {
                &&& r.wifi_connected == state.wifi_connected
                &&& r.rssi == state.rssi
                &&& r.tuner_ok == (post.si4703_id is Pass)
                &&& r.post_status@ == post.message()
            },
            None => !r.wifi_connected && r.rssi == 0 && !r.tuner_ok && r.post_status@ == "pending"@,
        },
{
    match diagnostics::get_post_result(d) {
        Some(post) => HealthDto::capture(d, &post, state, heap_free, heap_total, now_secs),
        None => HealthDto::pending(d, heap_free, heap_total, now_secs),
    }
}

// ---------------------------------------------------------------------------
// Commands
// ---------------------------------------------------------------------------

/// What a request to tune to a frequency commands.
pub open spec fn tune_request(freq: u16) -> Result<RadioCommand, Refusal> {
    if BOTTOM_X10 <= freq <= TOP_X10 {
        Ok(RadioCommand::TuneAbsolute(freq))
    } else {
        Err(Refusal::BadRequest)
    }
}

/// A request to tune to a frequency, refused outside the band.
pub fn handle_post_tune(freq_x10: u16) -> (r: Result<RadioCommand, Refusal>)
    ensures
        r == tune_request(freq_x10),
{
    if freq_x10 < BOTTOM_X10 || freq_x10 > TOP_X10 {
        return Err(Refusal::BadRequest);
    }
    Ok(RadioCommand::TuneAbsolute(freq_x10))
}

/// A request to tune one step up.
pub fn handle_post_tune_up() -> (r: RadioCommand)
    ensures
        r == RadioCommand::TuneRelative(1),
{
    RadioCommand::TuneRelative(1)
}

/// A request to tune one step down.
pub fn handle_post_tune_down() -> (r: RadioCommand)
    ensures
        r == RadioCommand::TuneRelative(-1i16),
{
    RadioCommand::TuneRelative(-1)
}

/// A request to go to the next preset.
pub fn handle_post_preset_cycle() -> (r: RadioCommand)
    ensures
        r == RadioCommand::CyclePreset,
{
    RadioCommand::CyclePreset
}

/// A request to save the tuned frequency, refused where none is tuned.
pub fn handle_post_preset_save(state: &RadioState) -> (r: Result<RadioCommand, Refusal>)
    ensures
        r == (if state.freq_mhz_x10 == PRESET_EMPTY {
            Err::<RadioCommand, Refusal>(Refusal::Conflict)
        } else {
            Ok(RadioCommand::SavePreset)
        }),
{
    if state.freq_mhz_x10 == PRESET_EMPTY {
        return Err(Refusal::Conflict);
    }
    Ok(RadioCommand::SavePreset)
}

/// A request to toggle mute.
pub fn handle_post_mute() -> (r: RadioCommand)
    ensures
        r == RadioCommand::ToggleMute,
{
    RadioCommand::ToggleMute
}

/// A request to sweep the band.
pub fn handle_post_spectrum_scan() -> (r: RadioCommand)
    ensures
        r == RadioCommand::SpectrumScan,
{
    RadioCommand::SpectrumScan
}

/// The bytes of `http://`.
pub open spec fn http_scheme() -> Seq<u8> {
    seq![104u8, 116, 116, 112, 58, 47, 47]
}

/// Whether a URL is not even tried: too long, or not plain HTTP (an empty one
/// is not).
pub open spec fn url_refused(url: Seq<u8>) -> bool {
    url.len() > MAX_URL_LEN || !strings::matches_at(url, http_scheme(), 0)
}

/// A request to fetch an update. A URL that is empty, too long or not plain
/// HTTP is refused, and so is every request while an update is under way.
pub fn handle_post_ota(url: String, state: &RadioState) -> (r: Result<OtaCommand, Refusal>)
    ensures
        match r {
            Ok(OtaCommand::Start(u)) => !url_refused(encode_utf8(url@)) && !state.ota_in_progress
                && u@ == url@,
            Err(Refusal::BadRequest) => url_refused(encode_utf8(url@)),
            Err(Refusal::Conflict) => !url_refused(encode_utf8(url@)) && state.ota_in_progress,
        },
{
    let scheme: [u8; 7] = [104, 116, 116, 112, 58, 47, 47];
    assert(scheme@ =~= http_scheme());
    let http: bool = {
        let bytes: &[u8] = url.as_str().as_bytes();
        bytes.len() <= MAX_URL_LEN && bytes_match_at(bytes, scheme.as_slice(), 0)
    };
    if !http {
        return Err(Refusal::BadRequest);
    }
    if state.ota_in_progress {
        return Err(Refusal::Conflict);
    }
    Ok(OtaCommand::Start(url))
}

/// A request to tune is refused exactly where the radio would have to bring
/// the frequency into its band; otherwise it commands that very frequency.
pub proof fn law_tune_request_stays_in_band(freq: u16)
    ensures
        tune_request(freq) is Ok <==> state::clamped(freq as int) == freq,
        tune_request(freq) is Ok ==> tune_request(freq) == Ok::<RadioCommand, Refusal>(
            RadioCommand::TuneAbsolute(state::clamped(freq as int)),
        ),
        tune_request(freq) is Err ==> status_of(tune_request(freq)) == 400,
{
}

/// A byte that does not show at the ends of a name: zero, tab, line feed, form
/// feed, carriage return or blank.
pub open spec fn blank_in_name(b: u8) -> bool {
    seq![0u8, 9u8, 10u8, 12u8, 13u8, 32u8].contains(b)
}

proof fn lemma_blank_in_name(b: u8)
    ensures
        blank_in_name(b) == is_padding(b),
{
    let all = seq![0u8, 9u8, 10u8, 12u8, 13u8, 32u8];
    assert(all[0] == 0 && all[1] == 9 && all[2] == 10 && all[3] == 12 && all[4] == 13 && all[5]
        == 32);
}

/// A station name is shown between its padding, character by character: those
/// that can be printed as they are, the others as `?`.
pub proof fn law_name_is_shown_between_its_padding(front: Seq<u8>, name: Seq<u8>, back: Seq<u8>)
    requires
        forall|i: int| 0 <= i < front.len() ==> blank_in_name(#[trigger] front[i]),
        forall|i: int| 0 <= i < back.len() ==> blank_in_name(#[trigger] back[i]),
        name.len() > 0,
        !blank_in_name(name[0]),
        !blank_in_name(name.last()),
    ensures
        ({
            let shown = name_shown(front + name + back);
            &&& shown is Some
            &&& shown->0.len() == name.len()
            &&& forall|i: int|
                0 <= i < name.len() ==> #[trigger] shown->0[i] == (if 0x20 <= name[i] <= 0x7e {
                    name[i] as char
                } else {
                    '?'
                })
        }),
{
    let b = front + name + back;
    let k = front.len() as int;
    assert(b[k] == name[0]);
    lemma_blank_in_name(name[0]);
    lemma_blank_in_name(name.last());
    assert forall|i: int| 0 <= i < k implies is_padding(#[trigger] b[i]) by {
        assert(b[i] == front[i]);
        lemma_blank_in_name(front[i]);
    }
    lemma_name_start(b, k);
    lemma_name_end_behind(front + name, back);
    assert(b.subrange(k, k + name.len()) =~= name);
}

proof fn lemma_name_end_behind(a: Seq<u8>, back: Seq<u8>)
    requires
        forall|i: int| 0 <= i < back.len() ==> blank_in_name(#[trigger] back[i]),
        a.len() > 0,
        !is_padding(a.last()),
    ensures
        name_end(a + back) == a.len(),
    decreases back.len(),
{
    let b = a + back;
    if back.len() > 0 {
        assert(b.last() == back[back.len() - 1]);
        lemma_blank_in_name(back[back.len() - 1]);
        assert(b.drop_last() =~= a + back.drop_last());
        lemma_name_end_behind(a, back.drop_last());
    } else {
        assert(b =~= a);
    }
}

/// Artist and title stand in one line, the artist first; where one is unknown,
/// the other stands alone.
pub proof fn law_song_is_shown_in_one_line(artist: Seq<char>, title: Seq<char>)
    ensures
        ({
            let both = rt_plus_shown(Some(artist), Some(title));
            &&& both is Some
            &&& both->0.len() == artist.len() + 3 + title.len()
            &&& both->0.take(artist.len() as int) == artist
            &&& both->0.skip((artist.len() + 3) as int) == title
            &&& both->0.subrange(artist.len() as int, (artist.len() + 3) as int) == " — "@
        }),
        rt_plus_shown(Some(artist), None) == Some(artist),
        rt_plus_shown(None, Some(title)) == Some(title),
        rt_plus_shown(None, None) is None,
{
    reveal_strlit(" — ");
    let both = rt_plus_shown(Some(artist), Some(title))->0;
    assert(both.take(artist.len() as int) =~= artist);
    assert(both.skip((artist.len() + 3) as int) =~= title);
    assert(both.subrange(artist.len() as int, (artist.len() + 3) as int) =~= " — "@);
}

/// An update is fetched from every plain-HTTP URL of at most 256 bytes, and from
/// no other.
pub proof fn law_only_plain_http_is_fetched(url: Seq<u8>)
    ensures
        url_refused(url) <==> url.len() < 7 || url.len() > 256 || url.take(7) != seq![
            104u8,
            116u8,
            116u8,
            112u8,
            58u8,
            47u8,
            47u8,
        ],
{
    if url.len() >= 7 {
        assert(url.subrange(0, 7) =~= url.take(7));
    }
    assert(http_scheme() =~= seq![104u8, 116u8, 116u8, 112u8, 58u8, 47u8, 47u8]);
}

/// Commands are answered by status: without content where they were taken, as a
/// bad request or as a conflict where they were refused.
pub proof fn law_refusals_have_their_status<T>(value: T)
    ensures
        status_of(Ok::<T, Refusal>(value)) == 204,
        status_of(Err::<T, Refusal>(Refusal::BadRequest)) == 400,
        status_of(Err::<T, Refusal>(Refusal::Conflict)) == 409,
{
}

/// The slots shown are the presets: each with its frequency, and with its name
/// where one is saved there and known.
pub proof fn law_slots_show_their_presets(
    slots: Seq<PresetSlotDto>,
    v: preset_codec::PresetView,
    i: int,
)
    requires
        slots_show(slots, v),
        0 <= i < 8,
    ensures
        slots.len() == 8,
        slots[i].freq == v.freqs[i],
        v.freqs[i] == 0 ==> slots[i].ps is None,
        v.freqs[i] != 0 ==> state::opt_text(slots[i].ps) == name_shown(v.ps[i]),
{
    assert(slots[i].freq == v.freqs[i]);
}

/// A log entry is shown with all that was logged.
pub proof fn law_log_entry_is_shown_as_logged(d: LogEntryDto, e: LogEntry)
    requires
        d.shows(e),
    ensures
        d.uptime_secs == e.uptime_secs && d.freq_x10 == e.freq_x10 && d.rssi == e.rssi,
        d.ps@ == decode_utf8(e.ps_buf@.take(e.ps_len as int)),
        d.rt@ == decode_utf8(e.rt_buf@.take(e.rt_len as int)),
{
}

/// Where an update stands is told by name; a download with the bytes that have
/// arrived and, where known, the length; a failure with its reason.
pub proof fn law_update_is_told_by_its_phase(d: OtaProgressDto, p: OtaProgress)
    requires
        d.shows(p),
    ensures
        p is Idle ==> d.phase@ == "idle"@,
        p is Connecting ==> d.phase@ == "connecting"@,
        p is Downloading ==> d.phase@ == "downloading"@ && d.received == Some(p->received),
        p is Downloading && p->total != 0 ==> d.total == Some(p->total),
        p is Downloading && p->total == 0 ==> d.total is None,
        p is Activating ==> d.phase@ == "activating"@,
        p is Success ==> d.phase@ == "success"@,
        p is Failed ==> d.phase@ == "failed"@ && state::opt_label(d.reason) == Some(
            p->Failed_0.text(),
        ),
        !(p is Failed) ==> d.reason is None,
        !(p is Downloading) ==> d.received is None && d.total is None,
{
}

} // verus!
