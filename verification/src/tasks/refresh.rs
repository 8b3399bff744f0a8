//! The control task's own state, the refresh that it makes five times a
//! second, and what it stores meanwhile.

use vstd::prelude::*;

use crate::diagnostics;
use crate::diagnostics::{increment_i2c_errors, watchdog_feed, Diagnostics};
use crate::presets::{PausedPresetStore, PresetStore};
use crate::preset_codec::PresetView;
use crate::si4703::rds;
use crate::si4703::rds::{RdsDecoder, RdsState};
use crate::si4703::RdsBlocks;
use crate::state;
use crate::state::{publish_ota_progress, publish_presets, slots_equal};
use crate::state::{FailReason, OtaProgress, PresetSet, RadioCommand, RadioState};
use crate::state::{LAST_TUNED_DEBOUNCE_MS, STATION_NAME_PLACEHOLDER};
use crate::tasks::controllers;
use crate::tasks::controllers::{AfFollower, MonoController, WallClock};

verus! {

/// Failed reads in a row after which the station name shows it.
pub const I2C_ERROR_LIMIT: u32 = 10;

/// What the control task keeps between events.
pub struct RadioControl {
    pub rds: RdsDecoder,
    /// Last station name that was not blank.
    pub last_rds_name: String,
    pub last_rds_text: String,
    /// Failed reads in a row.
    pub i2c_error_count: u32,
    pub wall_clock: Option<WallClock>,
    pub mono_ctl: MonoController,
    pub af_ctl: AfFollower,
    /// A frequency that is to be stored, and since when.
    pub last_tuned_pending: Option<(u16, u64)>,
    /// When the dial was turned last, or the tuned preset looked at last for
    /// something new to keep with it.
    pub meta_quiet_since: u64,
    /// `None` while an update has the flash.
    pub store: Option<PresetStore>,
}

impl RadioControl {
    pub open spec fn wf(&self) -> bool {
        self.rds.wf()
    }

    /// The control task at its start.
    pub fn new(store: PresetStore) -> (r: RadioControl)
        ensures
            r.wf(),
            r.rds@ == rds::blank(),
            r.last_rds_name@ == STATION_NAME_PLACEHOLDER@,
            r.last_rds_text@ == Seq::<char>::empty(),
            r.i2c_error_count == 0,
            r.wall_clock is None,
            r.mono_ctl == (MonoController { engaged: false, dwell: 0 }),
            r.af_ctl == (AfFollower { weak_dwell: 0, cooldown: 0 }),
            r.last_tuned_pending is None,
            r.meta_quiet_since == 0,
            r.store == Some(store),
    {
        RadioControl {
            rds: RdsDecoder::new(),
            last_rds_name: STATION_NAME_PLACEHOLDER.to_owned(),
            last_rds_text: String::new(),
            i2c_error_count: 0,
            wall_clock: None,
            mono_ctl: MonoController::new(),
            af_ctl: AfFollower::new(),
            last_tuned_pending: None,
            meta_quiet_since: 0,
            store: Some(store),
        }
    }
}

/// What woke the control task.
pub enum Wake {
    Command(RadioCommand),
    /// The refresh interval has passed.
    Tick,
    /// An update was asked for.
    Update,
}

/// What the control task does next.
#[derive(Clone, Copy, Debug, PartialEq, Eq, Structural)]
pub enum ControlStep {
    RunCommand(RadioCommand),
    Refresh,
    ProbeAlternatives,
    StoreLastTuned,
    /// Look whether there is something new to keep with the tuned preset.
    FillPresetMeta,
    Update,
    /// Wait for the next event.
    Sleep,
}

/// The first step after waking up.
pub open spec fn first_step(w: Wake) -> ControlStep {
    match w {
        Wake::Command(c) => ControlStep::RunCommand(c),
        Wake::Tick => ControlStep::Refresh,
        Wake::Update => ControlStep::Update,
    }
}

/// The step after another one: a refresh is followed by a probe where it asked
/// for one, and in any case by storing what is due.
pub open spec fn step_after(s: ControlStep, probe_armed: bool) -> ControlStep {
    match s {
        ControlStep::Refresh => if probe_armed {
            ControlStep::ProbeAlternatives
        } else {
            ControlStep::StoreLastTuned
        },
        ControlStep::ProbeAlternatives => ControlStep::StoreLastTuned,
        ControlStep::StoreLastTuned => ControlStep::FillPresetMeta,
        _ => ControlStep::Sleep,
    }
}

/// The first step after waking up. Waking up tells that the task is alive.
pub fn wake_step(wake: &Wake, diag: &mut Diagnostics, now_secs: u64) -> (r: ControlStep)
    ensures
        r == first_step(*wake),
        *final(diag) == (Diagnostics {
            last_feed_secs: Some(diagnostics::secs32(now_secs)),
            ..*old(diag)
        }),
{
    watchdog_feed(diag, now_secs);
    match wake {
        Wake::Command(c) => ControlStep::RunCommand(*c),
        Wake::Tick => ControlStep::Refresh,
        Wake::Update => ControlStep::Update,
    }
}

/// The step after another one.
pub fn next_step(step: ControlStep, probe_armed: bool) -> (r: ControlStep)
    ensures
        r == step_after(step, probe_armed),
{
    match step {
        ControlStep::Refresh => {
            if probe_armed {
                ControlStep::ProbeAlternatives
            } else {
                ControlStep::StoreLastTuned
            }
        },
        ControlStep::ProbeAlternatives => ControlStep::StoreLastTuned,
        ControlStep::StoreLastTuned => ControlStep::FillPresetMeta,
        _ => ControlStep::Sleep,
    }
}

// ---------------------------------------------------------------------------
// Refresh
// ---------------------------------------------------------------------------

/// What the first half of a refresh found.
#[derive(Clone, Copy, Debug, PartialEq, Eq, Structural)]
pub struct RefreshPlan {
    pub rssi: u8,
    pub stereo: bool,
    /// The mono setting to write, where it changes.
    pub set_mono: Option<bool>,
}

/// Failed reads in a row after another read.
pub open spec fn errors_after(count: u32, ok: bool) -> u32 {
    if ok {
        0
    } else if count < u32::MAX {
        (count + 1) as u32
    } else {
        count
    }
}

/// First half of a refresh: takes signal strength and stereo flag as read, or
/// `None` where the read failed, which counts as no signal. Failures are
/// counted, and many in a row are shown in place of the station name.
pub fn refresh_begin(
    ctl: &mut RadioControl,
    state: &mut RadioState,
    diag: &mut Diagnostics,
    read: Option<(u8, bool)>,
) -> (r: RefreshPlan)
    ensures
        *final(diag) == (Diagnostics {
            i2c_errors: if read is None {
                diagnostics::errors_after_one_more(old(diag).i2c_errors)
            } else {
                old(diag).i2c_errors
            },
            ..*old(diag)
        }),
        ({
            let (rssi, stereo) = match read {
                Some(v) => v,
                None => (0u8, false),
            };
            let mono = controllers::mono_next(old(ctl).mono_ctl, rssi);
            &&& r == (RefreshPlan {
                rssi,
                stereo,
                set_mono: if mono.engaged != old(ctl).mono_ctl.engaged {
                    Some(mono.engaged)
                } else {
                    None
                },
            })
            &&& *final(ctl) == (RadioControl {
                i2c_error_count: errors_after(old(ctl).i2c_error_count, read is Some),
                mono_ctl: mono,
                ..*old(ctl)
            })
            &&& if read is None && final(ctl).i2c_error_count >= I2C_ERROR_LIMIT {
                &&& final(state).station_name@ == "I2C ERR!"@
                &&& *final(state) == (RadioState {
                    station_name: final(state).station_name,
                    dirty: true,
                    ..*old(state)
                })
            } else {
                *final(state) == *old(state)
            }
        }),
{
    let (rssi, stereo): (u8, bool) = match read {
        Some(v) => {
            ctl.i2c_error_count = 0;
            v
        },
        None => {
            ctl.i2c_error_count = ctl.i2c_error_count.saturating_add(1);
            increment_i2c_errors(diag);
            if ctl.i2c_error_count >= I2C_ERROR_LIMIT {
                state.station_name = "I2C ERR!".to_owned();
                state.dirty = true;
            }
            (0, false)
        },
    };
    let set_mono: Option<bool> = ctl.mono_ctl.observe(rssi);
    RefreshPlan { rssi, stereo, set_mono }
}

/// What the decoder knows after a read that may have delivered a group.
pub open spec fn decoder_after(s: RdsState, group: Option<RdsBlocks>) -> RdsState {
    match group {
        Some(g) => rds::processed(s, g.0, g.1, g.2, g.3),
        None => s,
    }
}

/// The wall clock after a read that may have delivered a group.
pub open spec fn clock_after(
    clock: Option<WallClock>,
    s: RdsState,
    group: Option<RdsBlocks>,
    now: u64,
) -> Option<WallClock> {
    if group is Some && decoder_after(s, group).clock is Some {
        Some(WallClock::anchored(decoder_after(s, group).clock->0, now))
    } else {
        clock
    }
}

/// The last station name that was not blank, after a read.
pub open spec fn name_after(name: Seq<char>, s: RdsState, group: Option<RdsBlocks>) -> Seq<char> {
    let n = rds::rds_text(decoder_after(s, group).ps);
    if group is Some && n.len() > 0 {
        n
    } else {
        name
    }
}

/// The RadioText message after a read.
pub open spec fn text_after(text: Seq<char>, s: RdsState, group: Option<RdsBlocks>) -> Seq<char> {
    if group is Some {
        let t = decoder_after(s, group);
        rds::rds_text(t.rt.take(t.rt_len as int))
    } else {
        text
    }
}

/// The station name that is shown.
pub open spec fn shown_name(known: Seq<char>, shown: Seq<char>) -> Seq<char> {
    if known.len() > 0 {
        known
    } else if shown.len() == 0 {
        STATION_NAME_PLACEHOLDER@
    } else {
        shown
    }
}

/// Second half of a refresh: takes an RDS group if one has arrived, and copies
/// what is known into the shared state. Returns whether the alternative
/// frequencies are to be probed.
pub fn refresh_finish(
    ctl: &mut RadioControl,
    state: &mut RadioState,
    plan: RefreshPlan,
    group: Option<RdsBlocks>,
    volume: u8,
    now_ms: u64,
) -> (r: bool)
    requires
        old(ctl).wf(),
    ensures
        final(ctl).wf(),
        ({
            let s = decoder_after(old(ctl).rds@, group);
            let clock = clock_after(old(ctl).wall_clock, old(ctl).rds@, group, now_ms);
            &&& final(ctl).rds@ == (if group is Some {
                RdsState { clock: None, ..s }
            } else {
                s
            })
            &&& final(ctl).last_rds_name@ == name_after(
                old(ctl).last_rds_name@,
                old(ctl).rds@,
                group,
            )
            &&& final(ctl).last_rds_text@ == text_after(
                old(ctl).last_rds_text@,
                old(ctl).rds@,
                group,
            )
            &&& (final(ctl).af_ctl, r) == controllers::follower_next(
                old(ctl).af_ctl,
                plan.rssi,
                s.af.len(),
            )
            &&& *final(ctl) == (RadioControl {
                rds: final(ctl).rds,
                last_rds_name: final(ctl).last_rds_name,
                last_rds_text: final(ctl).last_rds_text,
                wall_clock: clock,
                af_ctl: final(ctl).af_ctl,
                ..*old(ctl)
            })
            &&& final(state).station_name@ == shown_name(
                final(ctl).last_rds_name@,
                old(state).station_name@,
            )
            &&& final(state).radio_text@ == final(ctl).last_rds_text@
            &&& state::opt_text(final(state).rt_plus_title) == rds::plus_text(
                s,
                rds::RT_PLUS_TITLE,
            )
            &&& state::opt_text(final(state).rt_plus_artist) == rds::plus_text(
                s,
                rds::RT_PLUS_ARTIST,
            )
            &&& state::opt_label(final(state).pty_label) == (match s.pty {
                Some(code) => if code == 0 {
                    None
                } else {
                    Some(rds::pty_name(code))
                },
                None => None,
            })
            &&& *final(state) == (RadioState {
                rssi: plan.rssi,
                stereo: plan.stereo,
                auto_mono: old(ctl).mono_ctl.engaged,
                station_name: final(state).station_name,
                radio_text: final(state).radio_text,
                rt_plus_title: final(state).rt_plus_title,
                rt_plus_artist: final(state).rt_plus_artist,
                clock_hh_mm: match clock {
                    Some(w) => Some(w.local_time(now_ms)),
                    None => None,
                },
                pty_label: final(state).pty_label,
                af_count: s.af.len() as u8,
                volume,
                dirty: true,
                ..*old(state)
            })
        }),
{
    match group {
        Some(g) => {
            let _ = ctl.rds.process(g.0, g.1, g.2, g.3);
            let name: String = ctl.rds.station_name_string();
            if !name.as_str().is_empty() {
                ctl.last_rds_name = name;
            }
            ctl.last_rds_text = ctl.rds.radio_text_string();
            match ctl.rds.take_clock_time() {
                Some(ct) => {
                    ctl.wall_clock = Some(WallClock::from_ct(ct, now_ms));
                },
                None => {},
            }
        },
        None => {},
    }
    state.rssi = plan.rssi;
    state.stereo = plan.stereo;
    state.auto_mono = ctl.mono_ctl.engaged();
    if !ctl.last_rds_name.as_str().is_empty() {
        state.station_name = ctl.last_rds_name.clone();
    } else if state.station_name.as_str().is_empty() {
        state.station_name = STATION_NAME_PLACEHOLDER.to_owned();
    }
    state.radio_text = ctl.last_rds_text.clone();
    state.rt_plus_title = ctl.rds.rt_plus_title();
    state.rt_plus_artist = ctl.rds.rt_plus_artist();
    state.clock_hh_mm = match ctl.wall_clock {
        Some(w) => Some(w.local_hh_mm(now_ms)),
        None => None,
    };
    state.pty_label = ctl.rds.pty_label();
    let known: usize = ctl.rds.alt_freqs().len();
    state.af_count = known as u8;
    state.volume = volume;
    state.dirty = true;
    ctl.af_ctl.observe(plan.rssi, known)
}

// ---------------------------------------------------------------------------
// A new station
// ---------------------------------------------------------------------------

/// The shared state after another station was tuned: its frequency, and
/// nothing yet of what the former station sent.
pub open spec fn station_cleared(before: RadioState, after: RadioState, freq: u16) -> bool {
    &&& after.station_name@ == STATION_NAME_PLACEHOLDER@
    &&& after.radio_text@ == Seq::<char>::empty()
    &&& after == (RadioState {
        freq_mhz_x10: freq,
        station_name: after.station_name,
        radio_text: after.radio_text,
        rt_plus_title: None,
        rt_plus_artist: None,
        clock_hh_mm: None,
        pty_label: None,
        dirty: true,
        ..before
    })
}

/// The presets shown after a tune: those of the store, with the slot of the
/// frequency, where `always` or the slot has changed.
pub open spec fn presets_shown(
    before: RadioState,
    after: RadioState,
    store: Option<PresetView>,
    freq: u16,
    always: bool,
) -> bool {
    match store {
        Some(v) => if always || state::shown_slot(v, freq) != before.preset_idx {
            &&& after.presets@ == v
            &&& after.preset_idx == state::shown_slot(v, freq)
        } else {
            after.presets == before.presets && after.preset_idx == before.preset_idx
        },
        None => after.presets == before.presets && after.preset_idx == before.preset_idx,
    }
}

/// The presets of the store, where it is at hand.
pub open spec fn stored(ctl: RadioControl) -> Option<PresetView> {
    match ctl.store {
        Some(s) => Some(s@),
        None => None,
    }
}

/// No text of a station is kept, as at the start.
pub open spec fn texts_forgotten(ctl: RadioControl) -> bool {
    ctl.last_rds_name@ == STATION_NAME_PLACEHOLDER@ && ctl.last_rds_text@ == Seq::<char>::empty()
}

/// What a successful tune changes.
pub open spec fn tuned(
    ctl0: RadioControl,
    state0: RadioState,
    ctl1: RadioControl,
    state1: RadioState,
    freq: u16,
    always: bool,
    now: u64,
) -> bool {
    &&& ctl1.rds@ == rds::blank()
    &&& texts_forgotten(ctl1)
    &&& ctl1 == (RadioControl {
        rds: ctl1.rds,
        last_rds_name: ctl1.last_rds_name,
        last_rds_text: ctl1.last_rds_text,
        wall_clock: None,
        last_tuned_pending: Some((freq, now)),
        meta_quiet_since: now,
        ..ctl0
    })
    &&& presets_shown(state0, state1, stored(ctl0), freq, always)
    &&& station_cleared(
        RadioState {
            presets: state1.presets,
            preset_idx: state1.preset_idx,
            af_count: 0,
            ..state0
        },
        state1,
        freq,
    )
}

fn clear_station(state: &mut RadioState, freq_x10: u16)
    ensures
        station_cleared(*old(state), *final(state), freq_x10),
{
    state.freq_mhz_x10 = freq_x10;
    state.station_name = STATION_NAME_PLACEHOLDER.to_owned();
    state.radio_text = String::new();
    state.rt_plus_title = None;
    state.rt_plus_artist = None;
    state.clock_hh_mm = None;
    state.pty_label = None;
    state.dirty = true;
}

/// Forgets the texts of the former station, shows a newly tuned frequency and its
/// preset, with the alternatives that the decoder knows of it, and starts the
/// quiet times before anything is stored. The presets are shown anew where
/// `always` or where the slot has changed.
pub(crate) fn show_tuned(
    ctl: &mut RadioControl,
    state: &mut RadioState,
    freq_x10: u16,
    always: bool,
    now_ms: u64,
)
    ensures
        texts_forgotten(*final(ctl)),
        *final(ctl) == (RadioControl {
            last_rds_name: final(ctl).last_rds_name,
            last_rds_text: final(ctl).last_rds_text,
            wall_clock: None,
            last_tuned_pending: Some((freq_x10, now_ms)),
            meta_quiet_since: now_ms,
            ..*old(ctl)
        }),
        presets_shown(*old(state), *final(state), stored(*old(ctl)), freq_x10, always),
        station_cleared(
            RadioState {
                presets: final(state).presets,
                preset_idx: final(state).preset_idx,
                af_count: old(ctl).rds@.af.len() as u8,
                ..*old(state)
            },
            *final(state),
            freq_x10,
        ),
{
    ctl.last_rds_name = STATION_NAME_PLACEHOLDER.to_owned();
    ctl.last_rds_text = String::new();
    ctl.wall_clock = None;
    clear_station(state, freq_x10);
    state.af_count = ctl.rds.alt_freqs().len() as u8;
    match &ctl.store {
        Some(store) => {
            let set: PresetSet = store.snapshot();
            let idx: Option<u8> = match set.position(freq_x10) {
                Some(i) => Some(i as u8),
                None => None,
            };
            if always || !slots_equal(idx, state.preset_idx) {
                publish_presets(state, set, freq_x10);
            }
        },
        None => {},
    }
    ctl.last_tuned_pending = Some((freq_x10, now_ms));
    ctl.meta_quiet_since = now_ms;
}

/// Another frequency was tuned: forgets the former station and shows the new
/// one.
pub fn apply_tuned(
    ctl: &mut RadioControl,
    state: &mut RadioState,
    freq_x10: u16,
    always: bool,
    now_ms: u64,
)
    ensures
        final(ctl).wf(),
        tuned(*old(ctl), *old(state), *final(ctl), *final(state), freq_x10, always, now_ms),
{
    ctl.rds.reset();
    show_tuned(ctl, state, freq_x10, always, now_ms);
}

/// The first refresh after a tune shows nothing of the former station: name and
/// text are what the group that has arrived since says, else none, and so is
/// all else that the decoder knows.
pub proof fn law_tune_forgets_the_station(
    ctl0: RadioControl,
    state0: RadioState,
    ctl1: RadioControl,
    state1: RadioState,
    freq: u16,
    always: bool,
    now: u64,
    group: Option<RdsBlocks>,
)
    requires
        tuned(ctl0, state0, ctl1, state1, freq, always, now),
    ensures
        ({
            let s = decoder_after(rds::blank(), group);
            let name = shown_name(
                name_after(ctl1.last_rds_name@, ctl1.rds@, group),
                state1.station_name@,
            );
            &&& decoder_after(ctl1.rds@, group) == s
            &&& name == (if rds::rds_text(s.ps).len() > 0 {
                rds::rds_text(s.ps)
            } else {
                STATION_NAME_PLACEHOLDER@
            })
            &&& text_after(ctl1.last_rds_text@, ctl1.rds@, group) == rds::rds_text(
                s.rt.take(s.rt_len as int),
            )
            &&& state1.af_count == 0
            &&& ctl1.wall_clock is None
        }),
{
    reveal_strlit("--------");
    lemma_blank_texts();
}

proof fn lemma_blank_texts()
    ensures
        rds::rds_text(rds::blank().ps).len() == 0,
        rds::rds_text(rds::blank().rt.take(0)) == Seq::<char>::empty(),
{
    rds::lemma_padding_is_no_text(rds::blank().ps);
    rds::lemma_padding_is_no_text(rds::blank().rt.take(0));
}

// ---------------------------------------------------------------------------
// Storing the last tuned frequency
// ---------------------------------------------------------------------------

/// Whether a frequency is due to be stored: the dial has been quiet long enough
/// and it is known that no update has the flash.
pub open spec fn store_due(
    pending: Option<(u16, u64)>,
    ota_in_progress: Option<bool>,
    now: u64,
) -> bool {
    &&& pending is Some
    &&& now - (pending->0).1 >= LAST_TUNED_DEBOUNCE_MS
    &&& ota_in_progress == Some(false)
}

/// However the dial is turned, the frequency tuned last is stored at most once
/// in the quiet time: what is stored after a store at `stored` was tuned since.
pub proof fn law_stores_are_spaced(freq: u16, stored: u64, tuned: u64, now: u64)
    requires
        stored <= tuned,
        store_due(Some((freq, tuned)), Some(false), now),
    ensures
        now - stored >= LAST_TUNED_DEBOUNCE_MS,
{
}

/// What to do about the frequency tuned last.
pub enum LastTuned {
    /// Nothing now.
    Wait,
    /// It is stored already.
    Unchanged,
    /// Store this set, then report with [`PresetStore::save_set`].
    Store(PresetSet),
}

/// Takes the frequency that is due to be stored, if there is one. Whether or
/// not storing succeeds, it is not tried again before the next tune. Where the
/// shared state is in use, so that nothing is known of an update (`None`), the
/// frequency waits.
pub fn flush_last_tuned_if_due(
    ctl: &mut RadioControl,
    ota_in_progress: Option<bool>,
    now_ms: u64,
) -> (r: LastTuned)
    requires
        old(ctl).store is Some,
    ensures
        ({
            let due = store_due(old(ctl).last_tuned_pending, ota_in_progress, now_ms);
            &&& *final(ctl) == (if due {
                RadioControl { last_tuned_pending: None, ..*old(ctl) }
            } else {
                *old(ctl)
            })
            &&& r is Wait <==> !due
            &&& due ==> {
                let freq = (old(ctl).last_tuned_pending->0).0;
                let v = old(ctl).store->0@;
                match r {
                    LastTuned::Wait => false,
                    LastTuned::Unchanged => v.last_tuned == freq,
                    LastTuned::Store(set) => v.last_tuned != freq && set@ == (PresetView {
                        last_tuned: freq,
                        ..v
                    }),
                }
            }
        }),
{
    match ctl.last_tuned_pending {
        None => LastTuned::Wait,
        Some((freq, since)) => {
            if now_ms.saturating_sub(since) < LAST_TUNED_DEBOUNCE_MS {
                return LastTuned::Wait;
            }
            match ota_in_progress {
                Some(false) => {},
                _ => {
                    return LastTuned::Wait;
                },
            }
            ctl.last_tuned_pending = None;
            match &ctl.store {
                Some(store) => match store.record_last_tuned(freq) {
                    Some(set) => LastTuned::Store(set),
                    None => LastTuned::Unchanged,
                },
                None => LastTuned::Wait,
            }
        },
    }
}

// ---------------------------------------------------------------------------
// Handing the flash to an update
// ---------------------------------------------------------------------------

/// An update was asked for. Offline it is refused; where one is running it is
/// ignored. Else the store gives the flash away, and nothing is left to be
/// stored meanwhile.
pub fn handle_ota_command(ctl: &mut RadioControl, state: &mut RadioState, online: bool) -> (r: Option<
    PausedPresetStore,
>)
    ensures
        r is Some <==> online && old(ctl).store is Some,
        if !online {
            &&& *final(ctl) == *old(ctl)
            &&& final(state).ota_progress == OtaProgress::Failed(FailReason::Offline)
            &&& *final(state) == (RadioState {
                ota_progress: final(state).ota_progress,
                dirty: old(state).dirty || old(state).ota_progress != final(state).ota_progress,
                ..*old(state)
            })
        } else {
            &&& *final(state) == *old(state)
            &&& *final(ctl) == (RadioControl {
                last_tuned_pending: None,
                store: None,
                ..*old(ctl)
            })
            &&& r is Some ==> r->0@ == old(ctl).store->0@ && r->0.offset() == old(
                ctl,
            ).store->0.offset()
        },
{
    if !online {
        publish_ota_progress(state, OtaProgress::Failed(FailReason::Offline));
        return None;
    }
    ctl.last_tuned_pending = None;
    match ctl.store.take() {
        Some(store) => Some(store.pause()),
        None => None,
    }
}

/// The update has given the flash back.
pub fn ota_finished(ctl: &mut RadioControl, paused: PausedPresetStore)
    ensures
        final(ctl).store is Some,
        final(ctl).store->0@ == paused@,
        final(ctl).store->0.offset() == paused.offset(),
        *final(ctl) == (RadioControl { store: final(ctl).store, ..*old(ctl) }),
{
    ctl.store = Some(paused.resume());
}

// ---------------------------------------------------------------------------
// What a round of the control loop does
// ---------------------------------------------------------------------------

/// Whatever wakes the loop up is done first, and only that. A tick is a refresh;
/// a probe follows it exactly where the refresh asked for one, then what is due
/// is stored, then what is newly known is kept, and only then the loop sleeps.
pub proof fn law_every_tick_goes_all_the_way(c: RadioCommand, probe: bool, later: bool)
    ensures
        first_step(Wake::Command(c)) == ControlStep::RunCommand(c),
        first_step(Wake::Update) == ControlStep::Update,
        step_after(ControlStep::RunCommand(c), probe) == ControlStep::Sleep,
        step_after(ControlStep::Update, probe) == ControlStep::Sleep,
        ({
            let one = first_step(Wake::Tick);
            let two = step_after(one, probe);
            let three = if probe {
                step_after(two, later)
            } else {
                two
            };
            let four = step_after(three, later);
            &&& one == ControlStep::Refresh
            &&& two == ControlStep::ProbeAlternatives <==> probe
            &&& three == ControlStep::StoreLastTuned
            &&& four == ControlStep::FillPresetMeta
            &&& step_after(four, later) == ControlStep::Sleep
        }),
{
}

/// Failed reads in a row after the given reads.
pub open spec fn errors_in_a_row(reads: Seq<bool>) -> u32
    decreases reads.len(),
{
    if reads.len() == 0 {
        0
    } else {
        errors_after(errors_in_a_row(reads.drop_last()), reads.last())
    }
}

/// Failed reads are counted in a row: after `n` failures behind a good read the
/// count is `n`, whatever was before it.
pub proof fn law_failures_are_counted_in_a_row(before: Seq<bool>, n: nat)
    requires
        n < 0x1_0000_0000,
    ensures
        errors_in_a_row(before.push(true) + Seq::new(n, |i: int| false)) == n,
    decreases n,
{
    let reads = before.push(true) + Seq::new(n, |i: int| false);
    if n > 0 {
        let m = (n - 1) as nat;
        law_failures_are_counted_in_a_row(before, m);
        assert(reads.drop_last() =~= before.push(true) + Seq::new(m, |i: int| false));
        assert(!reads.last());
    } else {
        assert(reads =~= before.push(true));
    }
}

/// What the station sends is what is shown. A group leaves the name that the
/// decoder then holds, or the one before where that is blank, and the text that
/// it then holds; without a group both stay. A name that is known is shown as
/// it is.
pub proof fn law_shown_texts_follow_the_station(
    name: Seq<char>,
    text: Seq<char>,
    s: RdsState,
    g: RdsBlocks,
    shown: Seq<char>,
)
    ensures
        ({
            let t = rds::processed(s, g.0, g.1, g.2, g.3);
            &&& decoder_after(s, Some(g)) == t
            &&& decoder_after(s, None) == s
            &&& rds::rds_text(t.ps).len() > 0 ==> name_after(name, s, Some(g)) == rds::rds_text(
                t.ps,
            )
            &&& rds::rds_text(t.ps).len() == 0 ==> name_after(name, s, Some(g)) == name
            &&& text_after(text, s, Some(g)) == rds::rds_text(t.rt.take(t.rt_len as int))
            &&& name_after(name, s, None) == name
            &&& text_after(text, s, None) == text
            &&& name.len() > 0 ==> shown_name(name, shown) == name
            &&& name.len() == 0 && shown.len() > 0 ==> shown_name(name, shown) == shown
            &&& name.len() == 0 && shown.len() == 0 ==> shown_name(name, shown)
                == STATION_NAME_PLACEHOLDER@
        }),
{
}

/// The wall clock is set by a clock time at the moment it arrives, and else runs
/// on as it was.
pub proof fn law_clock_is_set_by_the_station(
    clock: Option<WallClock>,
    s: RdsState,
    g: RdsBlocks,
    now: u64,
)
    ensures
        ({
            let t = rds::processed(s, g.0, g.1, g.2, g.3);
            &&& clock_after(clock, s, None, now) == clock
            &&& t.clock is None ==> clock_after(clock, s, Some(g), now) == clock
            &&& t.clock is Some ==> {
                &&& clock_after(clock, s, Some(g), now) is Some
                &&& (clock_after(clock, s, Some(g), now)->0).anchor_ms == now
                &&& (clock_after(clock, s, Some(g), now)->0).anchor_utc_minutes == t.clock->0.utc_hour
                    * 60 + t.clock->0.utc_minute
                &&& (clock_after(clock, s, Some(g), now)->0).local_offset_half_hours
                    == t.clock->0.local_offset_half_hours
            }
        }),
{
}

/// After a tune the display shows the new frequency and nothing of the former
/// station; the slot shown is the one that holds the frequency, if any does; and
/// nothing else that is shown has changed. The frequency is noted to be stored.
pub proof fn law_tune_shows_the_new_station(
    ctl0: RadioControl,
    state0: RadioState,
    ctl1: RadioControl,
    state1: RadioState,
    freq: u16,
    always: bool,
    now: u64,
)
    requires
        tuned(ctl0, state0, ctl1, state1, freq, always, now),
    ensures
        state1.freq_mhz_x10 == freq,
        state1.station_name@ == STATION_NAME_PLACEHOLDER@,
        state1.radio_text@.len() == 0,
        state1.rt_plus_title is None && state1.rt_plus_artist is None,
        state1.clock_hh_mm is None && state1.pty_label is None,
        state1.af_count == 0,
        state1.dirty,
        state1.volume == state0.volume && state1.muted == state0.muted,
        state1.spectrum == state0.spectrum && state1.status == state0.status,
        state1.ota_in_progress == state0.ota_in_progress,
        ctl1.rds@.pi is None && ctl1.rds@.af.len() == 0 && ctl1.rds@.rt_len == 0,
        ctl1.wall_clock is None,
        ctl1.last_tuned_pending == Some((freq, now)),
        ctl1.meta_quiet_since == now,
        ctl1.store == ctl0.store && ctl1.mono_ctl == ctl0.mono_ctl && ctl1.af_ctl == ctl0.af_ctl,
        ctl0.store is Some ==> {
            let v = ctl0.store->0@;
            &&& state1.preset_idx is Some ==> (state1.preset_idx->0) < v.freqs.len() || v.freqs.len()
                > 255
            &&& v.freqs.len() == 8 ==> (state1.preset_idx is Some <==> v.freqs.contains(freq))
            &&& v.freqs.len() == 8 && state1.preset_idx is Some
                ==> v.freqs[state1.preset_idx->0 as int] == freq
            &&& always ==> state1.presets@ == v
        },
        ctl0.store is None ==> state1.preset_idx == state0.preset_idx && state1.presets
            == state0.presets,
{
    if let Some(store) = ctl0.store {
        let v = store@;
        crate::strings::lemma_find_from(v.freqs, freq, 0);
        if v.freqs.contains(freq) {
            let i = choose|i: int| 0 <= i < v.freqs.len() && v.freqs[i] == freq;
            assert(v.freqs[i] == freq);
        }
    }
}

/// The frequency tuned last is stored once the dial has been quiet for half a
/// minute and no update has the flash, neither earlier nor later.
pub proof fn law_last_tuned_is_stored_when_quiet(
    freq: u16,
    tuned: u64,
    update: Option<bool>,
    now: u64,
)
    ensures
        store_due(Some((freq, tuned)), update, now) <==> now >= tuned + 30_000 && update == Some(
            false,
        ),
        !store_due(None, update, now),
{
}

} // verus!
