//! Carrying out a command, step by step.

use vstd::prelude::*;

use crate::presets::PresetStore;
use crate::preset_codec::PresetView;
use crate::si4703::rds::{RdsDecoder, RdsState};
use crate::state;
use crate::state::{clamp_freq, publish_presets, publish_spectrum};
use crate::state::{PresetSet, RadioCommand, RadioState, DEFAULT_FREQ_X10, PRESET_EMPTY};
use crate::tasks::preset_meta;
use crate::tasks::preset_meta::{station_meta, StationMeta};
use crate::tasks::refresh;
use crate::tasks::refresh::{apply_tuned, RadioControl};

verus! {

/// What a command waits for.
#[derive(Clone, Copy, Debug, PartialEq, Eq, Structural)]
pub enum CommandPhase {
    Start,
    /// For the current frequency.
    Frequency,
    /// For the end of a tune to this frequency.
    Tuning(u16),
    /// For the mute setting to be written.
    Muting(bool),
    /// For the presets to be stored; this is the saved frequency.
    Storing(u16),
    /// For the end of a seek.
    Seeking,
    /// For the end of a sweep that started at this frequency.
    Sweeping(u16),
    /// For the tune back after a sweep.
    Returning,
    Over,
}

#[derive(Clone, Copy, Debug, PartialEq, Eq, Structural)]
pub enum CommandEvent {
    Started,
    /// The current frequency was read, or could not be.
    Frequency(Option<u16>),
    /// A tune has ended, successfully or not.
    Tuned(bool),
    Muted(bool),
    Stored(bool),
    /// A seek has ended; `None` where it found nothing or failed.
    Sought(Option<u16>),
    Swept,
}

/// What to do next.
#[derive(Clone, Copy, Debug, PartialEq, Eq, Structural)]
pub enum CommandAction {
    ReadFrequency,
    Tune(u16),
    SetMute(bool),
    /// Store [`CommandRun::pending`].
    StorePresets,
    SeekUp,
    Sweep,
    Done,
}

/// Which event can occur in which phase.
pub open spec fn expects(p: CommandPhase, e: CommandEvent) -> bool {
    match p {
        CommandPhase::Start => e is Started,
        CommandPhase::Frequency => e is Frequency,
        CommandPhase::Tuning(_) | CommandPhase::Returning => e is Tuned,
        CommandPhase::Muting(_) => e is Muted,
        CommandPhase::Storing(_) => e is Stored,
        CommandPhase::Seeking => e is Sought,
        CommandPhase::Sweeping(_) => e is Swept,
        CommandPhase::Over => false,
    }
}

/// The frequency that a read gave, or the default where it failed.
pub open spec fn current_or_default(read: Option<u16>) -> u16 {
    match read {
        Some(f) => f,
        None => DEFAULT_FREQ_X10,
    }
}

/// What follows once the current frequency is known.
pub open spec fn frequency_known(c: RadioCommand, current: u16, v: PresetView) -> (
    CommandPhase,
    CommandAction,
) {
    match c {
        RadioCommand::TuneRelative(steps) => {
            let f = state::clamped(current + steps);
            (CommandPhase::Tuning(f), CommandAction::Tune(f))
        },
        RadioCommand::SavePreset => if current == PRESET_EMPTY || state::slot_of(v.freqs, current)
            is Some {
            (CommandPhase::Over, CommandAction::Done)
        } else {
            (CommandPhase::Storing(current), CommandAction::StorePresets)
        },
        RadioCommand::CyclePreset => match state::preset_after(v.freqs, current) {
            Some(f) => if f != current {
                (CommandPhase::Tuning(f), CommandAction::Tune(f))
            } else {
                (CommandPhase::Seeking, CommandAction::SeekUp)
            },
            None => (CommandPhase::Seeking, CommandAction::SeekUp),
        },
        RadioCommand::SpectrumScan => (CommandPhase::Sweeping(current), CommandAction::Sweep),
        _ => (CommandPhase::Over, CommandAction::Done),
    }
}

/// Saving a frequency that is saved already does nothing: no presets are
/// stored, and what is known of its station stays as it is.
pub proof fn law_saving_again_does_nothing(current: u16, v: PresetView)
    requires
        state::slot_of(v.freqs, current) is Some,
    ensures
        frequency_known(RadioCommand::SavePreset, current, v) == (
            CommandPhase::Over,
            CommandAction::Done,
        ),
{
}

/// The presets with `freq` saved, together with what is known of its station.
pub open spec fn saved_presets(v: PresetView, freq: u16, s: RdsState) -> PresetView {
    let (t, i) = state::with_slot(v, freq);
    state::with_meta(t, i, preset_meta::known_pi(s), preset_meta::known_ps(s))
}

/// Phase and action after an event; `v` are the stored presets.
pub open spec fn command_next(
    c: RadioCommand,
    p: CommandPhase,
    e: CommandEvent,
    v: PresetView,
    muted: bool,
) -> (CommandPhase, CommandAction) {
    match p {
        CommandPhase::Start => match c {
            RadioCommand::TuneAbsolute(freq) => {
                let f = state::clamped(freq as int);
                (CommandPhase::Tuning(f), CommandAction::Tune(f))
            },
            RadioCommand::ToggleMute => (
                CommandPhase::Muting(!muted),
                CommandAction::SetMute(!muted),
            ),
            _ => (CommandPhase::Frequency, CommandAction::ReadFrequency),
        },
        CommandPhase::Frequency => match e {
            CommandEvent::Frequency(read) => frequency_known(c, current_or_default(read), v),
            _ => (CommandPhase::Over, CommandAction::Done),
        },
        CommandPhase::Sweeping(f) => (
            CommandPhase::Returning,
            CommandAction::Tune(state::clamped(f as int)),
        ),
        _ => (CommandPhase::Over, CommandAction::Done),
    }
}

/// The frequency that an event has brought, if any.
pub open spec fn arrived(p: CommandPhase, e: CommandEvent) -> Option<u16> {
    match (p, e) {
        (CommandPhase::Tuning(f), CommandEvent::Tuned(true)) => Some(f),
        (CommandPhase::Seeking, CommandEvent::Sought(found)) => found,
        _ => None,
    }
}

/// Whether the presets are shown anew after a tune even in the same slot.
pub open spec fn presets_always(c: RadioCommand) -> bool {
    c == RadioCommand::CyclePreset
}

/// A command being carried out.
pub struct CommandRun {
    pub command: RadioCommand,
    pub phase: CommandPhase,
    /// The presets about to be stored.
    pub pending: Option<PresetSet>,
    /// The sweep that was taken.
    pub spectrum: [u8; 52],
}

impl CommandRun {
    /// Presets are about to be stored exactly while the command waits for that.
    pub open spec fn wf(&self) -> bool {
        self.pending is Some <==> self.phase is Storing
    }

    pub fn new(command: RadioCommand) -> (r: CommandRun)
        ensures
            r.wf(),
            r.command == command,
            r.phase == CommandPhase::Start,
            r.spectrum@ == Seq::new(52, |i: int| 0u8),
    {
        let spectrum: [u8; 52] = [0u8; 52];
        assert(spectrum@ =~= Seq::new(52, |i: int| 0u8));
        CommandRun { command, phase: CommandPhase::Start, pending: None, spectrum }
    }

    fn begin(&mut self, muted: bool) -> (r: CommandAction)
        requires
            old(self).wf(),
            old(self).phase == CommandPhase::Start,
        ensures
            final(self).wf(),
            final(self).command == old(self).command,
            final(self).spectrum == old(self).spectrum,
            r != CommandAction::StorePresets,
            forall|v: PresetView| (final(self).phase, r) == #[trigger] command_next(
                old(self).command,
                CommandPhase::Start,
                CommandEvent::Started,
                v,
                muted,
            ),
    {
        match self.command {
            RadioCommand::TuneAbsolute(freq) => {
                let f: u16 = clamp_freq(freq as i32);
                self.phase = CommandPhase::Tuning(f);
                CommandAction::Tune(f)
            },
            RadioCommand::ToggleMute => {
                self.phase = CommandPhase::Muting(!muted);
                CommandAction::SetMute(!muted)
            },
            _ => {
                self.phase = CommandPhase::Frequency;
                CommandAction::ReadFrequency
            },
        }
    }

    fn on_frequency(&mut self, current: u16, store: &PresetStore, decoder: &RdsDecoder) -> (r:
        CommandAction)
        requires
            old(self).wf(),
            old(self).phase == CommandPhase::Frequency,
        ensures
            final(self).wf(),
            final(self).command == old(self).command,
            (final(self).phase, r) == frequency_known(old(self).command, current, store@),
            final(self).spectrum == old(self).spectrum,
            r == CommandAction::StorePresets ==> final(self).pending->0@ == saved_presets(
                store@,
                current,
                decoder@,
            ),
    {
        match self.command {
            RadioCommand::TuneRelative(steps) => {
                let f: u16 = clamp_freq(current as i32 + steps as i32);
                self.phase = CommandPhase::Tuning(f);
                CommandAction::Tune(f)
            },
            RadioCommand::SavePreset => {
                if store.snapshot().position(current).is_some() {
                    self.phase = CommandPhase::Over;
                    return CommandAction::Done;
                }
                let meta: StationMeta = station_meta(decoder);
                match store.save_freq_with_meta(current, meta.pi, meta.ps) {
                    Some(p) => {
                        self.pending = Some(p.set);
                        self.phase = CommandPhase::Storing(current);
                        CommandAction::StorePresets
                    },
                    None => {
                        self.phase = CommandPhase::Over;
                        CommandAction::Done
                    },
                }
            },
            RadioCommand::CyclePreset => {
                let set: PresetSet = store.snapshot();
                match set.next_after(current) {
                    Some(f) => {
                        if f != current {
                            self.phase = CommandPhase::Tuning(f);
                            return CommandAction::Tune(f);
                        }
                    },
                    None => {},
                }
                self.phase = CommandPhase::Seeking;
                CommandAction::SeekUp
            },
            RadioCommand::SpectrumScan => {
                self.phase = CommandPhase::Sweeping(current);
                CommandAction::Sweep
            },
            _ => {
                self.phase = CommandPhase::Over;
                CommandAction::Done
            },
        }
    }

    /// Takes an event, updates what the command has changed, and says what to
    /// do next. Before [`CommandEvent::Swept`] the samples are put into
    /// `spectrum`.
    pub fn handle_command(
        &mut self,
        ctl: &mut RadioControl,
        state: &mut RadioState,
        event: CommandEvent,
        now_ms: u64,
    ) -> (r: CommandAction)
        requires
            old(self).wf(),
            old(ctl).wf(),
            old(ctl).store is Some,
            expects(old(self).phase, event),
        ensures
            final(self).wf(),
            final(ctl).wf(),
            final(self).command == old(self).command,
            final(self).spectrum == old(self).spectrum,
            (final(self).phase, r) == command_next(
                old(self).command,
                old(self).phase,
                event,
                old(ctl).store->0@,
                old(state).muted,
            ),
            r == CommandAction::StorePresets ==> final(self).pending is Some
                && final(self).phase is Storing && final(self).pending->0@ == saved_presets(
                old(ctl).store->0@,
                final(self).phase->Storing_0,
                old(ctl).rds@,
            ),
            match arrived(old(self).phase, event) {
                Some(f) => refresh::tuned(
                    *old(ctl),
                    *old(state),
                    *final(ctl),
                    *final(state),
                    f,
                    presets_always(old(self).command) || old(self).phase is Seeking,
                    now_ms,
                ),
                None => match (old(self).phase, event) {
                    (CommandPhase::Muting(m), CommandEvent::Muted(true)) => *final(ctl) == *old(ctl)
                        && *final(state) == (RadioState { muted: m, dirty: true, ..*old(state) }),
                    (CommandPhase::Storing(f), CommandEvent::Stored(true)) => {
                        &&& final(ctl).store is Some
                        &&& final(ctl).store->0@ == old(self).pending->0@
                        &&& final(ctl).store->0.offset() == old(ctl).store->0.offset()
                        &&& *final(ctl) == (RadioControl { store: final(ctl).store, ..*old(ctl) })
                        &&& final(state).presets@ == old(self).pending->0@
                        &&& final(state).preset_idx == state::shown_slot(
                            old(self).pending->0@,
                            f,
                        )
                        &&& *final(state) == (RadioState {
                            presets: final(state).presets,
                            preset_idx: final(state).preset_idx,
                            dirty: final(state).dirty,
                            ..*old(state)
                        })
                        &&& final(state).dirty == (old(state).dirty || old(state).presets@
                            != final(state).presets@ || old(state).preset_idx
                            != final(state).preset_idx)
                    },
                    (CommandPhase::Sweeping(_), CommandEvent::Swept) => *final(ctl) == *old(ctl)
                        && *final(state) == (RadioState {
                        spectrum: old(self).spectrum,
                        dirty: true,
                        ..*old(state)
                    }),
                    _ => *final(ctl) == *old(ctl) && *final(state) == *old(state),
                },
            },
    {
        match self.phase {
            CommandPhase::Start => self.begin(state.muted),
            CommandPhase::Frequency => {
                let current: u16 = match event {
                    CommandEvent::Frequency(Some(f)) => f,
                    _ => DEFAULT_FREQ_X10,
                };
                match &ctl.store {
                    Some(store) => self.on_frequency(current, store, &ctl.rds),
                    None => CommandAction::Done,
                }
            },
            CommandPhase::Tuning(f) => {
                let always: bool = self.command == RadioCommand::CyclePreset;
                self.phase = CommandPhase::Over;
                if event == CommandEvent::Tuned(true) {
                    apply_tuned(ctl, state, f, always, now_ms);
                }
                CommandAction::Done
            },
            CommandPhase::Muting(m) => {
                self.phase = CommandPhase::Over;
                if event == CommandEvent::Muted(true) {
                    state.muted = m;
                    state.dirty = true;
                }
                CommandAction::Done
            },
            CommandPhase::Storing(f) => {
                self.phase = CommandPhase::Over;
                match self.pending.take() {
                    Some(set) => {
                        if event == CommandEvent::Stored(true) {
                            match ctl.store.take() {
                                Some(mut store) => {
                                    let _ = store.save_set(set, true);
                                    ctl.store = Some(store);
                                },
                                None => {},
                            }
                            publish_presets(state, set, f);
                        }
                    },
                    None => {},
                }
                CommandAction::Done
            },
            CommandPhase::Seeking => {
                self.phase = CommandPhase::Over;
                match event {
                    CommandEvent::Sought(Some(f)) => {
                        apply_tuned(ctl, state, f, true, now_ms);
                    },
                    _ => {},
                }
                CommandAction::Done
            },
            CommandPhase::Sweeping(f) => {
                publish_spectrum(state, &self.spectrum);
                self.phase = CommandPhase::Returning;
                CommandAction::Tune(clamp_freq(f as i32))
            },
            CommandPhase::Returning => {
                self.phase = CommandPhase::Over;
                CommandAction::Done
            },
            CommandPhase::Over => CommandAction::Done,
        }
    }
}

/// A command tunes only within the band or to a saved preset.
pub proof fn law_command_tunes_in_band_or_to_preset(
    c: RadioCommand,
    p: CommandPhase,
    e: CommandEvent,
    v: PresetView,
    muted: bool,
)
    requires
        v.wf(),
        command_next(c, p, e, v, muted).1 is Tune,
    ensures
        ({
            let f = command_next(c, p, e, v, muted).1->Tune_0;
            875 <= f <= 1080 || (c == RadioCommand::CyclePreset && v.freqs.contains(f) && f
                != PRESET_EMPTY)
        }),
{
    if c == RadioCommand::CyclePreset && p == CommandPhase::Frequency {
        if let CommandEvent::Frequency(read) = e {
            state::law_next_preset_is_saved(v.freqs, current_or_default(read));
        }
    }
}

/// Commands do what they say. A relative tune goes so many steps from where the
/// dial stands, an absolute one to its frequency, and both stop at the ends of
/// the band. Mute is toggled. A frequency that is not saved yet is saved. Cycling
/// goes to the next preset, and seeks where there is no other. A sweep ends with
/// the tune back to where it began.
pub proof fn law_commands_do_what_they_say(current: u16, steps: i16, v: PresetView, muted: bool)
    ensures
        ({
            let at = |c: RadioCommand| command_next(
                c,
                CommandPhase::Frequency,
                CommandEvent::Frequency(Some(current)),
                v,
                muted,
            );
            let start = |c: RadioCommand| command_next(
                c,
                CommandPhase::Start,
                CommandEvent::Started,
                v,
                muted,
            );
            let relative = at(RadioCommand::TuneRelative(steps));
            let absolute = start(RadioCommand::TuneAbsolute(current));
            let cycled = at(RadioCommand::CyclePreset);
            let saved = at(RadioCommand::SavePreset);
            let swept = at(RadioCommand::SpectrumScan);
            let next = state::preset_after(v.freqs, current);
            &&& 875 <= current + steps <= 1080 ==> relative.1 == CommandAction::Tune(
                (current + steps) as u16,
            )
            &&& current + steps < 875 ==> relative.1 == CommandAction::Tune(875)
            &&& current + steps > 1080 ==> relative.1 == CommandAction::Tune(1080)
            &&& 875 <= current <= 1080 ==> absolute.1 == CommandAction::Tune(current)
            &&& current < 875 ==> absolute.1 == CommandAction::Tune(875)
            &&& current > 1080 ==> absolute.1 == CommandAction::Tune(1080)
            &&& relative.1 is Tune && relative.0 == CommandPhase::Tuning(relative.1->Tune_0)
            &&& absolute.0 == CommandPhase::Tuning(absolute.1->Tune_0)
            &&& start(RadioCommand::ToggleMute) == (
                CommandPhase::Muting(!muted),
                CommandAction::SetMute(!muted),
            )
            &&& start(RadioCommand::TuneRelative(steps)).1 == CommandAction::ReadFrequency
            &&& start(RadioCommand::SavePreset).1 == CommandAction::ReadFrequency
            &&& start(RadioCommand::CyclePreset).1 == CommandAction::ReadFrequency
            &&& start(RadioCommand::SpectrumScan).1 == CommandAction::ReadFrequency
            &&& current != 0 && v.freqs.len() == 8 && !v.freqs.contains(current) ==> saved == (
                CommandPhase::Storing(current),
                CommandAction::StorePresets,
            )
            &&& next is Some && next->0 != current ==> cycled == (
                CommandPhase::Tuning(next->0),
                CommandAction::Tune(next->0),
            )
            &&& next is None || next->0 == current ==> cycled == (
                CommandPhase::Seeking,
                CommandAction::SeekUp,
            )
            &&& swept == (CommandPhase::Sweeping(current), CommandAction::Sweep)
            &&& 875 <= current <= 1080 ==> command_next(
                RadioCommand::SpectrumScan,
                CommandPhase::Sweeping(current),
                CommandEvent::Swept,
                v,
                muted,
            ).1 == CommandAction::Tune(current)
        }),
{
    crate::strings::lemma_find_from(v.freqs, current, 0);
}

/// A frequency has arrived exactly where a tune has succeeded, which brings the
/// one that was asked for, or a seek has found one.
pub proof fn law_only_success_brings_a_frequency(p: CommandPhase, e: CommandEvent, f: u16)
    ensures
        arrived(CommandPhase::Tuning(f), CommandEvent::Tuned(true)) == Some(f),
        arrived(CommandPhase::Tuning(f), CommandEvent::Tuned(false)) is None,
        arrived(CommandPhase::Seeking, CommandEvent::Sought(Some(f))) == Some(f),
        arrived(CommandPhase::Seeking, CommandEvent::Sought(None)) is None,
        !(p is Tuning) && !(p is Seeking) ==> arrived(p, e) is None,
        expects(p, e) && p is Tuning ==> command_next(
            RadioCommand::CyclePreset,
            p,
            e,
            crate::preset_codec::no_presets(),
            false,
        ).1 == CommandAction::Done,
{
}

/// A saved preset holds what is known of its station: its frequency stands in a
/// slot, with the identification and the name where they are known. Every other
/// preset that stays keeps its own.
pub proof fn law_saved_preset_holds_its_station(v: PresetView, freq: u16, s: RdsState, k: int)
    requires
        v.wf(),
        freq != PRESET_EMPTY,
        !v.freqs.contains(freq),
        0 <= k < 8,
    ensures
        ({
            let t = saved_presets(v, freq, s);
            let i = state::with_slot(v, freq).1;
            let full = !v.freqs.contains(PRESET_EMPTY);
            &&& 0 <= i < 8
            &&& t.freqs[i] == freq
            &&& t.pi[i] == (if preset_meta::known_pi(s) is Some {
                preset_meta::known_pi(s)->0
            } else {
                0
            })
            &&& preset_meta::known_ps(s) is Some ==> t.ps[i] == preset_meta::known_ps(s)->0
            &&& preset_meta::known_ps(s) is None ==> t.ps[i] == state::no_name()
            &&& !full && v.freqs[k] != PRESET_EMPTY ==> t.freqs[k] == v.freqs[k] && t.pi[k]
                == v.pi[k] && t.ps[k] == v.ps[k]
            &&& full && k > 0 ==> t.freqs[k - 1] == v.freqs[k] && t.pi[k - 1] == v.pi[k] && t.ps[k
                - 1] == v.ps[k]
            &&& t.last_tuned == v.last_tuned
        }),
{
    crate::strings::lemma_find_from(v.freqs, freq, 0);
    crate::strings::lemma_find_from(v.freqs, PRESET_EMPTY, 0);
    let at = crate::strings::find_from(v.freqs, freq, 0);
    if at < 8 {
        assert(v.freqs[at] == freq);
    }
}

/// Where the current frequency cannot be read, a command goes by the bottom of
/// the band. Cycling shows the presets anew even in the same slot, a tune only
/// where the slot changes.
pub proof fn law_unread_frequency_is_the_bottom_of_the_band(
    steps: i16,
    v: PresetView,
    muted: bool,
    freq: u16,
)
    requires
        0 <= steps <= 205,
    ensures
        command_next(
            RadioCommand::TuneRelative(steps),
            CommandPhase::Frequency,
            CommandEvent::Frequency(None),
            v,
            muted,
        ).1 == CommandAction::Tune((875 + steps) as u16),
        presets_always(RadioCommand::CyclePreset),
        !presets_always(RadioCommand::TuneRelative(steps)),
        !presets_always(RadioCommand::TuneAbsolute(freq)),
{
}

} // verus!
