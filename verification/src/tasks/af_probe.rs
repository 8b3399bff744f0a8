//! Probing alternative frequencies: measure the candidates, go to the
//! strongest if it is clearly stronger, and stay there only if it carries the
//! same programme; else return.

use vstd::prelude::*;

use crate::si4703::rds;
use crate::si4703::RdsBlocks;
use crate::state::{publish_af_status, RadioState};
use crate::tasks::controllers::RSSI_IMPROVE_MARGIN;
use crate::tasks::refresh;
use crate::tasks::refresh::{show_tuned, RadioControl};

verus! {

/// Most candidates measured in one probe.
pub const AF_PROBE_LIMIT: usize = 8;

/// Pause before a candidate is measured (milliseconds).
pub const AF_SETTLE_MS: u64 = 120;

/// Longest wait for the programme identification (milliseconds).
pub const AF_PI_VERIFY_MS: u64 = 800;

/// Pause between two looks for it (milliseconds).
pub const AF_PI_POLL_MS: u64 = 60;

/// What a probe waits for.
#[derive(Clone, Copy, Debug, PartialEq, Eq, Structural)]
pub enum ProbePhase {
    /// For the signal strength of the tuned station.
    Original,
    /// For the end of the tune to a candidate.
    Tuning(usize),
    /// For the candidate's signal to settle.
    Settling(usize),
    /// For the candidate's signal strength.
    Measuring(usize),
    /// For the end of the tune to the chosen candidate.
    Committing(u16),
    /// For a look at the RDS data of the chosen candidate.
    Verifying(u16, u64),
    /// For the pause between two looks.
    Pausing(u16, u64),
    /// For the end of the tune back.
    Returning,
    Over,
}

#[derive(Clone, Copy, Debug)]
pub enum ProbeEvent {
    /// A signal strength was read, or could not be.
    Rssi(Option<u8>),
    Tuned(bool),
    Waited,
    /// A group was read, none has arrived, or the read failed.
    Group(Option<RdsBlocks>),
}

/// What to do next.
#[derive(Clone, Copy, Debug, PartialEq, Eq, Structural)]
pub enum ProbeAction {
    ReadRssi,
    Tune(u16),
    Wait(u64),
    ReadGroup,
    Done,
}

/// Which event can occur in which phase.
pub open spec fn expects(p: ProbePhase, e: ProbeEvent) -> bool {
    match p {
        ProbePhase::Original | ProbePhase::Measuring(_) => e is Rssi,
        ProbePhase::Tuning(_) | ProbePhase::Committing(_) | ProbePhase::Returning => e is Tuned,
        ProbePhase::Settling(_) | ProbePhase::Pausing(_, _) => e is Waited,
        ProbePhase::Verifying(_, _) => e is Group,
        ProbePhase::Over => false,
    }
}

/// The first `n` alternatives other than the tuned frequency, at most the
/// limit of them.
pub open spec fn candidates_of(af: Seq<u16>, original: u16, n: int) -> Seq<u16>
    decreases n,
{
    if n <= 0 {
        Seq::empty()
    } else {
        let c = candidates_of(af, original, n - 1);
        if af[n - 1] != original && c.len() < AF_PROBE_LIMIT {
            c.push(af[n - 1])
        } else {
            c
        }
    }
}

/// The plain part of a probe's state.
#[derive(Clone, Copy, Debug, PartialEq, Eq, Structural)]
pub struct ProbeState {
    pub phase: ProbePhase,
    pub original_freq: u16,
    pub original_pi: u16,
    pub original_rssi: u8,
    /// The strongest candidate so far.
    pub best_freq: Option<u16>,
    pub best_rssi: u8,
}

/// Back to where the probe started.
pub open spec fn give_up(s: ProbeState) -> (ProbeState, ProbeAction) {
    (ProbeState { phase: ProbePhase::Returning, ..s }, ProbeAction::Tune(s.original_freq))
}

/// All candidates were measured: the strongest is taken if it is stronger by
/// the margin.
pub open spec fn decide(s: ProbeState) -> (ProbeState, ProbeAction) {
    let needed = if s.original_rssi + RSSI_IMPROVE_MARGIN > 255 {
        255
    } else {
        s.original_rssi + RSSI_IMPROVE_MARGIN
    };
    match s.best_freq {
        Some(f) => if s.best_rssi >= needed {
            (ProbeState { phase: ProbePhase::Committing(f), ..s }, ProbeAction::Tune(f))
        } else {
            give_up(s)
        },
        None => give_up(s),
    }
}

/// Candidate `i`, or the decision after the last.
pub open spec fn candidate(s: ProbeState, c: Seq<u16>, i: int) -> (ProbeState, ProbeAction) {
    if i < c.len() {
        (ProbeState { phase: ProbePhase::Tuning(i as usize), ..s }, ProbeAction::Tune(c[i]))
    } else {
        decide(s)
    }
}

/// The next look for the programme identification, unless time is up.
pub open spec fn look(s: ProbeState, f: u16, deadline: u64, now: u64) -> (ProbeState, ProbeAction) {
    if now < deadline {
        (ProbeState { phase: ProbePhase::Verifying(f, deadline), ..s }, ProbeAction::ReadGroup)
    } else {
        give_up(s)
    }
}

/// The time at which verification ends.
pub open spec fn deadline_from(now: u64) -> u64 {
    if now + AF_PI_VERIFY_MS > u64::MAX {
        u64::MAX
    } else {
        (now + AF_PI_VERIFY_MS) as u64
    }
}

/// State and action after an event; `c` are the candidates.
pub open spec fn probe_next(s: ProbeState, c: Seq<u16>, e: ProbeEvent, now: u64) -> (
    ProbeState,
    ProbeAction,
) {
    match (s.phase, e) {
        (ProbePhase::Original, ProbeEvent::Rssi(r)) => candidate(
            ProbeState {
                original_rssi: match r {
                    Some(v) => v,
                    None => 0,
                },
                ..s
            },
            c,
            0,
        ),
        (ProbePhase::Tuning(i), ProbeEvent::Tuned(ok)) => if ok {
            (ProbeState { phase: ProbePhase::Settling(i), ..s }, ProbeAction::Wait(AF_SETTLE_MS))
        } else {
            candidate(s, c, i + 1)
        },
        (ProbePhase::Settling(i), _) => (
            ProbeState { phase: ProbePhase::Measuring(i), ..s },
            ProbeAction::ReadRssi,
        ),
        (ProbePhase::Measuring(i), ProbeEvent::Rssi(r)) => {
            let v = match r {
                Some(v) => v,
                None => 0,
            };
            candidate(
                if v > s.best_rssi {
                    ProbeState { best_rssi: v, best_freq: Some(c[i as int]), ..s }
                } else {
                    s
                },
                c,
                i + 1,
            )
        },
        (ProbePhase::Committing(f), ProbeEvent::Tuned(ok)) => if ok {
            look(s, f, deadline_from(now), now)
        } else {
            give_up(s)
        },
        (ProbePhase::Verifying(f, deadline), ProbeEvent::Group(g)) => if g is Some && (g->0).0
            == s.original_pi {
            (ProbeState { phase: ProbePhase::Over, ..s }, ProbeAction::Done)
        } else {
            (
                ProbeState { phase: ProbePhase::Pausing(f, deadline), ..s },
                ProbeAction::Wait(AF_PI_POLL_MS),
            )
        },
        (ProbePhase::Pausing(f, deadline), _) => look(s, f, deadline, now),
        _ => (ProbeState { phase: ProbePhase::Over, ..s }, ProbeAction::Done),
    }
}

/// The frequency that the probe has moved to, if this event has confirmed it.
pub open spec fn moved_to(s: ProbeState, e: ProbeEvent) -> Option<u16> {
    match (s.phase, e) {
        (ProbePhase::Verifying(f, _), ProbeEvent::Group(Some(g))) => if g.0 == s.original_pi {
            Some(f)
        } else {
            None
        },
        _ => None,
    }
}

/// A probe under way.
pub struct AfProbe {
    pub state: ProbeState,
    pub candidates: Vec<u16>,
}

/// Whether `f` is a candidate.
pub open spec fn is_candidate(c: Seq<u16>, f: u16) -> bool {
    exists|i: int| 0 <= i < c.len() && #[trigger] c[i] == f
}

impl AfProbe {
    /// Positions lie within the candidates, the chosen one is one of them, and
    /// the tuned frequency is none.
    pub open spec fn wf(&self) -> bool {
        &&& self.candidates@.len() > 0
        &&& self.candidates@.len() <= AF_PROBE_LIMIT
        &&& !is_candidate(self.candidates@, self.state.original_freq)
        &&& self.state.best_freq is Some ==> is_candidate(
            self.candidates@,
            self.state.best_freq->0,
        )
        &&& match self.state.phase {
            ProbePhase::Tuning(i) | ProbePhase::Settling(i) | ProbePhase::Measuring(i) => i
                < self.candidates@.len(),
            ProbePhase::Committing(f)
            | ProbePhase::Verifying(f, _)
            | ProbePhase::Pausing(f, _) => is_candidate(self.candidates@, f),
            _ => true,
        }
    }

    /// Prepares a probe. There is none without the tuned frequency, its
    /// programme identification and a candidate.
    pub fn begin(ctl: &RadioControl, state: &mut RadioState, current: Option<u16>) -> (r: Option<
        AfProbe,
    >)
        requires
            ctl.wf(),
        ensures
            ({
                let c = candidates_of(ctl.rds@.af, current->0, ctl.rds@.af.len() as int);
                &&& r is Some <==> current is Some && ctl.rds@.pi is Some && c.len() > 0
                &&& r is Some ==> {
                    &&& r->0.wf()
                    &&& r->0.candidates@ == c
                    &&& r->0.state == (ProbeState {
                        phase: ProbePhase::Original,
                        original_freq: current->0,
                        original_pi: ctl.rds@.pi->0,
                        original_rssi: 0,
                        best_freq: None,
                        best_rssi: 0,
                    })
                    &&& final(state).af_count == ctl.rds@.af.len()
                    &&& final(state).af_following
                    &&& *final(state) == (RadioState {
                        af_count: final(state).af_count,
                        af_following: true,
                        dirty: old(state).dirty || old(state).af_count != final(state).af_count
                            || !old(state).af_following,
                        ..*old(state)
                    })
                }
                &&& r is None ==> *final(state) == *old(state)
            }),
    {
        let original_freq: u16 = match current {
            Some(f) => f,
            None => {
                return None;
            },
        };
        let original_pi: u16 = match ctl.rds.pi() {
            Some(p) => p,
            None => {
                return None;
            },
        };
        let af: &[u16] = ctl.rds.alt_freqs();
        let mut candidates: Vec<u16> = Vec::new();
        let mut i: usize = 0;
        while i < af.len()
            invariant
                0 <= i <= af@.len(),
                candidates@ == candidates_of(af@, original_freq, i as int),
                candidates@.len() <= AF_PROBE_LIMIT,
                forall|j: int| 0 <= j < candidates@.len() ==> #[trigger] candidates@[j] != original_freq,
            decreases af@.len() - i,
        {
            if af[i] != original_freq && candidates.len() < AF_PROBE_LIMIT {
                candidates.push(af[i]);
            }
            i = i + 1;
        }
        if candidates.len() == 0 {
            return None;
        }
        publish_af_status(state, af.len() as u8, true);
        Some(
            AfProbe {
                state: ProbeState {
                    phase: ProbePhase::Original,
                    original_freq,
                    original_pi,
                    original_rssi: 0,
                    best_freq: None,
                    best_rssi: 0,
                },
                candidates,
            },
        )
    }

    fn return_home(&mut self) -> (r: ProbeAction)
        requires
            old(self).wf(),
        ensures
            final(self).wf(),
            final(self).candidates == old(self).candidates,
            (final(self).state, r) == give_up(old(self).state),
    {
        self.state.phase = ProbePhase::Returning;
        ProbeAction::Tune(self.state.original_freq)
    }

    fn next_candidate(&mut self, i: usize) -> (r: ProbeAction)
        requires
            old(self).wf(),
            i <= old(self).candidates@.len(),
        ensures
            final(self).wf(),
            final(self).candidates == old(self).candidates,
            (final(self).state, r) == candidate(
                old(self).state,
                old(self).candidates@,
                i as int,
            ),
    {
        if i < self.candidates.len() {
            self.state.phase = ProbePhase::Tuning(i);
            return ProbeAction::Tune(self.candidates[i]);
        }
        match self.state.best_freq {
            Some(f) => {
                if self.state.best_rssi >= self.state.original_rssi.saturating_add(
                    RSSI_IMPROVE_MARGIN,
                ) {
                    self.state.phase = ProbePhase::Committing(f);
                    return ProbeAction::Tune(f);
                }
            },
            None => {},
        }
        self.return_home()
    }

    fn look_again(&mut self, f: u16, deadline: u64, now_ms: u64) -> (r: ProbeAction)
        requires
            old(self).wf(),
            is_candidate(old(self).candidates@, f),
        ensures
            final(self).wf(),
            final(self).candidates == old(self).candidates,
            (final(self).state, r) == look(old(self).state, f, deadline, now_ms),
    {
        if now_ms < deadline {
            self.state.phase = ProbePhase::Verifying(f, deadline);
            ProbeAction::ReadGroup
        } else {
            self.return_home()
        }
    }

    /// Takes an event and says what to do next. From the tune to the chosen
    /// candidate on, the decoder belongs to that frequency; a return clears it
    /// again. Only a confirmed move changes the frequency shown.
    pub fn run_af_probe(
        &mut self,
        ctl: &mut RadioControl,
        state: &mut RadioState,
        event: ProbeEvent,
        now_ms: u64,
    ) -> (r: ProbeAction)
        requires
            old(self).wf(),
            old(ctl).wf(),
            expects(old(self).state.phase, event),
        ensures
            final(self).wf(),
            final(ctl).wf(),
            final(self).candidates == old(self).candidates,
            (final(self).state, r) == probe_next(
                old(self).state,
                old(self).candidates@,
                event,
                now_ms,
            ),
            match moved_to(old(self).state, event) {
                Some(f) => {
                    let g = event->Group_0->0;
                    let af = rds::processed(old(ctl).rds@, g.0, g.1, g.2, g.3).af;
                    &&& final(ctl).rds@ == rds::processed(old(ctl).rds@, g.0, g.1, g.2, g.3)
                    &&& refresh::texts_forgotten(*final(ctl))
                    &&& *final(ctl) == (RadioControl {
                        rds: final(ctl).rds,
                        last_rds_name: final(ctl).last_rds_name,
                        last_rds_text: final(ctl).last_rds_text,
                        wall_clock: None,
                        last_tuned_pending: Some((f, now_ms)),
                        meta_quiet_since: now_ms,
                        ..*old(ctl)
                    })
                    &&& refresh::presets_shown(
                        *old(state),
                        *final(state),
                        refresh::stored(*old(ctl)),
                        f,
                        true,
                    )
                    &&& refresh::station_cleared(
                        RadioState {
                            presets: final(state).presets,
                            preset_idx: final(state).preset_idx,
                            af_count: af.len() as u8,
                            af_following: false,
                            ..*old(state)
                        },
                        *final(state),
                        f,
                    )
                },
                None => {
                    &&& final(state).freq_mhz_x10 == old(state).freq_mhz_x10
                    &&& *final(state) == (RadioState {
                        af_count: final(state).af_count,
                        af_following: final(state).af_following,
                        dirty: final(state).dirty,
                        ..*old(state)
                    })
                    &&& r == ProbeAction::Done ==> {
                        &&& !final(state).af_following
                        &&& final(state).af_count == old(ctl).rds@.af.len()
                        &&& final(state).dirty == (old(state).dirty || old(state).af_following || old(
                            state,
                        ).af_count != final(state).af_count)
                    }
                    &&& r != ProbeAction::Done ==> *final(state) == *old(state)
                    &&& *final(ctl) == (RadioControl {
                        rds: final(ctl).rds,
                        wall_clock: final(ctl).wall_clock,
                        ..*old(ctl)
                    })
                    &&& match (old(self).state.phase, event) {
                        (ProbePhase::Committing(_), ProbeEvent::Tuned(true)) => {
                            &&& final(ctl).rds@ == rds::blank()
                            &&& final(ctl).wall_clock is None
                        },
                        (ProbePhase::Verifying(_, _), ProbeEvent::Group(Some(g))) => {
                            &&& final(ctl).rds@ == rds::processed(
                                old(ctl).rds@,
                                g.0,
                                g.1,
                                g.2,
                                g.3,
                            )
                            &&& final(ctl).wall_clock == old(ctl).wall_clock
                        },
                        (ProbePhase::Pausing(_, _), _) => {
                            &&& final(ctl).rds@ == (if r is Tune {
                                rds::blank()
                            } else {
                                old(ctl).rds@
                            })
                            &&& final(ctl).wall_clock == old(ctl).wall_clock
                        },
                        _ => *final(ctl) == *old(ctl),
                    }
                },
            },
    {
        match self.state.phase {
            ProbePhase::Original => {
                self.state.original_rssi = match event {
                    ProbeEvent::Rssi(Some(v)) => v,
                    _ => 0,
                };
                self.next_candidate(0)
            },
            ProbePhase::Tuning(i) => {
                let ok: bool = match event {
                    ProbeEvent::Tuned(ok) => ok,
                    _ => false,
                };
                if ok {
                    self.state.phase = ProbePhase::Settling(i);
                    ProbeAction::Wait(AF_SETTLE_MS)
                } else {
                    self.next_candidate(i + 1)
                }
            },
            ProbePhase::Settling(i) => {
                self.state.phase = ProbePhase::Measuring(i);
                ProbeAction::ReadRssi
            },
            ProbePhase::Measuring(i) => {
                let v: u8 = match event {
                    ProbeEvent::Rssi(Some(v)) => v,
                    _ => 0,
                };
                if v > self.state.best_rssi {
                    self.state.best_rssi = v;
                    self.state.best_freq = Some(self.candidates[i]);
                    assert(self.candidates@[i as int] == self.state.best_freq->0);
                }
                self.next_candidate(i + 1)
            },
            ProbePhase::Committing(f) => {
                let ok: bool = match event {
                    ProbeEvent::Tuned(ok) => ok,
                    _ => false,
                };
                if ok {
                    ctl.rds.reset();
                    ctl.wall_clock = None;
                    let deadline: u64 = now_ms.saturating_add(AF_PI_VERIFY_MS);
                    self.look_again(f, deadline, now_ms)
                } else {
                    self.return_home()
                }
            },
            ProbePhase::Verifying(f, deadline) => {
                match event {
                    ProbeEvent::Group(Some(g)) => {
                        let _ = ctl.rds.process(g.0, g.1, g.2, g.3);
                        if g.0 == self.state.original_pi {
                            self.state.phase = ProbePhase::Over;
                            show_tuned(ctl, state, f, true, now_ms);
                            let known: usize = ctl.rds.alt_freqs().len();
                            publish_af_status(state, known as u8, false);
                            return ProbeAction::Done;
                        }
                    },
                    _ => {},
                }
                self.state.phase = ProbePhase::Pausing(f, deadline);
                ProbeAction::Wait(AF_PI_POLL_MS)
            },
            ProbePhase::Pausing(f, deadline) => {
                if now_ms >= deadline {
                    ctl.rds.reset();
                }
                self.look_again(f, deadline, now_ms)
            },
            ProbePhase::Returning => {
                self.state.phase = ProbePhase::Over;
                let known: usize = ctl.rds.alt_freqs().len();
                publish_af_status(state, known as u8, false);
                ProbeAction::Done
            },
            ProbePhase::Over => ProbeAction::Done,
        }
    }
}

/// A probe ends on the frequency where it began unless a group there has
/// carried the same programme identification: only then is a move confirmed,
/// and only to a candidate.
pub proof fn law_probe_moves_only_on_matching_pi(p: AfProbe, e: ProbeEvent)
    requires
        p.wf(),
        moved_to(p.state, e) is Some,
    ensures
        e is Group,
        e->Group_0 is Some,
        (e->Group_0->0).0 == p.state.original_pi,
        is_candidate(p.candidates@, moved_to(p.state, e)->0),
        moved_to(p.state, e)->0 != p.state.original_freq,
{
}

/// The chosen candidate is stronger than the tuned station by the margin, and
/// every tune of a probe goes to a candidate or back.
pub proof fn law_probe_tunes_candidates_or_home(p: AfProbe, e: ProbeEvent, now: u64)
    requires
        p.wf(),
        expects(p.state.phase, e),
        probe_next(p.state, p.candidates@, e, now).1 is Tune,
    ensures
        ({
            let (s, a) = probe_next(p.state, p.candidates@, e, now);
            &&& a->Tune_0 == s.original_freq || is_candidate(p.candidates@, a->Tune_0)
            &&& s.phase is Committing ==> s.best_rssi >= s.original_rssi + RSSI_IMPROVE_MARGIN
                || s.best_rssi == 255
            &&& s.phase is Returning ==> a->Tune_0 == p.state.original_freq
        }),
{
    let (s, a) = probe_next(p.state, p.candidates@, e, now);
    if let ProbePhase::Tuning(i) = s.phase {
        assert(p.candidates@[i as int] == a->Tune_0);
    }
    if let ProbePhase::Measuring(i) = p.state.phase {
        assert(p.candidates@[i as int] == p.candidates@[i as int]);
        assert(is_candidate(p.candidates@, p.candidates@[i as int]));
    }
}

/// What is left to do at most: greater in earlier phases, and in the two
/// between which it looks for the programme identification the same.
pub open spec fn work_left(p: ProbePhase, candidates: nat) -> int {
    match p {
        ProbePhase::Original => (3 * candidates + 4) as int,
        ProbePhase::Tuning(i) => 3 * (candidates - i) + 3,
        ProbePhase::Settling(i) => 3 * (candidates - i) + 2,
        ProbePhase::Measuring(i) => 3 * (candidates - i) + 1,
        ProbePhase::Committing(_) => 3,
        ProbePhase::Verifying(_, _) => 2,
        ProbePhase::Pausing(_, _) => 2,
        ProbePhase::Returning => 1,
        ProbePhase::Over => 0,
    }
}

/// The time until which a probe looks for the programme identification.
pub open spec fn deadline_of(p: ProbePhase) -> Option<u64> {
    match p {
        ProbePhase::Verifying(_, d) => Some(d),
        ProbePhase::Pausing(_, d) => Some(d),
        _ => None,
    }
}

/// A probe ends: every event brings it closer to its end, except that it may
/// look for the programme identification again and again, until a deadline that
/// no further look puts off. Between two looks it always waits.
pub proof fn law_probe_ends(p: AfProbe, e: ProbeEvent, now: u64)
    requires
        p.wf(),
        expects(p.state.phase, e),
    ensures
        ({
            let (s, a) = probe_next(p.state, p.candidates@, e, now);
            let n = p.candidates@.len();
            let looking = deadline_of(p.state.phase) is Some && deadline_of(s.phase) is Some;
            &&& n <= AF_PROBE_LIMIT
            &&& 0 <= work_left(s.phase, n)
            &&& !looking ==> work_left(s.phase, n) < work_left(p.state.phase, n)
            &&& looking ==> deadline_of(s.phase) == deadline_of(p.state.phase)
            &&& looking && a == ProbeAction::ReadGroup ==> now < deadline_of(p.state.phase)->0
            &&& looking && a != ProbeAction::ReadGroup ==> a == ProbeAction::Wait(AF_PI_POLL_MS)
            &&& p.state.phase is Committing && s.phase is Verifying ==> deadline_of(s.phase) == Some(
                deadline_from(now),
            )
            &&& work_left(s.phase, n) == 0 <==> a == ProbeAction::Done
        }),
{
}

/// What came of a probe so far, as the tuner sees it.
pub struct ProbeLog {
    pub state: ProbeState,
    /// What the probe asked for last.
    pub last: ProbeAction,
    /// The frequency that the tuner was sent to last.
    pub tuned: u16,
    /// Every frequency that it was sent to.
    pub tunes: Seq<u16>,
    /// Those of them that it reached.
    pub reached: Seq<u16>,
    /// Strength of the station from which the probe started.
    pub original: int,
    /// Every frequency on which the strength was read since, with the strength.
    pub readings: Seq<(u16, int)>,
}

/// The strength that was read; a failed read counts as none.
pub open spec fn strength(e: ProbeEvent) -> int {
    match e {
        ProbeEvent::Rssi(Some(v)) => v as int,
        _ => 0,
    }
}

/// The probe of the candidates `c` from state `s` after the given events and
/// times.
pub open spec fn probed(s: ProbeState, c: Seq<u16>, ev: Seq<(ProbeEvent, u64)>) -> ProbeLog
    decreases ev.len(),
{
    if ev.len() == 0 {
        ProbeLog {
            state: s,
            last: ProbeAction::ReadRssi,
            tuned: s.original_freq,
            tunes: Seq::empty(),
            reached: Seq::empty(),
            original: 0,
            readings: Seq::empty(),
        }
    } else {
        let l = probed(s, c, ev.drop_last());
        let (e, now) = ev.last();
        let (t, a) = probe_next(l.state, c, e, now);
        ProbeLog {
            state: t,
            last: a,
            tuned: match a {
                ProbeAction::Tune(f) => f,
                _ => l.tuned,
            },
            tunes: match a {
                ProbeAction::Tune(f) => l.tunes.push(f),
                _ => l.tunes,
            },
            reached: match e {
                ProbeEvent::Tuned(true) => l.reached.push(l.tuned),
                _ => l.reached,
            },
            original: if ev.len() == 1 {
                strength(e)
            } else {
                l.original
            },
            readings: if e is Rssi && ev.len() > 1 {
                l.readings.push((l.tuned, strength(e)))
            } else {
                l.readings
            },
        }
    }
}

/// Whether each event answers what the probe had asked for.
pub open spec fn answers(s: ProbeState, c: Seq<u16>, ev: Seq<(ProbeEvent, u64)>) -> bool
    decreases ev.len(),
{
    ev.len() > 0 ==> {
        &&& answers(s, c, ev.drop_last())
        &&& match probed(s, c, ev.drop_last()).last {
            ProbeAction::ReadRssi => ev.last().0 is Rssi,
            ProbeAction::Tune(_) => ev.last().0 is Tuned,
            ProbeAction::Wait(_) => ev.last().0 is Waited,
            ProbeAction::ReadGroup => ev.last().0 is Group,
            ProbeAction::Done => false,
        }
    }
}

/// Whether reading `k` is the first of the strongest ones.
pub open spec fn is_strongest(readings: Seq<(u16, int)>, k: int) -> bool {
    &&& 0 <= k < readings.len()
    &&& forall|j: int| 0 <= j < readings.len() ==> (#[trigger] readings[j]).1 <= readings[k].1
    &&& forall|j: int| 0 <= j < k ==> (#[trigger] readings[j]).1 < readings[k].1
}

/// The strength from which on a candidate is taken.
pub open spec fn worth_moving(original: int) -> int {
    if original + 6 > 255 {
        255
    } else {
        original + 6
    }
}

/// The strongest so far is known, and is none only where nothing was received.
spec fn knows_strongest(l: ProbeLog) -> bool {
    match l.state.best_freq {
        Some(f) => exists|k: int|
            #[trigger] is_strongest(l.readings, k) && l.readings[k] == (f, l.state.best_rssi as int)
                && l.state.best_rssi > 0,
        None => l.state.best_rssi == 0 && forall|j: int|
            0 <= j < l.readings.len() ==> (#[trigger] l.readings[j]).1 == 0,
    }
}

spec fn each_was_measured(l: ProbeLog) -> bool {
    l.readings.len() == l.reached.len() && forall|j: int|
        0 <= j < l.readings.len() ==> (#[trigger] l.readings[j]).0 == l.reached[j]
}

/// What holds of a probe at every time.
spec fn on_course(l: ProbeLog, s: ProbeState, c: Seq<u16>) -> bool {
    &&& l.state.original_freq == s.original_freq
    &&& l.state.original_pi == s.original_pi
    &&& match l.state.phase {
        ProbePhase::Original => false,
        ProbePhase::Tuning(i) => {
            &&& i < c.len()
            &&& l.last == ProbeAction::Tune(c[i as int])
            &&& l.tuned == c[i as int]
            &&& l.tunes == c.take(i + 1)
            &&& knows_strongest(l)
            &&& each_was_measured(l)
            &&& l.state.original_rssi == l.original
        },
        ProbePhase::Settling(i) | ProbePhase::Measuring(i) => {
            &&& i < c.len()
            &&& l.last == (if l.state.phase is Settling {
                ProbeAction::Wait(AF_SETTLE_MS)
            } else {
                ProbeAction::ReadRssi
            })
            &&& l.tuned == c[i as int]
            &&& l.tunes == c.take(i + 1)
            &&& knows_strongest(l)
            &&& l.reached.len() > 0
            &&& l.reached.last() == c[i as int]
            &&& l.readings.len() + 1 == l.reached.len()
            &&& forall|j: int|
                0 <= j < l.readings.len() ==> (#[trigger] l.readings[j]).0 == l.reached[j]
            &&& l.state.original_rssi == l.original
        },
        ProbePhase::Committing(f) => {
            &&& l.last == ProbeAction::Tune(f)
            &&& l.tunes == c.push(f)
            &&& chosen(l, f)
            &&& each_was_measured(l)
        },
        ProbePhase::Verifying(f, _) => {
            &&& l.last == ProbeAction::ReadGroup
            &&& l.tunes == c.push(f)
            &&& chosen(l, f)
        },
        ProbePhase::Pausing(f, _) => {
            &&& l.last == ProbeAction::Wait(AF_PI_POLL_MS)
            &&& l.tunes == c.push(f)
            &&& chosen(l, f)
        },
        ProbePhase::Returning => {
            &&& l.last == ProbeAction::Tune(s.original_freq)
            &&& back_home(l, s, c)
            &&& l.tunes.len() == c.len() + 1 ==> each_was_measured(l)
        },
        ProbePhase::Over => {
            &&& l.last == ProbeAction::Done
            &&& back_home(l, s, c) || exists|f: u16| l.tunes == c.push(f) && #[trigger] chosen(l, f)
        },
    }
}

/// `f` was the strongest candidate, and worth the move.
pub open spec fn chosen(l: ProbeLog, f: u16) -> bool {
    exists|k: int|
        #[trigger] is_strongest(l.readings, k) && l.readings[k].0 == f && l.readings[k].1
            >= worth_moving(l.original)
}

/// The tuner was sent back, either because no candidate was worth the move or
/// from the strongest.
spec fn back_home(l: ProbeLog, s: ProbeState, c: Seq<u16>) -> bool {
    ||| {
        &&& l.tunes == c.push(s.original_freq)
        &&& forall|j: int|
            0 <= j < l.readings.len() ==> (#[trigger] l.readings[j]).1 < worth_moving(l.original)
    }
    ||| exists|f: u16| l.tunes == c.push(f).push(s.original_freq) && #[trigger] chosen(l, f)
}

proof fn lemma_decision(l: ProbeLog, s: ProbeState, c: Seq<u16>, t: ProbeState, a: ProbeAction)
    requires
        knows_strongest(l),
        l.state.original_rssi == l.original,
        (t, a) == decide(l.state),
    ensures
        match t.phase {
            ProbePhase::Committing(f) => a == ProbeAction::Tune(f) && chosen(l, f),
            ProbePhase::Returning => a == ProbeAction::Tune(l.state.original_freq) && forall|j: int|
                0 <= j < l.readings.len() ==> (#[trigger] l.readings[j]).1 < worth_moving(
                    l.original,
                ),
            _ => false,
        },
{
    if let Some(f) = l.state.best_freq {
        let k = choose|k: int|
            #[trigger] is_strongest(l.readings, k) && l.readings[k] == (
                f,
                l.state.best_rssi as int,
            ) && l.state.best_rssi > 0;
        assert(is_strongest(l.readings, k));
    }
}

proof fn lemma_reading(l: ProbeLog, f: u16, v: u8, m: ProbeLog)
    requires
        knows_strongest(l),
        m.readings == l.readings.push((f, v as int)),
        v > l.state.best_rssi ==> m.state.best_freq == Some(f) && m.state.best_rssi == v,
        v <= l.state.best_rssi ==> m.state.best_freq == l.state.best_freq && m.state.best_rssi
            == l.state.best_rssi,
    ensures
        knows_strongest(m),
{
    if v > l.state.best_rssi {
        let k = l.readings.len() as int;
        if let Some(g) = l.state.best_freq {
            let b = choose|b: int|
                #[trigger] is_strongest(l.readings, b) && l.readings[b] == (
                    g,
                    l.state.best_rssi as int,
                ) && l.state.best_rssi > 0;
            assert(is_strongest(l.readings, b));
        }
        assert(is_strongest(m.readings, k));
    } else if let Some(g) = l.state.best_freq {
        let b = choose|b: int|
            #[trigger] is_strongest(l.readings, b) && l.readings[b] == (
                g,
                l.state.best_rssi as int,
            ) && l.state.best_rssi > 0;
        assert(is_strongest(m.readings, b));
    }
}

/// The probe before its first event.
pub open spec fn at_start(s: ProbeState, c: Seq<u16>) -> bool {
    &&& s.phase == ProbePhase::Original
    &&& s.best_freq is None
    &&& s.best_rssi == 0
    &&& 0 < c.len() <= AF_PROBE_LIMIT
}

proof fn lemma_sweep_goes_on(l: ProbeLog, m: ProbeLog, s: ProbeState, c: Seq<u16>, i: int)
    requires
        0 <= i <= c.len() <= AF_PROBE_LIMIT,
        m.tunes == (match m.last {
            ProbeAction::Tune(f) => l.tunes.push(f),
            _ => l.tunes,
        }),
        m.tuned == (match m.last {
            ProbeAction::Tune(f) => f,
            _ => l.tuned,
        }),
        l.tunes == c.take(i),
        exists|t: ProbeState|
            #![trigger candidate(t, c, i)]
            candidate(t, c, i) == (m.state, m.last) && t.original_freq == s.original_freq
                && t.original_pi == s.original_pi && t.original_rssi == m.original && knows_strongest(
                ProbeLog { state: t, ..m },
            ),
        each_was_measured(m),
    ensures
        on_course(m, s, c),
{
    let t = choose|t: ProbeState|
        #![trigger candidate(t, c, i)]
        candidate(t, c, i) == (m.state, m.last) && t.original_freq == s.original_freq
            && t.original_pi == s.original_pi && t.original_rssi == m.original && knows_strongest(
            ProbeLog { state: t, ..m },
        );
    if i < c.len() {
        assert(c.take(i).push(c[i]) =~= c.take(i + 1));
        lemma_same_strongest(ProbeLog { state: t, ..m }, m);
    } else {
        assert(c.take(i) =~= c);
        lemma_decision(ProbeLog { state: t, ..m }, s, c, m.state, m.last);
        if let ProbePhase::Committing(f) = m.state.phase {
            assert(chosen(ProbeLog { state: t, ..m }, f));
            let k = choose|k: int|
                #[trigger] is_strongest(m.readings, k) && m.readings[k].0 == f && m.readings[k].1
                    >= worth_moving(m.original);
            assert(is_strongest(m.readings, k));
        }
    }
}

proof fn lemma_same_choice(l: ProbeLog, m: ProbeLog, f: u16)
    requires
        chosen(l, f),
        m.readings == l.readings,
        m.original == l.original,
    ensures
        chosen(m, f),
{
    let k = choose|k: int|
        #[trigger] is_strongest(l.readings, k) && l.readings[k].0 == f && l.readings[k].1
            >= worth_moving(l.original);
    assert(is_strongest(m.readings, k));
}

proof fn lemma_on_course(s: ProbeState, c: Seq<u16>, ev: Seq<(ProbeEvent, u64)>)
    requires
        at_start(s, c),
        answers(s, c, ev),
        ev.len() > 0,
    ensures
        on_course(probed(s, c, ev), s, c),
    decreases ev.len(),
{
    let l = probed(s, c, ev.drop_last());
    let m = probed(s, c, ev);
    let (e, now) = ev.last();
    if ev.len() == 1 {
        assert(l == probed(s, c, Seq::empty())) by {
            assert(ev.drop_last() =~= Seq::empty());
        }
        assert(l.tunes =~= c.take(0));
        let t = ProbeState { original_rssi: strength(e) as u8, ..s };
        assert(candidate(t, c, 0) == (m.state, m.last));
        lemma_sweep_goes_on(l, m, s, c, 0);
    } else {
        lemma_on_course(s, c, ev.drop_last());
        match l.state.phase {
            ProbePhase::Tuning(i) => {
                if e != ProbeEvent::Tuned(true) {
                    assert(candidate(l.state, c, i + 1) == (m.state, m.last));
                    lemma_same_strongest(l, ProbeLog { state: l.state, ..m });
                    lemma_sweep_goes_on(l, m, s, c, i + 1);
                } else {
                    lemma_same_strongest(l, m);
                }
            },
            ProbePhase::Settling(i) => {
                lemma_same_strongest(l, m);
            },
            ProbePhase::Measuring(i) => {
                let v = strength(e) as u8;
                let t = if v > l.state.best_rssi {
                    ProbeState { best_rssi: v, best_freq: Some(c[i as int]), ..l.state }
                } else {
                    l.state
                };
                assert(candidate(t, c, i + 1) == (m.state, m.last));
                lemma_reading(l, c[i as int], v, ProbeLog { state: t, ..m });
                lemma_sweep_goes_on(l, m, s, c, i + 1);
            },
            ProbePhase::Committing(f) | ProbePhase::Verifying(f, _) | ProbePhase::Pausing(f, _) => {
                lemma_same_choice(l, m, f);
            },
            ProbePhase::Returning => {
                if !(l.tunes == c.push(s.original_freq) && forall|j: int|
                    0 <= j < l.readings.len() ==> (#[trigger] l.readings[j]).1 < worth_moving(
                        l.original,
                    )) {
                    let f = choose|f: u16|
                        l.tunes == c.push(f).push(s.original_freq) && #[trigger] chosen(l, f);
                    lemma_same_choice(l, m, f);
                }
            },
            _ => {},
        }
    }
}

proof fn lemma_same_strongest(l: ProbeLog, m: ProbeLog)
    requires
        knows_strongest(l),
        m.readings == l.readings,
        m.state.best_freq == l.state.best_freq,
        m.state.best_rssi == l.state.best_rssi,
    ensures
        knows_strongest(m),
{
    if let Some(f) = l.state.best_freq {
        let k = choose|k: int|
            #[trigger] is_strongest(l.readings, k) && l.readings[k] == (
                f,
                l.state.best_rssi as int,
            ) && l.state.best_rssi > 0;
        assert(is_strongest(m.readings, k));
    }
}

/// A probe decides for the strongest. It sends the tuner to every candidate in
/// turn and reads the strength on each one that was reached. Then it goes to
/// the one with the highest reading of all, to the first of equals, if that is
/// above the station from which it started by the margin; else it goes back to
/// that station.
pub proof fn law_probe_decides_for_the_strongest(
    s: ProbeState,
    c: Seq<u16>,
    ev: Seq<(ProbeEvent, u64)>,
    k: int,
)
    requires
        at_start(s, c),
        answers(s, c, ev),
        probed(s, c, ev).tunes.len() == c.len() + 1,
        probed(s, c, ev).last is Tune,
    ensures
        ({
            let l = probed(s, c, ev);
            &&& l.tunes.take(c.len() as int) == c
            &&& l.readings.len() == l.reached.len()
            &&& forall|j: int|
                0 <= j < l.readings.len() ==> (#[trigger] l.readings[j]).0 == l.reached[j]
            &&& is_strongest(l.readings, k) && l.readings[k].1 >= worth_moving(l.original)
                ==> l.last == ProbeAction::Tune(l.readings[k].0)
            &&& (forall|j: int|
                0 <= j < l.readings.len() ==> (#[trigger] l.readings[j]).1 < worth_moving(
                    l.original,
                )) ==> l.last == ProbeAction::Tune(s.original_freq)
        }),
{
    let l = probed(s, c, ev);
    if ev.len() > 0 {
        lemma_on_course(s, c, ev);
    }
    match l.state.phase {
        ProbePhase::Tuning(i) => {
            assert(l.tunes.len() == i + 1);
        },
        ProbePhase::Committing(f) => {
            assert(l.tunes.take(c.len() as int) =~= c);
            let b = choose|b: int|
                #[trigger] is_strongest(l.readings, b) && l.readings[b].0 == f && l.readings[b].1
                    >= worth_moving(l.original);
            assert(is_strongest(l.readings, b));
            assert(l.readings[b].1 >= worth_moving(l.original));
            if is_strongest(l.readings, k) {
                assert(l.readings[k].1 <= l.readings[b].1 && l.readings[b].1 <= l.readings[k].1);
                assert(k == b);
            }
        },
        ProbePhase::Returning => {
            assert(l.tunes.take(c.len() as int) =~= c);
            if exists|f: u16| l.tunes == c.push(f).push(s.original_freq) && #[trigger] chosen(l, f) {
                let f = choose|f: u16|
                    l.tunes == c.push(f).push(s.original_freq) && #[trigger] chosen(l, f);
                assert(c.push(f).push(s.original_freq).len() == c.len() + 2);
            }
        },
        _ => {},
    }
}

/// A probe ends on the strongest candidate if a group there has carried the
/// programme of the station from which it started, else back on that station;
/// it ends nowhere else.
pub proof fn law_probe_ends_on_the_strongest_or_home(
    s: ProbeState,
    c: Seq<u16>,
    ev: Seq<(ProbeEvent, u64)>,
)
    requires
        at_start(s, c),
        answers(s, c, ev),
        probed(s, c, ev).last == ProbeAction::Done,
    ensures
        ({
            let l = probed(s, c, ev);
            let moved = l.tunes.len() == c.len() + 1 && chosen(l, l.tunes.last());
            let same_programme = match ev.last().0 {
                ProbeEvent::Group(Some(g)) => g.0 == s.original_pi,
                _ => false,
            };
            if same_programme {
                moved && moved_to(probed(s, c, ev.drop_last()).state, ev.last().0) == Some(
                    l.tunes.last(),
                )
            } else {
                l.tunes.len() > c.len() && l.tunes.last() == s.original_freq
            }
        }),
{
    let l = probed(s, c, ev);
    if ev.len() > 0 {
        lemma_on_course(s, c, ev);
        let p = probed(s, c, ev.drop_last());
        if ev.len() > 1 {
            lemma_on_course(s, c, ev.drop_last());
        }
        match p.state.phase {
            ProbePhase::Verifying(f, _) => {
                lemma_same_choice(p, l, f);
            },
            ProbePhase::Returning => {
                if exists|f: u16|
                    p.tunes == c.push(f).push(s.original_freq) && #[trigger] chosen(p, f) {
                    let f = choose|f: u16|
                        p.tunes == c.push(f).push(s.original_freq) && #[trigger] chosen(p, f);
                    assert(p.tunes.last() == s.original_freq);
                }
            },
            _ => {},
        }
    }
}

/// The chosen candidate is given time to prove itself: a probe that has reached
/// it looks for a group of the right programme, waits 60 ms after every look
/// that found none, and looks again until 0.8 seconds have passed. Only then
/// does it go back. Every candidate had 120 ms to settle before it was measured.
pub proof fn law_candidate_has_time_to_prove_itself(
    s: ProbeState,
    c: Seq<u16>,
    f: u16,
    t0: u64,
    now: u64,
    e: ProbeEvent,
    i: usize,
)
    requires
        t0 + 800 <= u64::MAX,
    ensures
        ({
            let at = |p: ProbePhase| ProbeState { phase: p, ..s };
            let end = (t0 + 800) as u64;
            let (reached, first) = probe_next(
                at(ProbePhase::Committing(f)),
                c,
                ProbeEvent::Tuned(true),
                t0,
            );
            let (settling, wait) = probe_next(
                at(ProbePhase::Tuning(i)),
                c,
                ProbeEvent::Tuned(true),
                now,
            );
            &&& first == ProbeAction::ReadGroup
            &&& reached == at(ProbePhase::Verifying(f, end))
            &&& e is Group && !(e->Group_0 is Some && (e->Group_0->0).0 == s.original_pi)
                ==> probe_next(at(ProbePhase::Verifying(f, end)), c, e, now) == (
                at(ProbePhase::Pausing(f, end)),
                ProbeAction::Wait(60),
            )
            &&& probe_next(at(ProbePhase::Pausing(f, end)), c, ProbeEvent::Waited, now) == (if now
                < t0 + 800 {
                (at(ProbePhase::Verifying(f, end)), ProbeAction::ReadGroup)
            } else {
                (at(ProbePhase::Returning), ProbeAction::Tune(s.original_freq))
            })
            &&& wait == ProbeAction::Wait(120)
            &&& probe_next(settling, c, ProbeEvent::Waited, now).1 == ProbeAction::ReadRssi
        }),
{
}

/// The candidates are the alternatives other than the tuned frequency, in their
/// order: none is left out before the limit is reached, and nothing else is
/// among them.
pub proof fn law_candidates_are_the_first_alternatives(af: Seq<u16>, original: u16, n: int)
    requires
        0 <= n <= af.len(),
    ensures
        ({
            let c = candidates_of(af, original, n);
            &&& c.len() <= 8
            &&& forall|i: int| 0 <= i < c.len() ==> #[trigger] c[i] != original
            &&& forall|i: int| 0 <= i < c.len() ==> af.take(n).contains(#[trigger] c[i])
            &&& c.len() < 8 ==> forall|k: int|
                0 <= k < n && #[trigger] af[k] != original ==> c.contains(af[k])
            &&& forall|m: int|
                0 <= m <= n ==> (#[trigger] candidates_of(af, original, m)).is_prefix_of(c)
        }),
    decreases n,
{
    let c = candidates_of(af, original, n);
    if n > 0 {
        law_candidates_are_the_first_alternatives(af, original, n - 1);
        let d = candidates_of(af, original, n - 1);
        assert forall|i: int| 0 <= i < c.len() implies af.take(n).contains(#[trigger] c[i]) by {
            if i < d.len() {
                assert(af.take(n - 1).contains(d[i]));
                let t = af.take(n - 1);
                let k = choose|k: int| 0 <= k < t.len() && t[k] == d[i];
                assert(af.take(n)[k] == c[i]);
            } else {
                assert(af.take(n)[n - 1] == c[i]);
            }
        }
        if c.len() < 8 {
            assert forall|k: int| 0 <= k < n && #[trigger] af[k] != original implies c.contains(
                af[k],
            ) by {
                if k < n - 1 {
                    assert(d.contains(af[k]));
                    let i = choose|i: int| 0 <= i < d.len() && d[i] == af[k];
                    assert(c[i] == af[k]);
                } else {
                    assert(c[c.len() - 1] == af[k]);
                }
            }
        }
        assert forall|m: int| 0 <= m <= n implies (#[trigger] candidates_of(
            af,
            original,
            m,
        )).is_prefix_of(c) by {
            if m < n {
                let e = candidates_of(af, original, m);
                assert(e.is_prefix_of(d));
                assert(e =~= c.subrange(0, e.len() as int));
            } else {
                assert(c =~= c.subrange(0, c.len() as int));
            }
        }
    } else {
        assert(c =~= c.subrange(0, 0));
    }
}

/// While the candidates are measured, the probe knows the strongest so far: the
/// strength it remembers is the highest of all readings, the frequency it
/// remembers one on which that was read, and it remembers none only where
/// nothing was received at all.
pub proof fn law_probe_knows_the_strongest_so_far(
    s: ProbeState,
    c: Seq<u16>,
    ev: Seq<(ProbeEvent, u64)>,
    j: int,
)
    requires
        at_start(s, c),
        answers(s, c, ev),
        ev.len() > 0,
        ({
            let p = probed(s, c, ev).state.phase;
            p is Tuning || p is Settling || p is Measuring
        }),
        0 <= j < probed(s, c, ev).readings.len(),
    ensures
        ({
            let l = probed(s, c, ev);
            &&& l.readings[j].1 <= l.state.best_rssi
            &&& l.state.best_freq is Some ==> exists|k: int|
                0 <= k < l.readings.len() && #[trigger] l.readings[k] == (
                    l.state.best_freq->0,
                    l.state.best_rssi as int,
                )
            &&& l.state.best_freq is None ==> l.state.best_rssi == 0
            &&& l.state.original_rssi == l.original
        }),
{
    lemma_on_course(s, c, ev);
    let l = probed(s, c, ev);
    if let Some(f) = l.state.best_freq {
        let k = choose|k: int|
            #[trigger] is_strongest(l.readings, k) && l.readings[k] == (
                f,
                l.state.best_rssi as int,
            ) && l.state.best_rssi > 0;
        assert(is_strongest(l.readings, k));
        assert(l.readings[k] == (f, l.state.best_rssi as int));
    }
}

} // verus!
