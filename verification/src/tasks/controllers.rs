//! Controllers that watch the signal strength, and the clock that runs between
//! two clock-time groups.

use vstd::prelude::*;

use crate::si4703::rds;
use crate::si4703::rds::RdsClockTime;

verus! {

// ---------------------------------------------------------------------------
// Wall clock
// ---------------------------------------------------------------------------

/// Local time, counted on from the last clock-time group.
#[derive(Clone, Copy, Debug, PartialEq, Eq, Structural)]
pub struct WallClock {
    /// Minutes since midnight, UTC, when the group arrived.
    pub anchor_utc_minutes: u32,
    pub local_offset_half_hours: i8,
    /// When the group arrived (milliseconds).
    pub anchor_ms: u64,
}

/// Whole minutes from `then` to `now`.
pub open spec fn minutes_between(then: u64, now: u64) -> int {
    if now > then {
        (now - then) / 60000
    } else {
        0
    }
}

impl WallClock {
    /// The anchor that a clock-time group sets.
    pub open spec fn anchored(ct: RdsClockTime, now: u64) -> WallClock {
        WallClock {
            anchor_utc_minutes: (ct.utc_hour * 60 + ct.utc_minute) as u32,
            local_offset_half_hours: ct.local_offset_half_hours,
            anchor_ms: now,
        }
    }

    /// Local hour and minute at `now`.
    pub open spec fn local_time(self, now: u64) -> (u8, u8) {
        rds::hh_mm(
            self.local_offset_half_hours * 30 + self.anchor_utc_minutes + minutes_between(
                self.anchor_ms,
                now,
            ),
        )
    }

    pub fn from_ct(ct: RdsClockTime, now_ms: u64) -> (r: WallClock)
        ensures
            r == WallClock::anchored(ct, now_ms),
    {
        WallClock {
            anchor_utc_minutes: ct.utc_hour as u32 * 60 + ct.utc_minute as u32,
            local_offset_half_hours: ct.local_offset_half_hours,
            anchor_ms: now_ms,
        }
    }

    /// Local hour and minute at `now_ms`.
    pub fn local_hh_mm(&self, now_ms: u64) -> (r: (u8, u8))
        ensures
            r == self.local_time(now_ms),
            r.0 < 24,
            r.1 < 60,
    {
        let minutes: u64 = now_ms.saturating_sub(self.anchor_ms) / 60000;
        // Days are added, so that a negative offset leaves the sum positive.
        let total: u128 = (self.local_offset_half_hours as i64 * 30 + 5760) as u128
            + self.anchor_utc_minutes as u128 + minutes as u128;
        let m: u32 = (total % 1440) as u32;
        proof {
            let t = self.local_offset_half_hours * 30 + self.anchor_utc_minutes + minutes;
            assert((t + 5760) % 1440 == t % 1440);
        }
        ((m / 60) as u8, (m % 60) as u8)
    }
}

/// Right after a clock-time group the clock shows what the group says.
pub proof fn law_clock_starts_at_group_time(ct: RdsClockTime, now: u64)
    ensures
        WallClock::anchored(ct, now).local_time(now) == rds::hh_mm(
            ct.utc_hour * 60 + ct.utc_minute + ct.local_offset_half_hours * 30,
        ),
{
}

/// Between two groups the clock counts on, minute by minute.
pub proof fn law_clock_counts_minutes(w: WallClock, minutes: u64, rest: u64)
    requires
        rest < 60000,
        w.anchor_ms + minutes * 60000 + rest <= u64::MAX,
    ensures
        w.local_time((w.anchor_ms + minutes * 60000 + rest) as u64) == rds::hh_mm(
            w.local_offset_half_hours * 30 + w.anchor_utc_minutes + minutes,
        ),
{
    assert((minutes * 60000 + rest) / 60000 == minutes);
}

// ---------------------------------------------------------------------------
// Automatic mono
// ---------------------------------------------------------------------------

/// At or below this signal strength mono is considered.
pub const RSSI_LOW: u8 = 25;

/// At or above this signal strength stereo is considered again.
pub const RSSI_HIGH: u8 = 35;

/// Observations in a row that it takes.
pub const DWELL_TICKS: u8 = 10;

/// Forces mono while the signal is weak.
#[derive(Clone, Copy, Debug, PartialEq, Eq, Structural)]
pub struct MonoController {
    pub engaged: bool,
    /// Observations in a row that speak for a change.
    pub dwell: u8,
}

/// Whether an observation speaks for a change.
pub open spec fn speaks_for_change(engaged: bool, rssi: u8) -> bool {
    if engaged {
        rssi >= RSSI_HIGH
    } else {
        rssi <= RSSI_LOW
    }
}

/// The controller after an observation.
pub open spec fn mono_next(m: MonoController, rssi: u8) -> MonoController {
    if !speaks_for_change(m.engaged, rssi) {
        MonoController { dwell: 0, ..m }
    } else if m.dwell + 1 >= DWELL_TICKS {
        MonoController { engaged: !m.engaged, dwell: 0 }
    } else {
        MonoController { dwell: (m.dwell + 1) as u8, ..m }
    }
}

impl MonoController {
    pub fn new() -> (r: MonoController)
        ensures
            r == (MonoController { engaged: false, dwell: 0 }),
    {
        MonoController { engaged: false, dwell: 0 }
    }

    /// Takes an observation. Returns the new setting when it changes.
    pub fn observe(&mut self, rssi: u8) -> (r: Option<bool>)
        ensures
            *final(self) == mono_next(*old(self), rssi),
            r == (if final(self).engaged != old(self).engaged {
                Some(final(self).engaged)
            } else {
                None
            }),
    {
        let wanted: bool = if self.engaged {
            rssi >= RSSI_HIGH
        } else {
            rssi <= RSSI_LOW
        };
        if !wanted {
            self.dwell = 0;
            return None;
        }
        self.dwell = self.dwell.saturating_add(1);
        if self.dwell >= DWELL_TICKS {
            self.engaged = !self.engaged;
            self.dwell = 0;
            return Some(self.engaged);
        }
        None
    }

    pub fn engaged(&self) -> (r: bool)
        ensures
            r == self.engaged,
    {
        self.engaged
    }
}

/// The controller after a history of observations.
pub open spec fn mono_after(history: Seq<u8>) -> MonoController
    decreases history.len(),
{
    if history.len() == 0 {
        MonoController { engaged: false, dwell: 0 }
    } else {
        mono_next(mono_after(history.drop_last()), history.last())
    }
}

proof fn lemma_mono_dwell(history: Seq<u8>)
    ensures
        mono_after(history).dwell < DWELL_TICKS,
        mono_after(history).dwell <= history.len(),
        forall|i: int|
            history.len() - mono_after(history).dwell <= i < history.len() ==> speaks_for_change(
                mono_after(history).engaged,
                #[trigger] history[i],
            ),
    decreases history.len(),
{
    if history.len() > 0 {
        let h = history.drop_last();
        lemma_mono_dwell(h);
        assert forall|i: int|
            history.len() - mono_after(history).dwell <= i < history.len() implies speaks_for_change(
            mono_after(history).engaged,
            #[trigger] history[i],
        ) by {
            if i < history.len() - 1 {
                assert(h[i] == history[i]);
            }
        }
    }
}

/// The setting changes only after the full number of observations in a row
/// that spoke for it; a signal between the two thresholds never changes it.
pub proof fn law_mono_changes_only_after_dwell(history: Seq<u8>, rssi: u8)
    requires
        mono_after(history.push(rssi)).engaged != mono_after(history).engaged,
    ensures
        history.len() + 1 >= DWELL_TICKS,
        forall|i: int|
            history.len() + 1 - DWELL_TICKS <= i <= history.len() ==> speaks_for_change(
                mono_after(history).engaged,
                #[trigger] history.push(rssi)[i],
            ),
{
    let h = history.push(rssi);
    assert(h.drop_last() =~= history);
    lemma_mono_dwell(history);
    assert forall|i: int| h.len() - DWELL_TICKS <= i < h.len() implies speaks_for_change(
        mono_after(history).engaged,
        #[trigger] h[i],
    ) by {
        if i < history.len() {
            assert(h[i] == history[i]);
        }
    }
}

// ---------------------------------------------------------------------------
// Following alternative frequencies
// ---------------------------------------------------------------------------

/// At or below this signal strength alternatives are considered.
pub const RSSI_WEAK: u8 = 18;

/// Weak observations in a row that it takes: five seconds.
pub const WEAK_DWELL_TICKS: u8 = 25;

/// Observations without a probe after each one: thirty seconds.
pub const COOLDOWN_TICKS: u16 = 150;

/// A candidate must be stronger by this much.
pub const RSSI_IMPROVE_MARGIN: u8 = 6;

/// Decides when alternative frequencies are probed.
#[derive(Clone, Copy, Debug, PartialEq, Eq, Structural)]
pub struct AfFollower {
    pub weak_dwell: u8,
    pub cooldown: u16,
}

/// The follower after an observation, and whether to probe.
pub open spec fn follower_next(f: AfFollower, rssi: u8, known: nat) -> (AfFollower, bool) {
    let dwell = if f.weak_dwell < 255 {
        (f.weak_dwell + 1) as u8
    } else {
        255u8
    };
    if f.cooldown > 0 {
        (AfFollower { weak_dwell: 0, cooldown: (f.cooldown - 1) as u16 }, false)
    } else if rssi > RSSI_WEAK {
        (AfFollower { weak_dwell: 0, ..f }, false)
    } else if dwell < WEAK_DWELL_TICKS || known == 0 {
        (AfFollower { weak_dwell: dwell, ..f }, false)
    } else {
        (AfFollower { weak_dwell: 0, cooldown: COOLDOWN_TICKS }, true)
    }
}

impl AfFollower {
    pub fn new() -> (r: AfFollower)
        ensures
            r == (AfFollower { weak_dwell: 0, cooldown: 0 }),
    {
        AfFollower { weak_dwell: 0, cooldown: 0 }
    }

    /// Takes an observation; `af_list_len` alternatives are known. Returns
    /// whether to probe them.
    pub fn observe(&mut self, rssi: u8, af_list_len: usize) -> (r: bool)
        ensures
            (*final(self), r) == follower_next(*old(self), rssi, af_list_len as nat),
    {
        if self.cooldown > 0 {
            self.cooldown = self.cooldown - 1;
            self.weak_dwell = 0;
            return false;
        }
        if rssi > RSSI_WEAK {
            self.weak_dwell = 0;
            return false;
        }
        self.weak_dwell = self.weak_dwell.saturating_add(1);
        if self.weak_dwell < WEAK_DWELL_TICKS || af_list_len == 0 {
            return false;
        }
        self.cooldown = COOLDOWN_TICKS;
        self.weak_dwell = 0;
        true
    }
}

/// The follower after a history of observations, each with the number of
/// alternatives known.
pub open spec fn follower_after(f: AfFollower, history: Seq<(u8, nat)>) -> AfFollower
    decreases history.len(),
{
    if history.len() == 0 {
        f
    } else {
        follower_next(
            follower_after(f, history.drop_last()),
            history.last().0,
            history.last().1,
        ).0
    }
}

/// A probe arms the cooldown, and as long as that lasts nothing is probed,
/// whatever the signal does.
pub proof fn law_no_probe_during_cooldown(f: AfFollower, history: Seq<(u8, nat)>, rssi: u8, known: nat)
    requires
        f.cooldown == COOLDOWN_TICKS,
        history.len() < COOLDOWN_TICKS,
    ensures
        follower_after(f, history).cooldown == COOLDOWN_TICKS - history.len(),
        !follower_next(follower_after(f, history), rssi, known).1,
    decreases history.len(),
{
    if history.len() > 0 {
        law_no_probe_during_cooldown(f, history.drop_last(), rssi, known);
    }
}

proof fn lemma_follower_dwell(history: Seq<(u8, nat)>)
    ensures
        ({
            let f = follower_after(AfFollower { weak_dwell: 0, cooldown: 0 }, history);
            &&& f.weak_dwell <= history.len()
            &&& forall|i: int|
                history.len() - f.weak_dwell <= i < history.len() ==> (#[trigger] history[i]).0
                    <= RSSI_WEAK
        }),
    decreases history.len(),
{
    if history.len() > 0 {
        let h = history.drop_last();
        lemma_follower_dwell(h);
        let f = follower_after(AfFollower { weak_dwell: 0, cooldown: 0 }, history);
        assert forall|i: int| history.len() - f.weak_dwell <= i < history.len() implies (
        #[trigger] history[i]).0 <= RSSI_WEAK by {
            if i < history.len() - 1 {
                assert(h[i] == history[i]);
            }
        }
    }
}

/// A probe is made only after the signal has been weak for the full time, and
/// only where alternatives are known.
pub proof fn law_probe_only_after_sustained_weakness(history: Seq<(u8, nat)>, rssi: u8, known: nat)
    requires
        follower_next(
            follower_after(AfFollower { weak_dwell: 0, cooldown: 0 }, history),
            rssi,
            known,
        ).1,
    ensures
        known > 0,
        rssi <= RSSI_WEAK,
        history.len() + 1 >= WEAK_DWELL_TICKS,
        forall|i: int|
            history.len() + 1 - WEAK_DWELL_TICKS <= i < history.len() ==> (#[trigger] history[i]).0
                <= RSSI_WEAK,
{
    lemma_follower_dwell(history);
}

proof fn lemma_signal_wins(history: Seq<u8>, weak: bool, n: int)
    requires
        0 <= n <= 10,
        n <= history.len(),
        forall|i: int|
            history.len() - n <= i < history.len() ==> (if weak {
                #[trigger] history[i] <= 25
            } else {
                history[i] >= 35
            }),
    ensures
        mono_after(history).engaged == weak || mono_after(history).dwell >= n,
        n == 10 ==> mono_after(history).engaged == weak,
    decreases n,
{
    lemma_mono_dwell(history);
    if n > 0 {
        let h = history.drop_last();
        assert forall|i: int| h.len() - (n - 1) <= i < h.len() implies (if weak {
            #[trigger] h[i] <= 25
        } else {
            h[i] >= 35
        }) by {
            assert(h[i] == history[i]);
        }
        lemma_signal_wins(h, weak, n - 1);
        lemma_mono_dwell(h);
        assert(history.last() == history[history.len() - 1]);
    }
}

/// The signal decides: whatever came before, ten readings in a row of 25 or
/// less leave the sound in mono, and ten in a row of 35 or more leave it in
/// stereo. A reading in between changes nothing.
pub proof fn law_ten_readings_in_a_row_decide(history: Seq<u8>, reading: u8)
    requires
        history.len() >= 10,
    ensures
        (forall|i: int| history.len() - 10 <= i < history.len() ==> #[trigger] history[i] <= 25)
            ==> mono_after(history).engaged,
        (forall|i: int| history.len() - 10 <= i < history.len() ==> #[trigger] history[i] >= 35)
            ==> !mono_after(history).engaged,
        25 < reading < 35 ==> mono_after(history.push(reading)).engaged == mono_after(
            history,
        ).engaged,
{
    if forall|i: int| history.len() - 10 <= i < history.len() ==> #[trigger] history[i] <= 25 {
        lemma_signal_wins(history, true, 10);
    }
    if forall|i: int| history.len() - 10 <= i < history.len() ==> #[trigger] history[i] >= 35 {
        lemma_signal_wins(history, false, 10);
    }
    assert(history.push(reading).drop_last() =~= history);
}

/// A weak station is probed: once 24 readings in a row were weak, the next weak
/// one asks for a probe if alternatives are known, and if none are, as soon as
/// some are. A strong reading starts the count again.
pub proof fn law_weak_station_is_probed(history: Seq<(u8, nat)>, rssi: u8, known: nat)
    requires
        history.len() >= 24,
        forall|i: int| 0 <= i < history.len() ==> (#[trigger] history[i]).0 <= 18,
        forall|i: int| 24 <= i < history.len() ==> (#[trigger] history[i]).1 == 0,
    ensures
        ({
            let f = follower_after(AfFollower { weak_dwell: 0, cooldown: 0 }, history);
            let (g, probe) = follower_next(f, rssi, known);
            &&& f.cooldown == 0
            &&& f.weak_dwell >= 24
            &&& probe <==> rssi <= 18 && known > 0
            &&& probe ==> g == (AfFollower { weak_dwell: 0, cooldown: 150 })
            &&& rssi > 18 ==> g == (AfFollower { weak_dwell: 0, cooldown: 0 })
        }),
    decreases history.len(),
{
    lemma_weak_count(history);
}

proof fn lemma_weak_count(history: Seq<(u8, nat)>)
    requires
        forall|i: int| 0 <= i < history.len() ==> (#[trigger] history[i]).0 <= 18,
        forall|i: int| 24 <= i < history.len() ==> (#[trigger] history[i]).1 == 0,
    ensures
        ({
            let f = follower_after(AfFollower { weak_dwell: 0, cooldown: 0 }, history);
            &&& f.cooldown == 0
            &&& f.weak_dwell == (if history.len() < 255 {
                history.len() as int
            } else {
                255
            })
        }),
    decreases history.len(),
{
    if history.len() > 0 {
        let h = history.drop_last();
        assert forall|i: int| 0 <= i < h.len() implies (#[trigger] h[i]).0 <= 18 by {
            assert(history[i].0 <= 18);
        }
        assert forall|i: int| 24 <= i < h.len() implies (#[trigger] h[i]).1 == 0 by {
            assert(history[i].1 == 0);
        }
        lemma_weak_count(h);
        let last = history[history.len() - 1];
        assert(last.0 <= 18);
        if history.len() > 24 {
            assert(last.1 == 0);
        }
    }
}

/// A cooldown ends: 150 readings after a probe the next one may be probed for
/// again, from a fresh count.
pub proof fn law_cooldown_ends(f: AfFollower, history: Seq<(u8, nat)>)
    requires
        f.cooldown == 150,
        history.len() == 150,
    ensures
        follower_after(f, history) == (AfFollower { weak_dwell: 0, cooldown: 0 }),
{
    let h = history.drop_last();
    law_no_probe_during_cooldown(f, h, 0, 0);
}

/// The clock shows local time: the group's time of day, the minutes since it
/// and the offset, together, round the clock.
pub proof fn law_clock_shows_local_time(ct: RdsClockTime, then: u64, now: u64)
    requires
        then <= now,
        ct.utc_hour < 24,
        ct.utc_minute < 60,
    ensures
        ({
            let (h, m) = WallClock::anchored(ct, then).local_time(now);
            let passed = ((now - then) / 60000) as int;
            &&& h < 24
            &&& m < 60
            &&& (h * 60 + m - (ct.utc_hour * 60 + ct.utc_minute + ct.local_offset_half_hours * 30
                + passed)) % 1440 == 0
        }),
{
    let passed = ((now - then) / 60000) as int;
    rds::law_local_time_goes_round_the_clock(
        ct.local_offset_half_hours * 30 + (ct.utc_hour * 60 + ct.utc_minute) + passed,
    );
}

} // verus!
