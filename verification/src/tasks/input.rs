//! From the rotary encoder to commands.
//!
//! Rotation is counted in detents of four counts, and a fast rotation tunes in
//! larger steps. The push button has three tiers: a short press goes to the
//! next preset, holding it saves one, holding it on toggles mute.

use vstd::prelude::*;

use crate::state::{RadioCommand, LONG_PRESS_MS, TUNE_STEP_X10, ULTRA_LONG_PRESS_MS};

verus! {

/// Counts of the encoder per detent.
pub const COUNTS_PER_DETENT: u64 = 4;

/// A pause this long ends an acceleration (milliseconds).
pub const ACCEL_IDLE_RESET_MS: u64 = 500;

/// How far the current press has escalated.
#[derive(Clone, Copy, Debug, PartialEq, Eq, Structural)]
pub enum PressStage {
    Idle,
    /// Pressed, nothing was sent yet.
    Holding,
    /// The preset was saved.
    SaveFired,
    /// Mute was toggled.
    MuteFired,
}

/// State of the button.
#[derive(Clone, Copy, Debug, PartialEq, Eq, Structural)]
pub struct Press {
    pub stage: PressStage,
    /// When the press began; `None` while the button is up.
    pub start: Option<u64>,
}

/// State of the rotation.
#[derive(Clone, Copy, Debug, PartialEq, Eq, Structural)]
pub struct Rotation {
    /// Counts that do not make up a detent yet.
    pub residual: u8,
    /// When the last detent was turned.
    pub last_motion_at: Option<u64>,
    /// Its direction, 0 before the first.
    pub last_motion_sign: i8,
}

/// Milliseconds from `then` to `now`.
pub open spec fn elapsed(then: u64, now: u64) -> u64 {
    if now > then {
        (now - then) as u64
    } else {
        0
    }
}

/// The nearest 16-bit number.
pub open spec fn saturated(x: int) -> i16 {
    if x > 32767 {
        32767
    } else if x < -32768 {
        -32768i16
    } else {
        x as i16
    }
}

/// How many steps a detent counts: the faster the rotation, the more. After a
/// pause or a change of direction it is one.
pub open spec fn multiplier(r: Rotation, steps: i16, now: u64) -> int {
    let sign = if steps > 0 {
        1i8
    } else {
        -1i8
    };
    match r.last_motion_at {
        None => 1,
        Some(then) => {
            let ms = elapsed(then, now) as int;
            let detents = if steps > 0 {
                steps as int
            } else {
                -steps
            };
            let per_detent = if ms / detents > 1 {
                ms / detents
            } else {
                1
            };
            if sign != r.last_motion_sign || ms > ACCEL_IDLE_RESET_MS {
                1
            } else if per_detent <= 40 {
                5
            } else if per_detent <= 100 {
                3
            } else if per_detent <= 250 {
                2
            } else {
                1
            }
        },
    }
}

/// Detents completed by `raw` more counts.
pub open spec fn detents(r: Rotation, raw: i32) -> i16 {
    saturated((r.residual + raw) / COUNTS_PER_DETENT as int)
}

/// The rotation after `raw` counts, and the tuning it asks for.
pub open spec fn rotated(r: Rotation, raw: i32, now: u64) -> (Rotation, Option<RadioCommand>) {
    let steps = detents(r, raw);
    let residual = ((r.residual + raw) % COUNTS_PER_DETENT as int) as u8;
    if raw == 0 {
        (r, None)
    } else if steps == 0 {
        (Rotation { residual, ..r }, None)
    } else {
        (
            Rotation {
                residual,
                last_motion_at: Some(now),
                last_motion_sign: if steps > 0 {
                    1i8
                } else {
                    -1i8
                },
            },
            Some(
                RadioCommand::TuneRelative(
                    saturated(saturated(steps * multiplier(r, steps, now)) * TUNE_STEP_X10),
                ),
            ),
        )
    }
}

/// The button after a look at it, and the command it asks for.
pub open spec fn pressed_next(p: Press, pressed: bool, now: u64) -> (Press, Option<RadioCommand>) {
    match (p.start, pressed) {
        (None, true) => (Press { stage: PressStage::Holding, start: Some(now) }, None),
        (Some(start), true) => if p.stage == PressStage::Holding && elapsed(start, now)
            >= LONG_PRESS_MS {
            (Press { stage: PressStage::SaveFired, ..p }, Some(RadioCommand::SavePreset))
        } else if p.stage == PressStage::SaveFired && elapsed(start, now) >= ULTRA_LONG_PRESS_MS {
            (Press { stage: PressStage::MuteFired, ..p }, Some(RadioCommand::ToggleMute))
        } else {
            (p, None)
        },
        (Some(_), false) => (
            Press { stage: PressStage::Idle, start: None },
            if p.stage == PressStage::Holding {
                Some(RadioCommand::CyclePreset)
            } else {
                None
            },
        ),
        (None, false) => (p, None),
    }
}

fn saturate(x: i64) -> (r: i16)
    ensures
        r == saturated(x as int),
{
    if x > 32767 {
        32767
    } else if x < -32768 {
        -32768
    } else {
        x as i16
    }
}

/// The input of the radio.
#[derive(Clone, Copy, Debug, PartialEq, Eq, Structural)]
pub struct InputState {
    pub rotation: Rotation,
    pub press: Press,
}

impl InputState {
    /// Fewer counts than a detent are left over.
    pub open spec fn wf(self) -> bool {
        self.rotation.residual < COUNTS_PER_DETENT
    }

    pub fn new() -> (r: InputState)
        ensures
            r.wf(),
            r == (InputState {
                rotation: Rotation { residual: 0, last_motion_at: None, last_motion_sign: 0 },
                press: Press { stage: PressStage::Idle, start: None },
            }),
    {
        InputState {
            rotation: Rotation { residual: 0, last_motion_at: None, last_motion_sign: 0 },
            press: Press { stage: PressStage::Idle, start: None },
        }
    }

    fn step_multiplier(&self, steps: i16, now_ms: u64) -> (r: i64)
        requires
            steps != 0,
        ensures
            r == multiplier(self.rotation, steps, now_ms),
            1 <= r <= 5,
    {
        let sign: i8 = if steps > 0 {
            1
        } else {
            -1
        };
        match self.rotation.last_motion_at {
            None => 1,
            Some(then) => {
                let ms: u64 = now_ms.saturating_sub(then);
                if sign != self.rotation.last_motion_sign || ms > ACCEL_IDLE_RESET_MS {
                    return 1;
                }
                let detents: u64 = if steps > 0 {
                    steps as u64
                } else {
                    (-(steps as i64)) as u64
                };
                let per_detent: u64 = ms / detents;
                if per_detent <= 40 {
                    5
                } else if per_detent <= 100 {
                    3
                } else if per_detent <= 250 {
                    2
                } else {
                    1
                }
            },
        }
    }

    /// Takes the counts since the last look at the encoder.
    pub fn on_rotation(&mut self, raw: i32, now_ms: u64) -> (r: Option<RadioCommand>)
        requires
            old(self).wf(),
        ensures
            final(self).wf(),
            final(self).press == old(self).press,
            (final(self).rotation, r) == rotated(old(self).rotation, raw, now_ms),
    {
        if raw == 0 {
            return None;
        }
        // Shifted by a multiple of the detent size, so that it is positive.
        let total: u64 = (self.rotation.residual as i64 + raw as i64 + 0x2_0000_0000) as u64;
        let steps: i16 = saturate((total / COUNTS_PER_DETENT) as i64 - 0x8000_0000);
        let residual: u8 = (total % COUNTS_PER_DETENT) as u8;
        proof {
            let t = old(self).rotation.residual + raw;
            assert((t + 0x2_0000_0000) / 4 - 0x8000_0000 == t / 4);
            assert((t + 0x2_0000_0000) % 4 == t % 4);
        }
        if steps == 0 {
            self.rotation.residual = residual;
            return None;
        }
        let m: i64 = self.step_multiplier(steps, now_ms);
        assert(-32768 * 5 <= steps * m <= 32767 * 5) by (nonlinear_arith)
            requires
                -32768 <= steps <= 32767,
                1 <= m <= 5,
        ;
        let scaled: i16 = saturate(steps as i64 * m);
        assert(scaled * TUNE_STEP_X10 == scaled) by {
            assert(TUNE_STEP_X10 == 1);
        }
        let payload: i16 = saturate(scaled as i64 * TUNE_STEP_X10 as i64);
        self.rotation = Rotation {
            residual,
            last_motion_at: Some(now_ms),
            last_motion_sign: if steps > 0 {
                1
            } else {
                -1
            },
        };
        Some(RadioCommand::TuneRelative(payload))
    }

    /// Takes a look at the button.
    pub fn on_button(&mut self, pressed: bool, now_ms: u64) -> (r: Option<RadioCommand>)
        ensures
            final(self).rotation == old(self).rotation,
            (final(self).press, r) == pressed_next(old(self).press, pressed, now_ms),
    {
        match (self.press.start, pressed) {
            (None, true) => {
                self.press = Press { stage: PressStage::Holding, start: Some(now_ms) };
                None
            },
            (Some(start), true) => {
                let held: u64 = now_ms.saturating_sub(start);
                if self.press.stage == PressStage::Holding && held >= LONG_PRESS_MS {
                    self.press.stage = PressStage::SaveFired;
                    Some(RadioCommand::SavePreset)
                } else if self.press.stage == PressStage::SaveFired && held >= ULTRA_LONG_PRESS_MS {
                    self.press.stage = PressStage::MuteFired;
                    Some(RadioCommand::ToggleMute)
                } else {
                    None
                }
            },
            (Some(_), false) => {
                let short: bool = self.press.stage == PressStage::Holding;
                self.press = Press { stage: PressStage::Idle, start: None };
                if short {
                    Some(RadioCommand::CyclePreset)
                } else {
                    None
                }
            },
            (None, false) => None,
        }
    }
}

/// No count is lost: detents and what is left over make up all counts, as long
/// as the detents fit their type.
pub proof fn law_no_count_is_lost(r: Rotation, raw: i32)
    requires
        r.residual < 4,
        -32768 <= (r.residual + raw) / 4 <= 32767,
    ensures
        4 * detents(r, raw) + (r.residual + raw) % 4 == r.residual + raw,
        0 <= (r.residual + raw) % 4 < 4,
{
}

/// The button after looks at the given times during which it stayed down, and
/// the commands sent meanwhile.
pub open spec fn held(p: Press, times: Seq<u64>) -> (Press, Seq<RadioCommand>)
    decreases times.len(),
{
    if times.len() == 0 {
        (p, Seq::empty())
    } else {
        let (q, sent) = held(p, times.drop_last());
        let (n, c) = pressed_next(q, true, times.last());
        (
            n,
            match c {
                Some(c) => sent.push(c),
                None => sent,
            },
        )
    }
}

/// However long and often a held button is looked at, it saves at most one
/// preset, and after that toggles mute at most once; nothing else is sent
/// before it is released.
pub proof fn law_press_fires_each_tier_once(p: Press, times: Seq<u64>)
    requires
        p == (Press { stage: PressStage::Idle, start: None }),
    ensures
        ({
            let (q, sent) = held(p, times);
            &&& sent == Seq::<RadioCommand>::empty() || sent == seq![RadioCommand::SavePreset]
                || sent == seq![RadioCommand::SavePreset, RadioCommand::ToggleMute]
            &&& q.stage == PressStage::Holding || q.stage == PressStage::Idle <==> sent.len() == 0
            &&& q.stage == PressStage::SaveFired <==> sent.len() == 1
            &&& q.stage == PressStage::MuteFired <==> sent.len() == 2
            &&& times.len() > 0 ==> q.start == Some(times[0])
            &&& times.len() == 0 ==> q == p
        }),
    decreases times.len(),
{
    if times.len() > 0 {
        law_press_fires_each_tier_once(p, times.drop_last());
        let (q, sent) = held(p, times.drop_last());
        if times.len() > 1 {
            assert(times.drop_last()[0] == times[0]);
        }
        assert(seq![RadioCommand::SavePreset].push(RadioCommand::ToggleMute) =~= seq![
            RadioCommand::SavePreset,
            RadioCommand::ToggleMute,
        ]);
        assert(Seq::<RadioCommand>::empty().push(RadioCommand::SavePreset) =~= seq![
            RadioCommand::SavePreset,
        ]);
    }
}

/// The counts that a rotation leaves over are those that make up no detent:
/// with the detents they make up all counts, so that slow rotations are not
/// lost. A rotation within a detent tunes nothing and leaves the last motion as
/// it was.
pub proof fn law_counts_carry_over(r: Rotation, raw: i32, now: u64)
    requires
        r.residual < 4,
        -32768 * 4 <= r.residual + raw < 32768 * 4,
    ensures
        ({
            let (q, c) = rotated(r, raw, now);
            let t = r.residual + raw;
            &&& 0 <= q.residual < 4
            &&& raw == 0 ==> q == r && c is None
            &&& raw != 0 && 0 <= t < 4 ==> c is None && q.residual == t && q.last_motion_at
                == r.last_motion_at && q.last_motion_sign == r.last_motion_sign
            &&& raw != 0 && !(0 <= t < 4) ==> {
                &&& c is Some
                &&& q.last_motion_at == Some(now)
                &&& t < 0 ==> q.last_motion_sign == -1
                &&& t > 0 ==> q.last_motion_sign == 1
                &&& 4 * detents(r, raw) + q.residual == t
            }
        }),
{
}

/// The factor for a time per detent, as documented: up to 40 ms five, up to
/// 100 ms three, up to 250 ms two, above that one.
pub open spec fn factor_for(ms_per_detent: int) -> int {
    if ms_per_detent <= 40 {
        5
    } else if ms_per_detent <= 100 {
        3
    } else if ms_per_detent <= 250 {
        2
    } else {
        1
    }
}

/// Acceleration goes by the time per detent, in both directions alike. A motion
/// of `n` detents in the direction of the last, at most half a second after it,
/// tunes `n` times the documented factor; after a longer pause, a change of
/// direction or at first it tunes `n` single steps.
pub proof fn law_acceleration_follows_the_table(r: Rotation, raw: i32, now: u64, n: int, m: int)
    requires
        r.residual < 4,
        n != 0,
        -6553 <= n <= 6553,
        4 * n <= r.residual + raw < 4 * n + 4,
        raw != 0,
        r.last_motion_at is Some ==> r.last_motion_at->0 <= now,
        r.last_motion_at is Some && n > 0 ==> m * n <= now - r.last_motion_at->0 < (m + 1) * n,
        r.last_motion_at is Some && n < 0 ==> m * -n <= now - r.last_motion_at->0 < (m + 1) * -n,
    ensures
        ({
            let going_on = r.last_motion_at is Some && now - r.last_motion_at->0 <= 500
                && r.last_motion_sign == (if n > 0 {
                1
            } else {
                -1int
            });
            rotated(r, raw, now).1 == Some(
                RadioCommand::TuneRelative(
                    (if going_on {
                        n * factor_for(m)
                    } else {
                        n
                    }) as i16,
                ),
            )
        }),
{
    let steps = detents(r, raw);
    assert(steps == n);
    if r.last_motion_at is Some {
        let ms = now - r.last_motion_at->0;
        let d = if n > 0 {
            n
        } else {
            -n
        };
        assert(ms / d == m) by (nonlinear_arith)
            requires
                d > 0,
                m * d <= ms < (m + 1) * d,
        ;
        assert(elapsed(r.last_motion_at->0, now) == ms);
    }
    let k = multiplier(r, steps, now);
    assert(k == 1 || k == 2 || k == 3 || k == 5);
    assert(steps * k == n * k);
}

/// Turning the other way tunes the other way: counts that mirror one another,
/// after motions that do, ask for mirrored tuning.
pub proof fn law_rotation_is_symmetric(r: Rotation, raw: i32, q: Rotation, mirrored: i32, now: u64)
    requires
        r.residual < 4 && q.residual < 4,
        q.residual + mirrored == -(r.residual + raw),
        (r.residual + raw) % 4 == 0,
        raw != 0 && mirrored != 0,
        -26212 <= r.residual + raw <= 26212,
        q.last_motion_at == r.last_motion_at,
        q.last_motion_sign == -r.last_motion_sign,
    ensures
        match (rotated(r, raw, now).1, rotated(q, mirrored, now).1) {
            (Some(RadioCommand::TuneRelative(a)), Some(RadioCommand::TuneRelative(b))) => a == -b,
            (None, None) => true,
            _ => false,
        },
        rotated(q, mirrored, now).0.last_motion_sign == -rotated(r, raw, now).0.last_motion_sign,
{
    let a = detents(r, raw);
    let b = detents(q, mirrored);
    assert(a == -b);
    if a != 0 {
        let k = multiplier(r, a, now);
        assert(multiplier(q, b, now) == k);
        assert(k == 1 || k == 2 || k == 3 || k == 5);
        assert(a * k == -(b * k)) by (nonlinear_arith)
            requires
                a == -b,
        ;
    }
}

/// A press is told by its length. A button that went down at `t0` and is looked
/// at while it is down sends nothing before 0.8 seconds; at the first look from
/// then on it saves a preset; at the first later look from 2.5 seconds on it
/// toggles mute. Let go before the first of these it cycles the presets, and
/// later it sends nothing more.
pub proof fn law_press_is_told_by_its_length(t0: u64, stage: PressStage, now: u64)
    requires
        t0 <= now,
        stage != PressStage::Idle,
    ensures
        ({
            let p = Press { stage, start: Some(t0) };
            let (down, sent) = pressed_next(p, true, now);
            let (up, last) = pressed_next(p, false, now);
            let (first, none) = pressed_next(
                Press { stage: PressStage::Idle, start: None },
                true,
                t0,
            );
            &&& first == (Press { stage: PressStage::Holding, start: Some(t0) }) && none is None
            &&& down.start == Some(t0)
            &&& sent == Some(RadioCommand::SavePreset) <==> stage == PressStage::Holding && now - t0
                >= 800
            &&& sent == Some(RadioCommand::ToggleMute) <==> stage == PressStage::SaveFired && now
                - t0 >= 2500
            &&& sent is None <==> down == p
            &&& sent == Some(RadioCommand::SavePreset) ==> down.stage == PressStage::SaveFired
            &&& sent == Some(RadioCommand::ToggleMute) ==> down.stage == PressStage::MuteFired
            &&& up == (Press { stage: PressStage::Idle, start: None })
            &&& last == (if stage == PressStage::Holding {
                Some(RadioCommand::CyclePreset)
            } else {
                None
            })
        }),
{
}

} // verus!
