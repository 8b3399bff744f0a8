//! Rotary encoder on a pulse counter: its configuration, and a count that
//! goes on where the hardware counter starts anew.
//!
//! The hardware counter is 16 bits wide and goes back to zero at a high and a
//! low limit. The limit that was reached is added to an accumulator, so that
//! counter and accumulator together never jump.

use vstd::prelude::*;

verus! {

pub const DEFAULT_FILTER_THRESHOLD: u16 = 800;

pub const DEFAULT_HIGH_LIMIT: i16 = 100;

pub const DEFAULT_LOW_LIMIT: i16 = -100;

/// Greatest filter threshold that the hardware has.
pub const MAX_FILTER_THRESHOLD: u16 = 1023;

/// Configuration of the counter.
#[derive(Clone, Copy, Debug, PartialEq, Eq, Structural)]
pub struct EncoderConfig {
    /// Length of pulses that are filtered out, in clock cycles; 0 for none.
    pub filter_threshold: u16,
    /// Count at which the counter starts anew, positive.
    pub high_limit: i16,
    /// Count at which the counter starts anew, negative.
    pub low_limit: i16,
}

impl Default for EncoderConfig {
    fn default() -> (r: Self)
        ensures
            r.filter_threshold == DEFAULT_FILTER_THRESHOLD,
            r.high_limit == DEFAULT_HIGH_LIMIT,
            r.low_limit == DEFAULT_LOW_LIMIT,
    {
        EncoderConfig {
            filter_threshold: DEFAULT_FILTER_THRESHOLD,
            high_limit: DEFAULT_HIGH_LIMIT,
            low_limit: DEFAULT_LOW_LIMIT,
        }
    }
}

/// Direction of a turn.
#[derive(Clone, Copy, Debug, PartialEq, Eq, Structural)]
pub enum Direction {
    Clockwise,
    CounterClockwise,
    /// Not turned.
    Still,
}

/// What a user can do to the encoder.
#[derive(Clone, Copy, Debug, PartialEq, Eq)]
pub enum EncoderEvent {
    /// Turned, by so many steps.
    Rotate(Direction, i32),
    ButtonPress,
    ButtonRelease,
}

/// Why an encoder could not be set up.
#[derive(Clone, Copy, Debug, PartialEq, Eq, Structural)]
pub enum EncoderError {
    /// Above [`MAX_FILTER_THRESHOLD`], or refused by the hardware.
    InvalidFilterThreshold,
    /// Not positive, or refused by the hardware.
    InvalidHighLimit,
    /// Not negative, or refused by the hardware.
    InvalidLowLimit,
}

/// Which settings the hardware took.
#[derive(Clone, Copy, Debug, PartialEq, Eq, Structural)]
pub struct HardwareTook {
    pub low_limit: bool,
    pub high_limit: bool,
    pub filter: bool,
}

/// What is wrong with a configuration.
pub open spec fn config_error(config: EncoderConfig) -> Option<EncoderError> {
    if config.filter_threshold > MAX_FILTER_THRESHOLD {
        Some(EncoderError::InvalidFilterThreshold)
    } else if config.high_limit <= 0 {
        Some(EncoderError::InvalidHighLimit)
    } else if config.low_limit >= 0 {
        Some(EncoderError::InvalidLowLimit)
    } else {
        None
    }
}

/// What went wrong in the hardware. That a filter cannot be switched off does
/// not matter.
pub open spec fn hardware_error(config: EncoderConfig, took: HardwareTook) -> Option<EncoderError> {
    if !took.low_limit {
        Some(EncoderError::InvalidLowLimit)
    } else if !took.high_limit {
        Some(EncoderError::InvalidHighLimit)
    } else if config.filter_threshold > 0 && !took.filter {
        Some(EncoderError::InvalidFilterThreshold)
    } else {
        None
    }
}

/// The direction in which a count of `d` points.
pub open spec fn direction_of(d: int) -> Direction {
    if d > 0 {
        Direction::Clockwise
    } else if d < 0 {
        Direction::CounterClockwise
    } else {
        Direction::Still
    }
}

/// What the accumulator gains at an interrupt.
pub open spec fn gained(high: bool, low: bool, high_limit: i16, low_limit: i16) -> int {
    if high {
        high_limit as int
    } else if low {
        low_limit as int
    } else {
        0
    }
}

impl EncoderConfig {
    /// Checks a configuration, and gives the filter to set: `None` switches it
    /// off.
    pub fn validate(&self) -> (r: Result<Option<u16>, EncoderError>)
        ensures
            match r {
                Ok(filter) => config_error(*self) is None && filter == (if self.filter_threshold
                    > 0 {
                    Some(self.filter_threshold)
                } else {
                    None
                }),
                Err(e) => config_error(*self) == Some(e),
            },
    {
        if self.filter_threshold > MAX_FILTER_THRESHOLD {
            return Err(EncoderError::InvalidFilterThreshold);
        }
        if self.high_limit <= 0 {
            return Err(EncoderError::InvalidHighLimit);
        }
        if self.low_limit >= 0 {
            return Err(EncoderError::InvalidLowLimit);
        }
        if self.filter_threshold > 0 {
            Ok(Some(self.filter_threshold))
        } else {
            Ok(None)
        }
    }
}

/// The software side of an encoder.
#[derive(Clone, Copy, Debug, PartialEq, Eq, Structural)]
pub struct RotaryEncoder {
    /// Accumulator of the limits that were reached.
    pub overflow: i32,
    /// Count at the last reading.
    pub last_value: i32,
    pub config: EncoderConfig,
}

impl RotaryEncoder {
    /// The count with the hardware counter at `counter`.
    pub open spec fn count(self, counter: i16) -> int {
        self.overflow + counter
    }

    /// An encoder whose settings were handed to the hardware.
    pub fn new(config: EncoderConfig, took: HardwareTook) -> (r: Result<RotaryEncoder, EncoderError>)
        ensures
            match r {
                Ok(e) => config_error(config) is None && hardware_error(config, took) is None && e
                    == (RotaryEncoder { overflow: 0, last_value: 0, config }),
                Err(err) => match config_error(config) {
                    Some(x) => err == x,
                    None => hardware_error(config, took) == Some(err),
                },
            },
    {
        if let Err(e) = config.validate() {
            return Err(e);
        }
        if !took.low_limit {
            return Err(EncoderError::InvalidLowLimit);
        }
        if !took.high_limit {
            return Err(EncoderError::InvalidHighLimit);
        }
        if config.filter_threshold > 0 && !took.filter {
            return Err(EncoderError::InvalidFilterThreshold);
        }
        Ok(RotaryEncoder { overflow: 0, last_value: 0, config })
    }

    /// The count since the start or the last reset; clockwise is positive.
    pub fn value(&self, counter: i16) -> (r: i32)
        requires
            i32::MIN <= self.count(counter) <= i32::MAX,
        ensures
            r == self.count(counter),
    {
        counter as i32 + self.overflow
    }

    /// The count since the last call.
    pub fn delta(&mut self, counter: i16) -> (r: i32)
        requires
            i32::MIN <= old(self).count(counter) <= i32::MAX,
            i32::MIN <= old(self).count(counter) - old(self).last_value <= i32::MAX,
        ensures
            r == old(self).count(counter) - old(self).last_value,
            *final(self) == (RotaryEncoder {
                last_value: old(self).count(counter) as i32,
                ..*old(self)
            }),
    {
        let current: i32 = self.value(counter);
        let delta: i32 = current - self.last_value;
        self.last_value = current;
        delta
    }

    /// The direction of the turn since the last call.
    pub fn direction(&mut self, counter: i16) -> (r: Direction)
        requires
            i32::MIN <= old(self).count(counter) <= i32::MAX,
            i32::MIN <= old(self).count(counter) - old(self).last_value <= i32::MAX,
        ensures
            r == direction_of(old(self).count(counter) - old(self).last_value),
            *final(self) == (RotaryEncoder {
                last_value: old(self).count(counter) as i32,
                ..*old(self)
            }),
    {
        let d: i32 = self.delta(counter);
        if d > 0 {
            Direction::Clockwise
        } else if d < 0 {
            Direction::CounterClockwise
        } else {
            Direction::Still
        }
    }

    /// Starts the count at zero again, together with the hardware counter.
    pub fn reset(&mut self)
        ensures
            *final(self) == (RotaryEncoder { overflow: 0, last_value: 0, ..*old(self) }),
    {
        self.overflow = 0;
        self.last_value = 0;
    }

    /// Takes account of an interrupt of the counter, if one is `pending`, for
    /// the limits that it says were reached.
    pub fn handle_interrupt(&mut self, pending: bool, high: bool, low: bool)
        ensures
            *final(self) == (RotaryEncoder {
                overflow: after_interrupt(
                    old(self).overflow,
                    pending,
                    high,
                    low,
                    old(self).config.high_limit,
                    old(self).config.low_limit,
                ),
                ..*old(self)
            }),
    {
        self.overflow = handle_pcnt_overflow(
            self.overflow,
            pending,
            high,
            low,
            self.config.high_limit,
            self.config.low_limit,
        );
    }

    /// The configuration.
    pub fn config(&self) -> (r: &EncoderConfig)
        ensures
            *r == self.config,
    {
        &self.config
    }
}

/// `x` brought into the range of 32 bits by going round.
pub open spec fn wrapped(x: int) -> i32 {
    if x > i32::MAX {
        (x - 0x1_0000_0000) as i32
    } else if x < i32::MIN {
        (x + 0x1_0000_0000) as i32
    } else {
        x as i32
    }
}

/// The accumulator after an interrupt.
pub open spec fn after_interrupt(
    overflow: i32,
    pending: bool,
    high: bool,
    low: bool,
    high_limit: i16,
    low_limit: i16,
) -> i32 {
    if pending {
        wrapped(overflow + gained(high, low, high_limit, low_limit))
    } else {
        overflow
    }
}

/// The accumulator after an interrupt, if one is `pending`.
pub fn handle_pcnt_overflow(
    overflow: i32,
    pending: bool,
    high: bool,
    low: bool,
    high_limit: i16,
    low_limit: i16,
) -> (r: i32)
    ensures
        r == after_interrupt(overflow, pending, high, low, high_limit, low_limit),
{
    if !pending {
        return overflow;
    }
    if high {
        overflow.wrapping_add(high_limit as i32)
    } else if low {
        overflow.wrapping_add(low_limit as i32)
    } else {
        overflow
    }
}

/// The count does not jump where the hardware counter starts anew: at a limit
/// it is the same before and after.
pub proof fn law_count_goes_on_at_the_limits(e: RotaryEncoder, high: bool)
    requires
        i32::MIN <= e.count(if high { e.config.high_limit } else { e.config.low_limit })
            <= i32::MAX,
    ensures
        ({
            let limit = if high {
                e.config.high_limit
            } else {
                e.config.low_limit
            };
            let after = RotaryEncoder {
                overflow: after_interrupt(
                    e.overflow,
                    true,
                    high,
                    !high,
                    e.config.high_limit,
                    e.config.low_limit,
                ),
                ..e
            };
            after.count(0) == e.count(limit)
        }),
{
}

/// Turning clockwise counts up, and the direction is told by the count.
pub proof fn law_direction_is_told_by_the_count(e: RotaryEncoder, counter: i16, more: i16)
    requires
        counter + more <= i16::MAX,
        counter + more >= i16::MIN,
    ensures
        e.count((counter + more) as i16) - e.count(counter) == more,
        more > 0 ==> direction_of(e.count((counter + more) as i16) - e.count(counter))
            == Direction::Clockwise,
        more < 0 ==> direction_of(e.count((counter + more) as i16) - e.count(counter))
            == Direction::CounterClockwise,
        more == 0 ==> direction_of(e.count((counter + more) as i16) - e.count(counter))
            == Direction::Still,
{
}

/// Without a pending interrupt, or without a limit reached, the count stays.
pub proof fn law_count_stays_without_a_limit(overflow: i32, high: bool, low: bool, h: i16, l: i16)
    ensures
        after_interrupt(overflow, false, high, low, h, l) == overflow,
        after_interrupt(overflow, true, false, false, h, l) == overflow,
{
}

/// Settings are accepted exactly where the filter is within its range, the upper
/// limit positive and the lower one negative, and the hardware took them; a
/// filter that is off need not be taken.
pub proof fn law_settings_are_accepted_where_they_fit(config: EncoderConfig, took: HardwareTook)
    ensures
        config_error(config) is None <==> config.filter_threshold <= MAX_FILTER_THRESHOLD
            && config.high_limit > 0 && config.low_limit < 0,
        hardware_error(config, took) is None <==> took.low_limit && took.high_limit && (
        config.filter_threshold == 0 || took.filter),
        config_error(config) == Some(EncoderError::InvalidHighLimit) ==> config.high_limit <= 0,
        config_error(config) == Some(EncoderError::InvalidLowLimit) ==> config.low_limit >= 0,
        config_error(config) == Some(EncoderError::InvalidFilterThreshold)
            ==> config.filter_threshold > MAX_FILTER_THRESHOLD,
{
}

/// A count beyond 32 bits goes round: it differs from what it would be by a
/// whole round.
pub proof fn law_counts_go_round(x: int)
    requires
        i32::MIN - 32768 <= x <= i32::MAX + 32767,
    ensures
        wrapped(x) == x || wrapped(x) == x - 0x1_0000_0000 || wrapped(x) == x + 0x1_0000_0000,
        i32::MIN <= x <= i32::MAX ==> wrapped(x) == x,
{
}

} // verus!
