//! Wall clock: the time since boot plus an offset that a time server gave.

pub mod sntp;

use vstd::prelude::*;

verus! {

/// Offset of a clock that no server has set.
pub const NOT_SYNCED: u64 = 0;

/// The clock.
#[derive(Clone, Copy, Debug, PartialEq, Eq, Structural)]
pub struct Clock {
    /// What the time since boot is short of Unix time, in seconds.
    pub epoch_offset_secs: u64,
}

impl Clock {
    /// A clock that no server has set.
    pub fn new() -> (r: Clock)
        ensures
            r.epoch_offset_secs == NOT_SYNCED,
            !synced(r),
    {
        Clock { epoch_offset_secs: NOT_SYNCED }
    }
}

/// Whether a server has set the clock.
pub open spec fn synced(clock: Clock) -> bool {
    clock.epoch_offset_secs != NOT_SYNCED
}

/// The clock after a server gave the time `unix_secs` at `uptime_secs` after
/// boot.
pub open spec fn set_by(clock: Clock, unix_secs: u64, uptime_secs: u64) -> Clock {
    if unix_secs == NOT_SYNCED {
        clock
    } else if unix_secs >= uptime_secs {
        Clock { epoch_offset_secs: (unix_secs - uptime_secs) as u64 }
    } else {
        Clock { epoch_offset_secs: 0 }
    }
}

/// Unix time at `uptime_secs` after boot, at most `u64::MAX`.
pub open spec fn time_at(clock: Clock, uptime_secs: u64) -> Option<u64> {
    if !synced(clock) {
        None
    } else if clock.epoch_offset_secs + uptime_secs > u64::MAX {
        Some(u64::MAX)
    } else {
        Some((clock.epoch_offset_secs + uptime_secs) as u64)
    }
}

/// Sets the clock from a server's reply that arrived at `uptime_secs` after
/// boot.
pub fn record_sync(clock: &mut Clock, unix_secs_at_reply: u64, uptime_secs: u64)
    ensures
        *final(clock) == set_by(*old(clock), unix_secs_at_reply, uptime_secs),
{
    if unix_secs_at_reply == NOT_SYNCED {
        return ;
    }
    clock.epoch_offset_secs = unix_secs_at_reply.saturating_sub(uptime_secs);
}

/// Unix time, or `None` while no server has set the clock.
pub fn wall_time_unix_secs(clock: &Clock, uptime_secs: u64) -> (r: Option<u64>)
    ensures
        r == time_at(*clock, uptime_secs),
{
    if clock.epoch_offset_secs == NOT_SYNCED {
        return None;
    }
    Some(clock.epoch_offset_secs.saturating_add(uptime_secs))
}

/// Whether a server has set the clock.
pub fn is_synced(clock: &Clock) -> (r: bool)
    ensures
        r == synced(*clock),
{
    clock.epoch_offset_secs != NOT_SYNCED
}

/// Between two settings the clock never goes backwards.
pub proof fn law_clock_never_goes_backwards(clock: Clock, earlier: u64, later: u64)
    requires
        earlier <= later,
        synced(clock),
    ensures
        time_at(clock, earlier) is Some,
        time_at(clock, later) is Some,
        time_at(clock, earlier)->0 <= time_at(clock, later)->0,
{
}

/// A clock that was set runs on from the time that the server gave.
pub proof fn law_clock_runs_on_from_the_reply(clock: Clock, unix_secs: u64, at: u64, later: u64)
    requires
        unix_secs > at,
        at <= later,
        unix_secs + (later - at) <= u64::MAX,
    ensures
        synced(set_by(clock, unix_secs, at)),
        time_at(set_by(clock, unix_secs, at), later) == Some((unix_secs + (later - at)) as u64),
{
}

/// A clock that no server has set shows no time, and a reply without a time
/// does not set it.
pub proof fn law_unset_clock_shows_no_time(clock: Clock, uptime_secs: u64)
    ensures
        clock.epoch_offset_secs == 0 ==> time_at(clock, uptime_secs) is None && !synced(clock),
        clock.epoch_offset_secs != 0 ==> time_at(clock, uptime_secs) is Some && synced(clock),
        set_by(clock, 0, uptime_secs) == clock,
{
}

} // verus!
