//! When which time server is asked, and what its answer does to the clock.

use vstd::prelude::*;

use crate::clock;
use crate::clock::sntp;
use crate::clock::sntp::decode_reply;
use crate::clock::{is_synced, record_sync, Clock};

verus! {

/// UDP port that requests are sent from.
pub const LOCAL_PORT: u16 = 123;

/// How long a reply is waited for (seconds).
pub const REPLY_TIMEOUT_SECS: u64 = 3;

/// Wait after a round while no server has set the clock yet (seconds).
pub const RETRY_INTERVAL_SECS: u64 = 30;

/// Wait after a round once the clock is set, whether or not this round set it
/// (seconds).
pub const SYNC_INTERVAL_SECS: u64 = 21_600;

/// Number of servers.
pub const SERVER_COUNT: usize = 2;

/// Address of server `i`.
pub open spec fn server_ip(i: int) -> Seq<u8> {
    if i == 0 {
        seq![162u8, 159, 200, 1]
    } else {
        seq![162u8, 159, 200, 123]
    }
}

/// Address of server `i`.
pub fn server(i: usize) -> (r: [u8; 4])
    requires
        i < SERVER_COUNT,
    ensures
        r@ == server_ip(i as int),
        i == 0 ==> r@ == seq![162u8, 159, 200, 1],
        i == 1 ==> r@ == seq![162u8, 159, 200, 123],
{
    let r: [u8; 4] = if i == 0 {
        [162, 159, 200, 1]
    } else {
        [162, 159, 200, 123]
    };
    assert(r@ =~= server_ip(i as int));
    r
}

/// What became of a request.
pub enum NtpEvent<'a> {
    /// The request could not be sent.
    SendFailed,
    /// Nothing came in time, or receiving failed.
    NoReply,
    /// This packet came.
    Reply(&'a [u8]),
}

/// What to do next.
#[derive(Clone, Copy, Debug, PartialEq, Eq, Structural)]
pub enum NtpStep {
    /// Ask this server.
    Ask(usize),
    /// The round is over; start the next one after so many seconds.
    Sleep(u64),
}

/// The time in what came back, if it is accepted.
pub open spec fn accepted(event: NtpEvent) -> Option<u64> {
    match event {
        NtpEvent::Reply(packet) => match sntp::reply_time(packet@) {
            Ok(t) => Some(t),
            Err(_) => None,
        },
        _ => None,
    }
}

/// Length of the wait between two rounds, once the clock is set or before.
pub fn wait_after(synced: bool) -> (r: u64)
    ensures
        r == (if synced { SYNC_INTERVAL_SECS } else { RETRY_INTERVAL_SECS }),
{
    if synced {
        SYNC_INTERVAL_SECS
    } else {
        RETRY_INTERVAL_SECS
    }
}

/// Goes on with a round in which server `asked` was asked last. The servers
/// are asked in turn until one gives a time that is accepted; that time sets
/// the clock and ends the round. A clock that was set before keeps its time
/// through a round without an answer.
pub fn try_sync_once(clock: &mut Clock, asked: usize, event: NtpEvent, uptime_secs: u64) -> (r:
    NtpStep)
    requires
        asked < SERVER_COUNT,
    ensures
        match accepted(event) {
            Some(t) => r == NtpStep::Sleep(SYNC_INTERVAL_SECS) && *final(clock) == clock::set_by(
                *old(clock),
                t,
                uptime_secs,
            ),
            None => *final(clock) == *old(clock) && r == (if asked + 1 < SERVER_COUNT {
                NtpStep::Ask((asked + 1) as usize)
            } else {
                NtpStep::Sleep(
                    if clock::synced(*old(clock)) {
                        SYNC_INTERVAL_SECS
                    } else {
                        RETRY_INTERVAL_SECS
                    },
                )
            }),
        },
{
    if let NtpEvent::Reply(packet) = event {
        if let Ok(unix_secs) = decode_reply(packet) {
            record_sync(clock, unix_secs, uptime_secs);
            return NtpStep::Sleep(wait_after(true));
        }
    }
    if asked + 1 < SERVER_COUNT {
        NtpStep::Ask(asked + 1)
    } else {
        NtpStep::Sleep(wait_after(is_synced(clock)))
    }
}

/// Only a reply with a time is accepted, and then that time.
pub proof fn law_only_a_good_reply_is_accepted(packet: &[u8])
    ensures
        accepted(NtpEvent::SendFailed) is None,
        accepted(NtpEvent::NoReply) is None,
        sntp::reply_time(packet@) is Err ==> accepted(NtpEvent::Reply(packet)) is None,
        sntp::reply_time(packet@) is Ok ==> accepted(NtpEvent::Reply(packet)) == Some(
            sntp::reply_time(packet@)->Ok_0,
        ),
{
}

} // verus!
