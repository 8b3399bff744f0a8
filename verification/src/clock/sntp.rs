//! SNTP packets: the request of a client, and the time in a server's reply.
//!
//! Of the 48 bytes of a packet this looks at the first (leap indicator,
//! version, mode), the second (stratum) and the seconds of the transmit
//! timestamp, bytes 40 to 43, which count from 1900-01-01 UTC.

use vstd::prelude::*;

use crate::bytes;
use crate::bytes::join32;

verus! {

/// Size of a packet.
pub const PACKET_LEN: usize = 48;

/// Seconds between 1900-01-01 and 1970-01-01.
pub const NTP_TO_UNIX_OFFSET: u64 = 2_208_988_800;

/// UDP port of time servers.
pub const DEFAULT_PORT: u16 = 123;

/// Why a reply was refused.
#[derive(Clone, Copy, Debug, PartialEq, Eq, Structural)]
pub enum DecodeError {
    /// Shorter than a packet.
    TooShort,
    /// The server says that its clock is not set.
    AlarmCondition,
    /// Sent neither by a server nor as a broadcast.
    WrongMode,
    /// Stratum 0: the server wants no requests.
    KissOfDeath,
    /// Stratum above 15.
    InvalidStratum,
    /// No transmit timestamp.
    EmptyTimestamp,
    /// A time before 1970.
    PreUnixEpoch,
}

/// Seconds of the transmit timestamp.
pub open spec fn transmit_secs(p: Seq<u8>) -> u32 {
    bytes::u32_of(p[40], p[41], p[42], p[43])
}

/// The Unix time in a reply, or why the reply is refused.
pub open spec fn reply_time(p: Seq<u8>) -> Result<u64, DecodeError> {
    if p.len() < PACKET_LEN {
        Err(DecodeError::TooShort)
    } else if p[0] / 64 == 3 {
        Err(DecodeError::AlarmCondition)
    } else if p[0] % 8 != 4 && p[0] % 8 != 5 {
        Err(DecodeError::WrongMode)
    } else if p[1] == 0 {
        Err(DecodeError::KissOfDeath)
    } else if p[1] > 15 {
        Err(DecodeError::InvalidStratum)
    } else if transmit_secs(p) == 0 {
        Err(DecodeError::EmptyTimestamp)
    } else if transmit_secs(p) < NTP_TO_UNIX_OFFSET {
        Err(DecodeError::PreUnixEpoch)
    } else {
        Ok((transmit_secs(p) - NTP_TO_UNIX_OFFSET) as u64)
    }
}

/// A request: version 4, mode client, all else zero.
pub fn encode_request() -> (r: [u8; 48])
    ensures
        r@ == Seq::new(48, |i: int| if i == 0 { 0x23u8 } else { 0u8 }),
{
    let mut buf: [u8; 48] = [0u8; 48];
    buf[0] = 0x23;
    assert(buf@ =~= Seq::new(48, |i: int| if i == 0 { 0x23u8 } else { 0u8 }));
    buf
}

/// The Unix time in a server's reply.
pub fn decode_reply(packet: &[u8]) -> (r: Result<u64, DecodeError>)
    ensures
        r == reply_time(packet@),
{
    if packet.len() < PACKET_LEN {
        return Err(DecodeError::TooShort);
    }
    let leap: u8 = packet[0] / 64;
    let mode: u8 = packet[0] % 8;
    let stratum: u8 = packet[1];
    if leap == 3 {
        return Err(DecodeError::AlarmCondition);
    }
    if mode != 4 && mode != 5 {
        return Err(DecodeError::WrongMode);
    }
    if stratum == 0 {
        return Err(DecodeError::KissOfDeath);
    }
    if stratum > 15 {
        return Err(DecodeError::InvalidStratum);
    }
    let secs: u64 = join32(packet[40], packet[41], packet[42], packet[43]) as u64;
    if secs == 0 {
        return Err(DecodeError::EmptyTimestamp);
    }
    if secs < NTP_TO_UNIX_OFFSET {
        return Err(DecodeError::PreUnixEpoch);
    }
    Ok(secs - NTP_TO_UNIX_OFFSET)
}

/// A reply is accepted only from a server whose clock is set, and the accepted
/// time is the one it was stamped with.
pub proof fn law_accepted_time_is_the_stamped_one(p: Seq<u8>)
    requires
        reply_time(p) is Ok,
    ensures
        p.len() >= PACKET_LEN,
        1 <= p[1] <= 15,
        p[0] / 64 != 3,
        reply_time(p)->Ok_0 + NTP_TO_UNIX_OFFSET == transmit_secs(p),
{
}

/// A good reply is accepted: one of at least 48 bytes, from a server whose clock
/// is set, in mode server or broadcast and of stratum 1 to 15, gives the time of
/// its bytes 40 to 43, most significant first, counted from 1970.
pub proof fn law_good_reply_is_accepted(p: Seq<u8>, secs: int)
    requires
        p.len() >= 48,
        p[0] < 192,
        p[0] % 8 == 4 || p[0] % 8 == 5,
        1 <= p[1] <= 15,
        p[40] * 0x100_0000 + p[41] * 0x1_0000 + p[42] * 0x100 + p[43] == secs,
        secs >= 2_208_988_800,
    ensures
        reply_time(p) == Ok::<u64, DecodeError>((secs - 2_208_988_800) as u64),
{
}

/// A bad reply is refused, and each fault is told apart.
pub proof fn law_bad_reply_is_refused(p: Seq<u8>)
    ensures
        p.len() < 48 ==> reply_time(p) == Err::<u64, DecodeError>(DecodeError::TooShort),
        p.len() >= 48 && p[0] >= 192 ==> reply_time(p) == Err::<u64, DecodeError>(
            DecodeError::AlarmCondition,
        ),
        p.len() >= 48 && p[0] < 192 && p[0] % 8 < 4 ==> reply_time(p) == Err::<u64, DecodeError>(
            DecodeError::WrongMode,
        ),
        p.len() >= 48 && p[0] < 192 && p[0] % 8 > 5 ==> reply_time(p) == Err::<u64, DecodeError>(
            DecodeError::WrongMode,
        ),
        p.len() >= 48 && p[0] < 192 && p[0] % 8 == 4 && p[1] == 0 ==> reply_time(p) == Err::<
            u64,
            DecodeError,
        >(DecodeError::KissOfDeath),
        p.len() >= 48 && p[0] < 192 && p[0] % 8 == 4 && p[1] > 15 ==> reply_time(p) == Err::<
            u64,
            DecodeError,
        >(DecodeError::InvalidStratum),
        p.len() >= 48 && p[0] < 192 && p[0] % 8 == 4 && 1 <= p[1] <= 15 && p[40] == 0 && p[41] == 0
            && p[42] == 0 && p[43] == 0 ==> reply_time(p) == Err::<u64, DecodeError>(
            DecodeError::EmptyTimestamp,
        ),
        p.len() >= 48 && p[0] < 192 && p[0] % 8 == 4 && 1 <= p[1] <= 15 && 0 < p[40] < 0x83
            ==> reply_time(p) == Err::<u64, DecodeError>(DecodeError::PreUnixEpoch),
{
}

} // verus!
