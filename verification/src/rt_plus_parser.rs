//! RadioText Plus: tags that point into the RadioText message.

use vstd::prelude::*;

verus! {

/// A decoded RadioText Plus group.
#[derive(Clone, Copy, Debug, PartialEq, Eq, Structural)]
pub struct RtPlusPayload {
    pub item_toggle: bool,
    pub item_running: bool,
    pub tag1: RtPlusTag,
    pub tag2: RtPlusTag,
}

/// Which part of the message holds what. The part is `len + 1` bytes long.
#[derive(Clone, Copy, Debug, PartialEq, Eq, Structural)]
pub struct RtPlusTag {
    pub content_type: u8,
    pub start: u8,
    pub len: u8,
}

/// The fields of a group, bit by bit:
///
/// | Block | Bits   | Field                           |
/// |-------|--------|---------------------------------|
/// | B     | 4      | item toggle                     |
/// | B     | 3      | item running                    |
/// | B     | 2..=0  | content type 1, upper three bits|
/// | C     | 15..=13| content type 1, lower three bits|
/// | C     | 12..=7 | start 1                         |
/// | C     | 6..=1  | length 1                        |
/// | C     | 0      | content type 2, upper bit       |
/// | D     | 15..=11| content type 2, lower five bits |
/// | D     | 10..=5 | start 2                         |
/// | D     | 4..=0  | length 2                        |
pub open spec fn payload_in(b: u16, c: u16, d: u16) -> RtPlusPayload {
    RtPlusPayload {
        item_toggle: b / 16 % 2 == 1,
        item_running: b / 8 % 2 == 1,
        tag1: RtPlusTag {
            content_type: (b % 8 * 8 + c / 8192) as u8,
            start: (c / 128 % 64) as u8,
            len: (c / 2 % 64) as u8,
        },
        tag2: RtPlusTag {
            content_type: (c % 2 * 32 + d / 2048) as u8,
            start: (d / 32 % 64) as u8,
            len: (d % 32) as u8,
        },
    }
}

/// Decodes blocks B, C and D of a RadioText Plus group.
pub fn decode_rt_plus(block_b: u16, block_c: u16, block_d: u16) -> (r: RtPlusPayload)
    ensures
        r == payload_in(block_b, block_c, block_d),
{
    RtPlusPayload {
        item_toggle: block_b / 16 % 2 == 1,
        item_running: block_b / 8 % 2 == 1,
        tag1: RtPlusTag {
            content_type: (block_b % 8 * 8 + block_c / 8192) as u8,
            start: (block_c / 128 % 64) as u8,
            len: (block_c / 2 % 64) as u8,
        },
        tag2: RtPlusTag {
            content_type: (block_c % 2 * 32 + block_d / 2048) as u8,
            start: (block_d / 32 % 64) as u8,
            len: (block_d % 32) as u8,
        },
    }
}

/// The blocks that carry a payload, with `upper` in the bits of block B that
/// do not belong to it.
pub open spec fn blocks_of(p: RtPlusPayload, upper: int) -> (int, int, int) {
    (
        upper * 32 + (if p.item_toggle {
            16int
        } else {
            0
        }) + (if p.item_running {
            8int
        } else {
            0
        }) + p.tag1.content_type / 8,
        p.tag1.content_type % 8 * 8192 + p.tag1.start * 128 + p.tag1.len * 2
            + p.tag2.content_type / 32,
        p.tag2.content_type % 32 * 2048 + p.tag2.start * 32 + p.tag2.len,
    )
}

proof fn lemma_block_b(u: int, t: int, r: int, h: int)
    requires
        0 <= u < 2048,
        0 <= t < 2,
        0 <= r < 2,
        0 <= h < 8,
    ensures
        ({
            let b = u * 32 + t * 16 + r * 8 + h;
            0 <= b < 65536 && b / 16 % 2 == t && b / 8 % 2 == r && b % 8 == h
        }),
{
    let b = u * 32 + t * 16 + r * 8 + h;
    assert(b / 8 == u * 4 + t * 2 + r);
    assert(b / 16 == u * 2 + t);
}

proof fn lemma_block_c(lo: int, s: int, l: int, k: int)
    requires
        0 <= lo < 8,
        0 <= s < 64,
        0 <= l < 64,
        0 <= k < 2,
    ensures
        ({
            let c = lo * 8192 + s * 128 + l * 2 + k;
            0 <= c < 65536 && c / 8192 == lo && c / 128 % 64 == s && c / 2 % 64 == l && c % 2 == k
        }),
{
    let c = lo * 8192 + s * 128 + l * 2 + k;
    assert(c / 2 == lo * 4096 + s * 64 + l);
    assert(c / 128 == lo * 64 + s);
}

proof fn lemma_block_d(lo: int, s: int, l: int)
    requires
        0 <= lo < 32,
        0 <= s < 64,
        0 <= l < 32,
    ensures
        ({
            let d = lo * 2048 + s * 32 + l;
            0 <= d < 65536 && d / 2048 == lo && d / 32 % 64 == s && d % 32 == l
        }),
{
    let d = lo * 2048 + s * 32 + l;
    assert(d / 32 == lo * 64 + s);
}

/// What was put into the blocks comes out again, whatever the other bits of
/// block B hold: no field spills into a neighbour.
pub proof fn law_payload_round_trip(p: RtPlusPayload, upper: int)
    requires
        p.tag1.content_type < 64,
        p.tag1.start < 64,
        p.tag1.len < 64,
        p.tag2.content_type < 64,
        p.tag2.start < 64,
        p.tag2.len < 32,
        0 <= upper < 2048,
    ensures
        ({
            let (b, c, d) = blocks_of(p, upper);
            payload_in(b as u16, c as u16, d as u16) == p
        }),
{
    let toggle: int = if p.item_toggle {
        1
    } else {
        0
    };
    let running: int = if p.item_running {
        1
    } else {
        0
    };
    lemma_block_b(upper, toggle, running, p.tag1.content_type as int / 8);
    lemma_block_c(
        p.tag1.content_type as int % 8,
        p.tag1.start as int,
        p.tag1.len as int,
        p.tag2.content_type as int / 32,
    );
    lemma_block_d(p.tag2.content_type as int % 32, p.tag2.start as int, p.tag2.len as int);
}

} // verus!
