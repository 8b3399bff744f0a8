//! Fixed-width integers as bytes, in both byte orders.

use vstd::prelude::*;

verus! {

/// The 16-bit number with the given high and low byte.
pub open spec fn u16_of(hi: u8, lo: u8) -> u16 {
    (hi * 256 + lo) as u16
}

/// The 32-bit number with the given bytes, most significant first.
pub open spec fn u32_of(b3: u8, b2: u8, b1: u8, b0: u8) -> u32 {
    (b3 * 16777216 + b2 * 65536 + b1 * 256 + b0) as u32
}

/// The high byte of a 16-bit number.
pub open spec fn hi8(x: u16) -> u8 {
    (x / 256) as u8
}

/// The low byte of a 16-bit number.
pub open spec fn lo8(x: u16) -> u8 {
    (x % 256) as u8
}

/// Byte `i` of a 32-bit number, counted from the least significant.
pub open spec fn byte32(x: u32, i: int) -> u8 {
    if i == 0 {
        (x % 256) as u8
    } else if i == 1 {
        (x / 256 % 256) as u8
    } else if i == 2 {
        (x / 65536 % 256) as u8
    } else {
        (x / 16777216) as u8
    }
}

/// A 16-bit number is put together again from its two bytes.
pub proof fn lemma_u16_bytes(x: u16)
    ensures
        u16_of(hi8(x), lo8(x)) == x,
{
}

/// A 32-bit number is put together again from its four bytes.
pub proof fn lemma_u32_bytes(x: u32)
    ensures
        u32_of(byte32(x, 3), byte32(x, 2), byte32(x, 1), byte32(x, 0)) == x,
{
}

pub fn join16(hi: u8, lo: u8) -> (r: u16)
    ensures
        r == u16_of(hi, lo),
{
    hi as u16 * 256 + lo as u16
}

pub fn join32(b3: u8, b2: u8, b1: u8, b0: u8) -> (r: u32)
    ensures
        r == u32_of(b3, b2, b1, b0),
{
    b3 as u32 * 16777216 + b2 as u32 * 65536 + b1 as u32 * 256 + b0 as u32
}

pub fn high_byte(x: u16) -> (r: u8)
    ensures
        r == hi8(x),
{
    (x / 256) as u8
}

pub fn low_byte(x: u16) -> (r: u8)
    ensures
        r == lo8(x),
{
    (x % 256) as u8
}

/// The bytes of a 32-bit number, least significant first.
pub fn bytes_le32(x: u32) -> (r: [u8; 4])
    ensures
        forall|i: int| 0 <= i < 4 ==> #[trigger] r@[i] == byte32(x, i),
{
    [(x % 256) as u8, (x / 256 % 256) as u8, (x / 65536 % 256) as u8, (x / 16777216) as u8]
}

} // verus!
