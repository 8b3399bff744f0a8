//! Codes of the checks that can fail in the self-test.

use vstd::prelude::*;

verus! {

/// The bus does not answer.
pub const I2C_BUS: u8 = 0x01;

/// The chip is another one, or dead.
pub const SI4703_DEV_ID: u8 = 0x02;

/// The chip does not start.
pub const SI4703_INIT: u8 = 0x03;

/// Memory cannot be had, or does not hold what was written.
pub const HEAP_ALLOC: u8 = 0x04;

/// The rotary encoder cannot be read.
pub const PCNT_READ: u8 = 0x05;

} // verus!
