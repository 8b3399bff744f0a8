//! Failures of the flash chip and of its partition table.

use vstd::prelude::*;

verus! {

/// A failed read, erase or program operation of the flash chip.
#[derive(Debug, Clone, Copy, PartialEq, Eq, Structural)]
pub enum FlashFault {
    Io,
    Timeout,
    CantUnlock,
    NotAligned,
    OutOfBounds,
    NotSupported,
    Other(i32),
}

/// A failure while reading the partition table or updating the boot selection.
#[derive(Debug, Clone, Copy, PartialEq, Eq, Structural)]
pub enum PartitionFault {
    Invalid,
    OutOfBounds,
    Storage,
    WriteProtected,
    InvalidPartition,
    InvalidState,
    InvalidArgument,
    NotSupported,
    InvalidImage,
}

/// One sector to erase and then to program, as absolute flash addresses.
#[derive(Debug, Clone, Copy, PartialEq, Eq, Structural)]
pub struct SectorWrite {
    pub offset: u32,
    pub end: u32,
}

} // verus!
