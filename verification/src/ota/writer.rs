//! Sector-buffered staging of a firmware image into the inactive slot.
//!
//! Bytes arrive in chunks of any size and are collected into one flash sector.
//! When the sector is full the caller is told to erase and program it, and
//! reports back with [`OtaWriter::sector_flushed`]. Nothing here activates the
//! slot: [`OtaWriter::finalize`] says whether that may be done.

use vstd::prelude::*;

use crate::bytes::join16;
use crate::bytes;
use crate::flash::{FlashFault, PartitionFault, SectorWrite};

verus! {

/// Flash sector size, which is also the erase granularity.
pub const SECTOR_SIZE: usize = 4096;

/// Bytes of the image header that are inspected before anything is flushed.
pub const HEADER_LEN: usize = 24;

/// First byte of every image.
pub const ESP_IMAGE_MAGIC: u8 = 0xE9;

/// Chip id of images for this board.
pub const EXPECTED_CHIP_ID: u16 = 0x000D;

/// Errors that can occur while an image is staged.
#[derive(Debug, Clone, Copy, PartialEq, Eq, Structural)]
pub enum OtaError {
    /// The image does not fit the target slot.
    ImageTooLarge { image_size: u32, slot_size: u32 },
    /// Another number of bytes than declared has arrived.
    SizeMismatch { expected: u32, received: u32 },
    /// The first bytes are no image header for this chip.
    BadImageHeader { magic: u8, chip_id: u16 },
    /// There is no inactive slot.
    SlotNotFound,
    /// Reading, erasing or programming the flash failed.
    Flash(FlashFault),
    /// The partition table or the boot selection could not be handled.
    Partition(PartitionFault),
}

impl From<FlashFault> for OtaError {
    fn from(e: FlashFault) -> (r: Self) {
        OtaError::Flash(e)
    }
}

impl vstd::std_specs::convert::FromSpecImpl<FlashFault> for OtaError {
    open spec fn obeys_from_spec() -> bool {
        true
    }

    open spec fn from_spec(e: FlashFault) -> Self {
        OtaError::Flash(e)
    }
}

impl From<PartitionFault> for OtaError {
    fn from(e: PartitionFault) -> (r: Self) {
        OtaError::Partition(e)
    }
}

impl vstd::std_specs::convert::FromSpecImpl<PartitionFault> for OtaError {
    open spec fn obeys_from_spec() -> bool {
        true
    }

    open spec fn from_spec(e: PartitionFault) -> Self {
        OtaError::Partition(e)
    }
}

/// The inactive slot that an image is staged into.
#[derive(Debug, Clone, Copy, PartialEq, Eq, Structural)]
pub struct TargetSlot {
    /// Number of the slot (0 or 1 on the usual two-slot layout).
    pub index: u8,
    /// Absolute flash address of its first byte.
    pub base: u32,
    /// Capacity in bytes.
    pub size: u32,
}

/// What one call of [`OtaWriter::write_chunk`] did.
#[derive(Debug, Clone, Copy, PartialEq, Eq, Structural)]
pub struct ChunkStep {
    /// Bytes taken from the front of the chunk.
    pub consumed: usize,
    /// The sector that is now full and has to be erased and programmed.
    pub flush: Option<SectorWrite>,
}

/// Chip id in an image header.
pub open spec fn header_chip_id(header: Seq<u8>) -> u16 {
    bytes::u16_of(header[13], header[12])
}

/// Whether the bytes start with an image header for this chip.
pub open spec fn header_ok(header: Seq<u8>) -> bool {
    header[0] == ESP_IMAGE_MAGIC && header_chip_id(header) == EXPECTED_CHIP_ID
}

/// Sector `k` of an image: its bytes, filled up with the value of erased flash.
pub open spec fn image_sector(image: Seq<u8>, k: int) -> Seq<u8> {
    Seq::new(
        4096,
        |i: int|
            if k * 4096 + i < image.len() {
                image[k * 4096 + i]
            } else {
                0xFFu8
            },
    )
}

/// The lesser of a length and the largest 32-bit number.
pub open spec fn saturate(n: nat) -> u32 {
    if n > u32::MAX {
        u32::MAX
    } else {
        n as u32
    }
}

/// The slot to stage into, given what a look at the partition table found.
pub open spec fn target_of(found: Result<Option<TargetSlot>, PartitionFault>) -> Result<
    TargetSlot,
    OtaError,
> {
    match found {
        Ok(Some(slot)) => Ok(slot),
        Ok(None) => Err(OtaError::SlotNotFound),
        Err(e) => Err(OtaError::Partition(e)),
    }
}

/// The slot to stage into, given what a look at the partition table found.
pub fn determine_target(found: Result<Option<TargetSlot>, PartitionFault>) -> (r: Result<
    TargetSlot,
    OtaError,
>)
    ensures
        r == target_of(found),
{
    match found {
        Ok(Some(slot)) => Ok(slot),
        Ok(None) => Err(OtaError::SlotNotFound),
        Err(e) => Err(OtaError::from(e)),
    }
}

/// Checks the first bytes of an image.
pub fn verify_image_header(header: &[u8]) -> (r: Result<(), OtaError>)
    requires
        header@.len() == HEADER_LEN,
    ensures
        r is Ok <==> header_ok(header@),
        r is Err ==> r->Err_0 == (OtaError::BadImageHeader {
            magic: header@[0],
            chip_id: header_chip_id(header@),
        }),
{
    let magic: u8 = header[0];
    let chip_id: u16 = join16(header[0x0D], header[0x0C]);
    if magic != ESP_IMAGE_MAGIC || chip_id != EXPECTED_CHIP_ID {
        return Err(OtaError::BadImageHeader { magic, chip_id });
    }
    Ok(())
}

/// The sectors of an image hold it byte for byte.
pub proof fn law_sectors_hold_image(image: Seq<u8>, i: int)
    requires
        0 <= i < image.len(),
    ensures
        image_sector(image, i / 4096)[i % 4096] == image[i],
{
}

/// A sector that was programmed once it was full needs no second look: bytes
/// that come later do not change it.
pub proof fn law_full_sector_is_final(image: Seq<u8>, more: Seq<u8>, k: int)
    requires
        0 <= k,
        (k + 1) * 4096 <= image.len(),
    ensures
        image_sector(image + more, k) == image_sector(image, k),
{
    assert(image_sector(image + more, k) =~= image_sector(image, k));
}

/// A sector that is handed out for programming lies inside the slot, on the
/// sector grid that starts at the slot's base, and right behind the sectors
/// programmed before it.
pub proof fn law_sector_stays_in_slot(w: OtaWriter)
    requires
        w.wf(),
        w.next_sector() is Some,
    ensures
        w.slot().base <= w.next_sector()->0.offset,
        w.next_sector()->0.end <= w.slot().base + w.slot().size,
        w.next_sector()->0.end - w.next_sector()->0.offset == 4096,
        w.next_sector()->0.offset - w.slot().base == w.flushed() * 4096,
{
}

/// A header counts as verified only where the image starts with a good one,
/// and nothing has been programmed before that.
pub proof fn law_verified_header_is_good(w: OtaWriter)
    requires
        w.wf(),
    ensures
        w.verified() ==> w.image().len() >= HEADER_LEN && header_ok(w.image()),
        w.flushed() > 0 ==> w.verified(),
{
}

/// Stages an image, sector by sector.
pub struct OtaWriter {
    slot: TargetSlot,
    sector_buf: Vec<u8>,
    buf_used: usize,
    flushed_sectors: u32,
    accepted_bytes: u32,
    expected_size: Option<u32>,
    header_verified: bool,
    /// Every byte accepted so far.
    image: Ghost<Seq<u8>>,
}

impl OtaWriter {
    /// Every byte accepted so far, in order.
    pub closed spec fn image(&self) -> Seq<u8> {
        self.image@
    }

    /// Number of sectors that were programmed.
    pub closed spec fn flushed(&self) -> nat {
        self.flushed_sectors as nat
    }

    pub closed spec fn slot(&self) -> TargetSlot {
        self.slot
    }

    pub closed spec fn expected(&self) -> Option<u32> {
        self.expected_size
    }

    /// Whether the header of the image has been checked and found good.
    pub closed spec fn verified(&self) -> bool {
        self.header_verified
    }

    /// Bytes that wait in the sector buffer.
    pub open spec fn buffered(&self) -> int {
        self.image().len() - self.flushed() * 4096
    }

    /// Where the next sector goes, or `None` if it would leave the slot.
    pub open spec fn next_sector(&self) -> Option<SectorWrite> {
        let offset = self.slot().base + self.flushed() * 4096;
        if offset + 4096 <= self.slot().base + self.slot().size {
            Some(SectorWrite { offset: offset as u32, end: (offset + 4096) as u32 })
        } else {
            None
        }
    }

    /// The buffer holds what was accepted and not yet flushed, filled up with
    /// the value of erased flash; what was flushed fits the slot; and a header
    /// counts as verified only where the image starts with a good one.
    pub closed spec fn wf(&self) -> bool {
        &&& self.slot.base + self.slot.size <= u32::MAX
        &&& self.sector_buf@.len() == 4096
        &&& self.buf_used <= 4096
        &&& self.image@.len() == self.flushed_sectors * 4096 + self.buf_used
        &&& self.flushed_sectors * 4096 <= self.slot.size
        &&& self.sector_buf@ =~= image_sector(self.image@, self.flushed_sectors as int)
        &&& self.accepted_bytes == saturate(self.image@.len())
        &&& self.header_verified ==> self.image@.len() >= 24 && header_ok(self.image@)
        &&& self.image@.len() < 24 ==> !self.header_verified
        &&& self.flushed_sectors > 0 ==> self.header_verified
    }

    /// Starts staging into the inactive slot, where there is one. An image that
    /// is declared larger than the slot is refused.
    pub fn begin(
        found: Result<Option<TargetSlot>, PartitionFault>,
        expected_size: Option<u32>,
    ) -> (r: Result<OtaWriter, OtaError>)
        requires
            found matches Ok(Some(slot)) ==> slot.base + slot.size <= u32::MAX,
        ensures
            match (r, target_of(found)) {
                (Ok(w), Ok(slot)) => {
                    &&& w.wf()
                    &&& w.slot() == slot
                    &&& w.expected() == expected_size
                    &&& w.image() == Seq::<u8>::empty()
                    &&& w.flushed() == 0
                    &&& !w.verified()
                    &&& expected_size is Some ==> expected_size->0 <= slot.size
                },
                (Err(e), Ok(slot)) => {
                    &&& expected_size is Some
                    &&& expected_size->0 > slot.size
                    &&& e == (OtaError::ImageTooLarge {
                        image_size: expected_size->0,
                        slot_size: slot.size,
                    })
                },
                (r, Err(e)) => r is Err && r->Err_0 == e,
            },
    {
        let slot: TargetSlot = match determine_target(found) {
            Ok(slot) => slot,
            Err(e) => {
                return Err(e);
            },
        };
        if let Some(size) = expected_size {
            if size > slot.size {
                return Err(OtaError::ImageTooLarge { image_size: size, slot_size: slot.size });
            }
        }
        let sector_buf: Vec<u8> = vec![0xFFu8; SECTOR_SIZE];
        Ok(
            OtaWriter {
                slot,
                sector_buf,
                buf_used: 0,
                flushed_sectors: 0,
                accepted_bytes: 0,
                expected_size,
                header_verified: false,
                image: Ghost(Seq::empty()),
            },
        )
    }

    /// Takes bytes from the front of `chunk` until the sector buffer is full or
    /// the chunk is used up; an empty chunk does nothing. The header is checked as soon as it is there and
    /// before the first sector is handed out. A full sector that would leave
    /// the slot is an error.
    pub fn write_chunk(&mut self, chunk: &[u8]) -> (r: Result<ChunkStep, OtaError>)
        requires
            old(self).wf(),
        ensures
            final(self).wf(),
            final(self).slot() == old(self).slot(),
            final(self).expected() == old(self).expected(),
            final(self).flushed() == old(self).flushed(),
            ({
                let space = 4096 - old(self).buffered();
                let take = if chunk@.len() < space {
                    chunk@.len() as int
                } else {
                    space
                };
                let image = old(self).image() + chunk@.take(take);
                let check = !old(self).verified() && final(self).buffered() >= 24;
                &&& final(self).image() == image
                &&& if chunk@.len() == 0 {
                    &&& r == Ok::<ChunkStep, OtaError>(ChunkStep { consumed: 0, flush: None })
                    &&& final(self).verified() == old(self).verified()
                } else {
                    match r {
                        Ok(step) => {
                            &&& step.consumed == take
                            &&& final(self).verified() == (old(self).verified() || check)
                            &&& check ==> header_ok(image)
                            &&& step.flush is Some ==> final(self).verified()
                            &&& final(self).buffered() < 4096 ==> step.flush is None
                            &&& final(self).buffered() == 4096 ==> step.flush is Some && step.flush
                                == final(self).next_sector()
                        },
                        Err(e) => if check && !header_ok(image) {
                            &&& !final(self).verified()
                            &&& e == (OtaError::BadImageHeader {
                                magic: image[0],
                                chip_id: header_chip_id(image),
                            })
                        } else {
                            &&& final(self).verified() == (old(self).verified() || check)
                            &&& final(self).buffered() == 4096
                            &&& final(self).next_sector() is None
                            &&& e == (OtaError::ImageTooLarge {
                                image_size: saturate(image.len()),
                                slot_size: old(self).slot().size,
                            })
                        },
                    }
                }
            }),
    {
        if chunk.len() == 0 {
            assert(old(self).image() + chunk@.take(0) =~= old(self).image());
            return Ok(ChunkStep { consumed: 0, flush: None });
        }
        let space: usize = SECTOR_SIZE - self.buf_used;
        let take: usize = if chunk.len() < space {
            chunk.len()
        } else {
            space
        };
        let ghost old_image = self.image@;
        let ghost k = self.flushed_sectors as int;
        let ghost used = self.buf_used as int;
        let mut i: usize = 0;
        while i < take
            invariant
                0 <= i <= take,
                take <= chunk@.len(),
                self.buf_used + take <= 4096,
                self.buf_used == used,
                self.sector_buf@.len() == 4096,
                self.slot == old(self).slot,
                self.buf_used == old(self).buf_used,
                self.flushed_sectors == old(self).flushed_sectors,
                self.accepted_bytes == old(self).accepted_bytes,
                self.expected_size == old(self).expected_size,
                self.header_verified == old(self).header_verified,
                self.image == old(self).image,
                old_image == self.image@,
                forall|j: int|
                    0 <= j < 4096 ==> #[trigger] self.sector_buf@[j] == (if used <= j < used + i {
                        chunk@[j - used]
                    } else {
                        old(self).sector_buf@[j]
                    }),
            decreases take - i,
        {
            self.sector_buf.set(self.buf_used + i, chunk[i]);
            i = i + 1;
        }
        self.buf_used = self.buf_used + take;
        self.accepted_bytes = self.accepted_bytes.saturating_add(take as u32);
        self.image = Ghost(old_image + chunk@.take(take as int));
        proof {
            let image = self.image@;
            assert(image_sector(old_image, k) =~= old(self).sector_buf@);
            assert forall|j: int| 0 <= j < 4096 implies self.sector_buf@[j] == image_sector(
                image,
                k,
            )[j] by {
                if j < used {
                    assert(image[k * 4096 + j] == old_image[k * 4096 + j]);
                } else if j < used + take {
                    assert(image[k * 4096 + j] == chunk@[j - used]);
                }
            }
            assert(self.sector_buf@ =~= image_sector(image, k));
            if old_image.len() >= 24 {
                assert(image[0] == old_image[0] && image[12] == old_image[12] && image[13]
                    == old_image[13]);
            }
        }
        if !self.header_verified && self.buf_used >= HEADER_LEN {
            let header: &[u8] = vstd::slice::slice_subrange(
                self.sector_buf.as_slice(),
                0,
                HEADER_LEN,
            );
            proof {
                assert(k == 0);
                assert(forall|j: int| 0 <= j < 24 ==> header@[j] == self.image@[j]);
            }
            match verify_image_header(header) {
                Ok(()) => {
                    self.header_verified = true;
                },
                Err(e) => {
                    return Err(e);
                },
            }
        }
        if self.buf_used == SECTOR_SIZE {
            match self.sector_target() {
                Some(w) => Ok(ChunkStep { consumed: take, flush: Some(w) }),
                None => Err(
                    OtaError::ImageTooLarge {
                        image_size: self.accepted_bytes,
                        slot_size: self.slot.size,
                    },
                ),
            }
        } else {
            Ok(ChunkStep { consumed: take, flush: None })
        }
    }

    /// Where the next sector goes.
    fn sector_target(&self) -> (r: Option<SectorWrite>)
        requires
            self.wf(),
        ensures
            r == self.next_sector(),
    {
        let offset: u32 = self.slot.base + self.flushed_sectors * 4096;
        match offset.checked_add(4096) {
            Some(end) => if end > self.slot.base + self.slot.size {
                None
            } else {
                Some(SectorWrite { offset, end })
            },
            None => None,
        }
    }

    /// The sector that waits in the buffer, filled up with 0xFF.
    pub fn sector(&self) -> (r: &[u8])
        requires
            self.wf(),
        ensures
            r@ == image_sector(self.image(), self.flushed() as int),
    {
        self.sector_buf.as_slice()
    }

    /// The sector in the buffer has been programmed: the next one is started.
    pub fn sector_flushed(&mut self)
        requires
            old(self).wf(),
            old(self).verified(),
            old(self).buffered() == 4096,
            old(self).next_sector() is Some,
        ensures
            final(self).wf(),
            final(self).slot() == old(self).slot(),
            final(self).expected() == old(self).expected(),
            final(self).verified() == old(self).verified(),
            final(self).image() == old(self).image(),
            final(self).flushed() == old(self).flushed() + 1,
    {
        self.flushed_sectors = self.flushed_sectors + 1;
        self.buf_used = 0;
        self.sector_buf = vec![0xFFu8; SECTOR_SIZE];
        assert(self.sector_buf@ =~= image_sector(self.image@, self.flushed_sectors as int));
    }

    /// Bytes accepted so far.
    pub fn bytes_written(&self) -> (r: u32)
        requires
            self.wf(),
        ensures
            r == saturate(self.image().len()),
    {
        self.accepted_bytes
    }

    /// Progress as 0..=100 where the size was declared.
    pub fn progress_percent(&self) -> (r: Option<u8>)
        requires
            self.wf(),
        ensures
            match self.expected() {
                None => r is None,
                Some(n) => {
                    let pct = saturate(self.image().len()) * 100 / n as int;
                    &&& r is Some
                    &&& r->0 <= 100
                    &&& r->0 == (if n == 0 || pct > 100 {
                        100
                    } else {
                        pct
                    })
                },
            },
    {
        match self.expected_size {
            None => None,
            Some(expected) => {
                if expected == 0 {
                    return Some(100);
                }
                let pct: u64 = self.accepted_bytes as u64 * 100 / expected as u64;
                if pct > 100 {
                    Some(100)
                } else {
                    Some(pct as u8)
                }
            },
        }
    }

    /// Whether the staged image may be activated, and which partial sector has
    /// to be programmed before that.
    pub fn finalize(&self) -> (r: Result<Option<SectorWrite>, OtaError>)
        requires
            self.wf(),
        ensures
            match r {
                Ok(tail) => {
                    &&& self.verified()
                    &&& self.expected() is Some ==> self.expected()->0 == saturate(
                        self.image().len(),
                    )
                    &&& self.buffered() == 0 ==> tail is None
                    &&& self.buffered() > 0 ==> tail is Some && tail == self.next_sector()
                },
                Err(e) => if !self.verified() {
                    e == (OtaError::BadImageHeader {
                        magic: image_sector(self.image(), self.flushed() as int)[0],
                        chip_id: 0,
                    })
                } else if self.expected() is Some && self.expected()->0 != saturate(
                    self.image().len(),
                ) {
                    e == (OtaError::SizeMismatch {
                        expected: self.expected()->0,
                        received: saturate(self.image().len()),
                    })
                } else {
                    &&& self.buffered() > 0
                    &&& self.next_sector() is None
                    &&& e == (OtaError::ImageTooLarge {
                        image_size: saturate(self.image().len()),
                        slot_size: self.slot().size,
                    })
                },
            },
    {
        if !self.header_verified {
            return Err(OtaError::BadImageHeader { magic: self.sector_buf[0], chip_id: 0 });
        }
        if let Some(expected) = self.expected_size {
            if expected != self.accepted_bytes {
                return Err(OtaError::SizeMismatch { expected, received: self.accepted_bytes });
            }
        }
        if self.buf_used > 0 {
            match self.sector_target() {
                Some(w) => Ok(Some(w)),
                None => Err(
                    OtaError::ImageTooLarge {
                        image_size: self.accepted_bytes,
                        slot_size: self.slot.size,
                    },
                ),
            }
        } else {
            Ok(None)
        }
    }
}

/// What stands behind the end of an image in its last sector is the value of
/// erased flash.
pub proof fn law_last_sector_is_filled_up(image: Seq<u8>, k: int, i: int)
    requires
        0 <= k,
        0 <= i < 4096,
        image.len() <= k * 4096 + i,
    ensures
        image_sector(image, k).len() == 4096,
        image_sector(image, k)[i] == 0xFF,
{
}

/// There is a next sector exactly where a whole one is still left of the slot.
pub proof fn law_next_sector_needs_room(w: OtaWriter)
    requires
        w.wf(),
    ensures
        w.next_sector() is Some <==> (w.flushed() + 1) * 4096 <= w.slot().size,
{
}

/// Lengths are reported as they are, as long as they fit in 32 bits.
pub proof fn law_lengths_are_reported(n: nat)
    ensures
        n <= 0xFFFF_FFFF ==> saturate(n) == n,
        n > 0xFFFF_FFFF ==> saturate(n) == 0xFFFF_FFFF,
{
}

/// Staging needs a slot: the one that was found is taken, and without one, or
/// without a partition table, there is none.
pub proof fn law_staging_needs_a_slot(slot: TargetSlot, fault: PartitionFault)
    ensures
        target_of(Ok(Some(slot))) == Ok::<TargetSlot, OtaError>(slot),
        target_of(Ok(None)) == Err::<TargetSlot, OtaError>(OtaError::SlotNotFound),
        target_of(Err(fault)) == Err::<TargetSlot, OtaError>(OtaError::Partition(fault)),
{
}

/// An image is for this chip exactly where it starts with the mark of an image
/// and its chip id, low byte first, is 13.
pub proof fn law_image_names_its_chip(h: Seq<u8>)
    ensures
        header_ok(h) <==> h[0] == 0xE9 && h[12] == 13 && h[13] == 0,
        header_chip_id(h) == h[12] + h[13] * 256,
{
}

} // verus!
