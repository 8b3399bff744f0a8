//! The presets in flash and their copy in memory.
//!
//! A change is planned first, as the set that would be stored; the caller
//! erases the sector and writes [`write_record`]; only when that has succeeded
//! does the copy in memory change.

use vstd::prelude::*;

use crate::flash::SectorWrite;
use crate::preset_codec;
use crate::preset_codec::{decode, encode_v2, DecodeError, PresetRecord, PresetView};
use crate::state;
use crate::state::{names_equal, PresetSet, PRESET_EMPTY};

verus! {

/// First sector of the storage partition.
pub const DEFAULT_PRESET_OFFSET: u32 = 0x3E_0000;

/// Size of a stored record, padded to whole words.
pub const RECORD_SIZE_V2: usize = 112;

/// Errors of the preset store.
#[derive(Debug, Clone, Copy, PartialEq, Eq, Structural)]
pub enum PresetStoreError {
    /// A flash operation failed.
    Flash,
    /// Nothing was ever stored.
    InvalidMagic,
    /// The record is corrupted.
    CrcMismatch,
    /// The record has another format.
    VersionMismatch,
}

/// What reading a record of [`RECORD_SIZE_V2`] bytes gives.
pub open spec fn read_outcome(buf: Seq<u8>) -> Result<PresetView, PresetStoreError> {
    match preset_codec::decoded(buf) {
        Ok(v) => Ok(v),
        Err(DecodeError::InvalidMagic) => Err(PresetStoreError::InvalidMagic),
        Err(DecodeError::CrcMismatch) => Err(PresetStoreError::CrcMismatch),
        Err(_) => Err(PresetStoreError::VersionMismatch),
    }
}

/// Reads a record.
pub fn read_record(buf: &[u8]) -> (r: Result<PresetSet, PresetStoreError>)
    requires
        buf@.len() == RECORD_SIZE_V2,
    ensures
        match r {
            Ok(set) => read_outcome(buf@) == Ok::<PresetView, PresetStoreError>(set@) && set@.wf(),
            Err(e) => read_outcome(buf@) == Err::<PresetView, PresetStoreError>(e),
        },
{
    match decode(buf) {
        Ok(rec) => Ok(
            PresetSet { freqs: rec.freqs, last_tuned: rec.last_tuned, pi: rec.pi, ps: rec.ps },
        ),
        Err(DecodeError::InvalidMagic) => Err(PresetStoreError::InvalidMagic),
        Err(DecodeError::CrcMismatch) => Err(PresetStoreError::CrcMismatch),
        Err(_) => Err(PresetStoreError::VersionMismatch),
    }
}

/// The bytes of the record of a set.
pub open spec fn record_bytes(v: PresetView) -> Seq<u8> {
    preset_codec::framed(preset_codec::FORMAT_VERSION_V2, preset_codec::payload_v2(v)) + seq![
        0u8,
        0u8,
    ]
}

/// The record of a set.
pub fn write_record(set: &PresetSet) -> (r: Vec<u8>)
    ensures
        r@ == record_bytes(set@),
        r@.len() == RECORD_SIZE_V2,
{
    let rec: PresetRecord = PresetRecord {
        freqs: set.freqs,
        last_tuned: set.last_tuned,
        pi: set.pi,
        ps: set.ps,
    };
    let mut r: Vec<u8> = encode_v2(&rec);
    r.push(0);
    r.push(0);
    assert(r@ =~= record_bytes(set@));
    r
}

/// What was written is what is read.
pub proof fn law_written_presets_read_back(v: PresetView)
    requires
        v.wf(),
    ensures
        read_outcome(record_bytes(v)) == Ok::<PresetView, PresetStoreError>(v),
{
    preset_codec::law_padding_is_ignored(v, seq![0u8, 0u8]);
}

/// The frequency tuned last survives a power cycle, and the presets with it.
pub proof fn law_last_tuned_survives(v: PresetView, freq: u16)
    requires
        v.wf(),
    ensures
        read_outcome(record_bytes(PresetView { last_tuned: freq, ..v })) == Ok::<
            PresetView,
            PresetStoreError,
        >(PresetView { last_tuned: freq, ..v }),
{
    law_written_presets_read_back(PresetView { last_tuned: freq, ..v });
}

/// A preset about to be stored.
#[derive(Debug, Clone, Copy)]
pub struct PendingPreset {
    pub slot: usize,
    pub set: PresetSet,
}

/// The presets that a record update would store, if anything is new.
pub open spec fn meta_update(
    v: PresetView,
    freq: u16,
    pi: Option<u16>,
    ps: Option<Seq<u8>>,
) -> Option<PresetView> {
    match state::slot_of(v.freqs, freq) {
        None => None,
        Some(i) => {
            let new_pi = if pi is Some && pi->0 != 0 && pi->0 != v.pi[i as int] {
                pi
            } else {
                None
            };
            let new_ps = if ps is Some && (exists|k: int|
                0 <= k < ps->0.len() && #[trigger] ps->0[k] != 0) && ps->0 != v.ps[i as int] {
                ps
            } else {
                None
            };
            if new_pi is None && new_ps is None {
                None
            } else {
                Some(state::with_meta(v, i as int, new_pi, new_ps))
            }
        },
    }
}

/// The presets in memory, and where they are stored.
pub struct PresetStore {
    offset: u32,
    cached: PresetSet,
}

impl PresetStore {
    pub closed spec fn offset(&self) -> u32 {
        self.offset
    }

    /// The presets in memory.
    pub closed spec fn view(&self) -> PresetView {
        self.cached@
    }

    /// Opens the store at its default place.
    pub fn open(read: Option<&[u8]>) -> (r: PresetStore)
        requires
            read is Some ==> read->0@.len() == RECORD_SIZE_V2,
        ensures
            r.offset() == DEFAULT_PRESET_OFFSET,
            r@ == (if read is Some && read_outcome(read->0@) is Ok {
                read_outcome(read->0@)->Ok_0
            } else {
                preset_codec::no_presets()
            }),
            r@.wf(),
    {
        PresetStore::open_at(DEFAULT_PRESET_OFFSET, read)
    }

    /// Opens the store at the sector at `offset`. `read` is the record found
    /// there, `None` where the read failed. Without a good record there are no
    /// presets.
    pub fn open_at(offset: u32, read: Option<&[u8]>) -> (r: PresetStore)
        requires
            offset % 4096 == 0,
            read is Some ==> read->0@.len() == RECORD_SIZE_V2,
        ensures
            r.offset() == offset,
            r@ == (if read is Some && read_outcome(read->0@) is Ok {
                read_outcome(read->0@)->Ok_0
            } else {
                preset_codec::no_presets()
            }),
            r@.wf(),
    {
        let mut cached: PresetSet = PresetSet::empty();
        if let Some(buf) = read {
            if let Ok(set) = read_record(buf) {
                cached = set;
            }
        }
        PresetStore { offset, cached }
    }

    /// The presets in memory.
    pub fn snapshot(&self) -> (r: PresetSet)
        ensures
            r@ == self@,
    {
        self.cached
    }

    /// The sector to erase before a record is written.
    pub fn sector(&self) -> (r: SectorWrite)
        requires
            self.offset() + 4096 <= u32::MAX,
        ensures
            r == (SectorWrite { offset: self.offset(), end: (self.offset() + 4096) as u32 }),
    {
        SectorWrite { offset: self.offset, end: self.offset + 4096 }
    }

    /// `set` was written to flash, or could not be: only in the first case
    /// does it become the set in memory.
    pub fn save_set(&mut self, set: PresetSet, written: bool) -> (r: Result<(), PresetStoreError>)
        ensures
            final(self).offset() == old(self).offset(),
            written ==> r is Ok && final(self)@ == set@,
            !written ==> r == Err::<(), PresetStoreError>(PresetStoreError::Flash) && final(self)@
                == old(self)@,
    {
        if written {
            self.cached = set;
            Ok(())
        } else {
            Err(PresetStoreError::Flash)
        }
    }

    /// Plans to save a frequency. `None` where it is no frequency.
    pub fn save_freq(&self, freq_x10: u16) -> (r: Option<PendingPreset>)
        ensures
            match r {
                None => freq_x10 == PRESET_EMPTY,
                Some(p) => freq_x10 != PRESET_EMPTY && p.slot == state::with_slot(
                    self@,
                    freq_x10,
                ).1 && p.slot < 8 && p.set@ == state::with_slot(self@, freq_x10).0,
            },
    {
        self.save_freq_with_meta(freq_x10, None, None)
    }

    /// Plans to save a frequency with what is known of its station. `None`
    /// where it is no frequency.
    pub fn save_freq_with_meta(&self, freq_x10: u16, pi: Option<u16>, ps: Option<[u8; 8]>) -> (r:
        Option<PendingPreset>)
        ensures
            match r {
                None => freq_x10 == PRESET_EMPTY,
                Some(p) => freq_x10 != PRESET_EMPTY && p.slot == state::with_slot(
                    self@,
                    freq_x10,
                ).1 && p.slot < 8 && p.set@ == state::with_meta(
                    state::with_slot(self@, freq_x10).0,
                    p.slot as int,
                    pi,
                    state::opt_name(ps),
                ),
            },
    {
        if freq_x10 == PRESET_EMPTY {
            return None;
        }
        let mut set: PresetSet = self.cached;
        let slot: usize = set.save_with_meta(freq_x10, pi, ps);
        Some(PendingPreset { slot, set })
    }

    /// Plans to record what is newly known of a saved station. `None` where
    /// the frequency is not saved or nothing is new.
    pub fn update_meta(&self, freq_x10: u16, pi: Option<u16>, ps: Option<[u8; 8]>) -> (r: Option<
        PresetSet,
    >)
        ensures
            match r {
                Some(set) => meta_update(self@, freq_x10, pi, state::opt_name(ps)) == Some(set@),
                None => meta_update(self@, freq_x10, pi, state::opt_name(ps)) is None,
            },
    {
        let idx: usize = match self.cached.position(freq_x10) {
            Some(i) => i,
            None => {
                return None;
            },
        };
        let new_pi: Option<u16> = match pi {
            Some(x) => {
                if x != 0 && self.cached.pi[idx] != x {
                    Some(x)
                } else {
                    None
                }
            },
            None => None,
        };
        let new_ps: Option<[u8; 8]> = match ps {
            Some(x) => {
                if any_nonzero(&x) && !names_equal(&self.cached.ps[idx], &x) {
                    Some(x)
                } else {
                    None
                }
            },
            None => None,
        };
        if new_pi.is_none() && new_ps.is_none() {
            return None;
        }
        let mut set: PresetSet = self.cached;
        set.set_meta(idx, new_pi, new_ps);
        Some(set)
    }

    /// Plans to store the frequency tuned last. `None` where it is stored
    /// already.
    pub fn record_last_tuned(&self, freq_x10: u16) -> (r: Option<PresetSet>)
        ensures
            match r {
                None => self@.last_tuned == freq_x10,
                Some(set) => self@.last_tuned != freq_x10 && set@ == (PresetView {
                    last_tuned: freq_x10,
                    ..self@
                }),
            },
    {
        if self.cached.last_tuned == freq_x10 {
            return None;
        }
        let mut set: PresetSet = self.cached;
        set.last_tuned = freq_x10;
        Some(set)
    }

    /// Gives the flash away for a while.
    pub fn pause(self) -> (r: PausedPresetStore)
        ensures
            r.offset() == self.offset(),
            r@ == self@,
    {
        PausedPresetStore { offset: self.offset, cached: self.cached }
    }
}

fn any_nonzero(b: &[u8; 8]) -> (r: bool)
    ensures
        r == exists|k: int| 0 <= k < b@.len() && #[trigger] b@[k] != 0,
{
    let mut i: usize = 0;
    while i < 8
        invariant
            0 <= i <= 8,
            forall|j: int| 0 <= j < i ==> #[trigger] b@[j] == 0,
        decreases 8 - i,
    {
        if b[i] != 0 {
            assert(b@[i as int] != 0);
            return true;
        }
        i = i + 1;
    }
    false
}

/// A store without its flash.
#[derive(Debug, Clone, Copy)]
pub struct PausedPresetStore {
    offset: u32,
    cached: PresetSet,
}

impl PausedPresetStore {
    pub closed spec fn offset(&self) -> u32 {
        self.offset
    }

    pub closed spec fn view(&self) -> PresetView {
        self.cached@
    }

    /// The store as it was before [`PresetStore::pause`].
    pub fn resume(self) -> (r: PresetStore)
        ensures
            r.offset() == self.offset(),
            r@ == self@,
    {
        PresetStore { offset: self.offset, cached: self.cached }
    }
}

/// What is newly known of a saved station is put with its preset: of the slot
/// that holds the frequency the identification and the name become the new ones
/// where they are known, and all else stays. A station that is not saved, or of
/// which nothing new is known, changes nothing.
pub proof fn law_new_knowledge_goes_to_its_preset(
    v: PresetView,
    freq: u16,
    i: int,
    pi: u16,
    ps: Seq<u8>,
)
    requires
        v.wf(),
        0 <= i < 8,
        v.freqs[i] == freq,
        forall|k: int| 0 <= k < i ==> #[trigger] v.freqs[k] != freq,
        ps.len() == 8,
        ps[0] != 0,
        pi != 0,
    ensures
        pi != v.pi[i] ==> meta_update(v, freq, Some(pi), None) == Some(
            PresetView { pi: v.pi.update(i, pi), ..v },
        ),
        ps != v.ps[i] ==> meta_update(v, freq, None, Some(ps)) == Some(
            PresetView { ps: v.ps.update(i, ps), ..v },
        ),
        pi != v.pi[i] && ps != v.ps[i] ==> meta_update(v, freq, Some(pi), Some(ps)) == Some(
            PresetView { pi: v.pi.update(i, pi), ps: v.ps.update(i, ps), ..v },
        ),
        pi != v.pi[i] ==> meta_update(v, freq, Some(pi), Some(v.ps[i])) == Some(
            PresetView { pi: v.pi.update(i, pi), ..v },
        ),
        meta_update(v, freq, Some(v.pi[i]), Some(v.ps[i])) is None,
        meta_update(v, freq, None, None) is None,
{
    crate::strings::lemma_find_from(v.freqs, freq, 0);
    assert(crate::strings::find_from(v.freqs, freq, 0) == i);
    let name = Some(ps);
    assert(name->0[0] != 0);
}

/// A station that is not saved has no place for what is known of it.
pub proof fn law_unsaved_station_is_not_kept(
    v: PresetView,
    freq: u16,
    pi: Option<u16>,
    ps: Option<Seq<u8>>,
)
    requires
        v.wf(),
        !v.freqs.contains(freq),
    ensures
        meta_update(v, freq, pi, ps) is None,
{
    crate::strings::lemma_find_from(v.freqs, freq, 0);
    let k = crate::strings::find_from(v.freqs, freq, 0);
    if k < 8 {
        assert(v.freqs[k] == freq);
    }
}

/// A record that cannot be read is told apart: without its mark, with a wrong
/// checksum, or of another format.
pub proof fn law_unreadable_records_are_told_apart(buf: Seq<u8>)
    ensures
        preset_codec::decoded(buf) == Err::<PresetView, DecodeError>(DecodeError::InvalidMagic)
            <==> read_outcome(buf) == Err::<PresetView, PresetStoreError>(
            PresetStoreError::InvalidMagic,
        ),
        preset_codec::decoded(buf) == Err::<PresetView, DecodeError>(DecodeError::CrcMismatch)
            <==> read_outcome(buf) == Err::<PresetView, PresetStoreError>(
            PresetStoreError::CrcMismatch,
        ),
        preset_codec::decoded(buf) is Ok <==> read_outcome(buf) is Ok,
        preset_codec::decoded(buf) == Err::<PresetView, DecodeError>(DecodeError::VersionMismatch)
            ==> read_outcome(buf) == Err::<PresetView, PresetStoreError>(
            PresetStoreError::VersionMismatch,
        ),
{
}

/// What is written is the record of version 2, filled up to whole words.
pub proof fn law_presets_are_written_as_version_two(v: PresetView)
    requires
        v.wf(),
    ensures
        record_bytes(v).len() == 112,
        record_bytes(v).take(110) == preset_codec::framed(2, preset_codec::payload_v2(v)),
        record_bytes(v)[4] == 2,
        record_bytes(v)[110] == 0 && record_bytes(v)[111] == 0,
{
    assert(record_bytes(v).take(110) =~= preset_codec::framed(2, preset_codec::payload_v2(v)));
}

} // verus!
