//! The record that keeps the presets in one flash sector.
//!
//! | Offset | Size | Content                                   |
//! |--------|------|-------------------------------------------|
//! | 0x00   | 4    | `RPST`                                    |
//! | 0x04   | 1    | version, 1 or 2                           |
//! | 0x05   | 1    | number of slots                           |
//! | 0x06   | 2    | zero                                      |
//! | 0x08   | 4    | CRC-32 of the payload                     |
//! | 0x0C   | 16   | frequencies                               |
//! | 0x1C   | 2    | frequency tuned last                      |
//! | 0x1E   | 16   | programme identifications (version 2 only)|
//! | 0x2E   | 64   | station names (version 2 only)            |
//!
//! All numbers are little-endian.

use vstd::prelude::*;

use crate::bytes;
use crate::bytes::{bytes_le32, high_byte, join16, join32, low_byte};
use crate::crc;
use crate::crc::crc32;

verus! {

/// Number of preset slots.
pub const MAX_PRESETS: usize = 8;

/// `RPST`, little-endian.
pub const MAGIC: u32 = 0x5453_5052;

/// Version without identifications and names.
pub const FORMAT_VERSION_V1: u8 = 1;

/// Version that is written.
pub const FORMAT_VERSION_V2: u8 = 2;

/// Bytes before the payload.
pub const HEADER_SIZE: usize = 12;

/// Payload of version 1.
pub const PAYLOAD_V1_SIZE: usize = 18;

/// Payload of version 2.
pub const PAYLOAD_V2_SIZE: usize = 98;

/// Presets as mathematical values.
#[verifier::ext_equal]
pub struct PresetView {
    /// Frequencies, one per slot; 0 marks an empty slot.
    pub freqs: Seq<u16>,
    pub last_tuned: u16,
    /// Programme identifications; 0 where unknown.
    pub pi: Seq<u16>,
    /// Station names; all zero where unknown.
    pub ps: Seq<Seq<u8>>,
}

impl PresetView {
    /// Eight slots, and names of eight bytes.
    pub open spec fn wf(self) -> bool {
        &&& self.freqs.len() == 8
        &&& self.pi.len() == 8
        &&& self.ps.len() == 8
        &&& forall|i: int| 0 <= i < 8 ==> (#[trigger] self.ps[i]).len() == 8
    }

    /// The same presets without identifications and names.
    pub open spec fn without_meta(self) -> PresetView {
        PresetView {
            pi: Seq::new(8, |i: int| 0u16),
            ps: Seq::new(8, |i: int| Seq::new(8, |j: int| 0u8)),
            ..self
        }
    }
}

/// Presets as they are stored.
#[derive(Debug, Clone, PartialEq, Eq)]
pub struct PresetRecord {
    pub freqs: [u16; 8],
    pub last_tuned: u16,
    pub pi: [u16; 8],
    pub ps: [[u8; 8]; 8],
}

/// The names of all slots as sequences.
pub open spec fn names_view(ps: [[u8; 8]; 8]) -> Seq<Seq<u8>> {
    Seq::new(8, |i: int| ps@[i]@)
}

impl View for PresetRecord {
    type V = PresetView;

    open spec fn view(&self) -> PresetView {
        PresetView {
            freqs: self.freqs@,
            last_tuned: self.last_tuned,
            pi: self.pi@,
            ps: names_view(self.ps),
        }
    }
}

/// No presets.
pub open spec fn no_presets() -> PresetView {
    PresetView {
        freqs: Seq::new(8, |i: int| 0u16),
        last_tuned: 0,
        pi: Seq::new(8, |i: int| 0u16),
        ps: Seq::new(8, |i: int| Seq::new(8, |j: int| 0u8)),
    }
}

impl PresetRecord {
    /// No presets.
    pub fn empty() -> (r: PresetRecord)
        ensures
            r@ == no_presets(),
            r@.wf(),
    {
        let row: [u8; 8] = [0u8; 8];
        let r: PresetRecord = PresetRecord {
            freqs: [0u16; 8],
            last_tuned: 0,
            pi: [0u16; 8],
            ps: [row, row, row, row, row, row, row, row],
        };
        assert(row@ =~= Seq::new(8, |j: int| 0u8));
        assert(r@ =~= no_presets());
        r
    }
}

/// Why a record was refused.
#[derive(Debug, Clone, Copy, PartialEq, Eq, Structural)]
pub enum DecodeError {
    InvalidMagic,
    VersionMismatch,
    CrcMismatch,
    TooShort,
}

/// Byte `k` of a little-endian 16-bit number.
pub open spec fn byte16(x: u16, k: int) -> u8 {
    if k == 0 {
        bytes::lo8(x)
    } else {
        bytes::hi8(x)
    }
}

/// Payload of version 1.
pub open spec fn payload_v1(v: PresetView) -> Seq<u8> {
    Seq::new(
        18,
        |i: int|
            if i < 16 {
                byte16(v.freqs[i / 2], i % 2)
            } else {
                byte16(v.last_tuned, i % 2)
            },
    )
}

/// Payload of version 2.
pub open spec fn payload_v2(v: PresetView) -> Seq<u8> {
    Seq::new(
        98,
        |i: int|
            if i < 16 {
                byte16(v.freqs[i / 2], i % 2)
            } else if i < 18 {
                byte16(v.last_tuned, i % 2)
            } else if i < 34 {
                byte16(v.pi[(i - 18) / 2], i % 2)
            } else {
                v.ps[(i - 34) / 8][(i - 34) % 8]
            },
    )
}

/// A record with the given version and payload.
pub open spec fn framed(version: u8, payload: Seq<u8>) -> Seq<u8> {
    let c = crc::crc_of(payload);
    Seq::new(
        12 + payload.len(),
        |i: int|
            if i < 4 {
                bytes::byte32(MAGIC, i)
            } else if i == 4 {
                version
            } else if i == 5 {
                8u8
            } else if i < 8 {
                0u8
            } else if i < 12 {
                bytes::byte32(c, i - 8)
            } else {
                payload[i - 12]
            },
    )
}

/// The little-endian 16-bit number at `at`.
pub open spec fn half_at(s: Seq<u8>, at: int) -> u16 {
    bytes::u16_of(s[at + 1], s[at])
}

/// The little-endian 32-bit number at `at`.
pub open spec fn word_at(s: Seq<u8>, at: int) -> u32 {
    bytes::u32_of(s[at + 3], s[at + 2], s[at + 1], s[at])
}

/// The presets in a payload of the given version.
pub open spec fn presets_in(version: u8, p: Seq<u8>) -> PresetView {
    let plain = PresetView {
        freqs: Seq::new(8, |i: int| half_at(p, 2 * i)),
        last_tuned: half_at(p, 16),
        pi: Seq::new(8, |i: int| 0u16),
        ps: Seq::new(8, |i: int| Seq::new(8, |j: int| 0u8)),
    };
    if version == FORMAT_VERSION_V2 {
        PresetView {
            pi: Seq::new(8, |i: int| half_at(p, 18 + 2 * i)),
            ps: Seq::new(8, |i: int| Seq::new(8, |j: int| p[34 + 8 * i + j])),
            ..plain
        }
    } else {
        plain
    }
}

/// What decoding a record gives.
pub open spec fn decoded(r: Seq<u8>) -> Result<PresetView, DecodeError> {
    let size: int = if r[4] == FORMAT_VERSION_V1 {
        18
    } else {
        98
    };
    if r.len() < 12 {
        Err(DecodeError::TooShort)
    } else if word_at(r, 0) != MAGIC {
        Err(DecodeError::InvalidMagic)
    } else if r[5] != 8 || (r[4] != FORMAT_VERSION_V1 && r[4] != FORMAT_VERSION_V2) {
        Err(DecodeError::VersionMismatch)
    } else if r.len() < 12 + size {
        Err(DecodeError::TooShort)
    } else if word_at(r, 8) != crc::crc_of(r.subrange(12, 12 + size)) {
        Err(DecodeError::CrcMismatch)
    } else {
        Ok(presets_in(r[4], r.subrange(12, 12 + size)))
    }
}

fn push16(v: &mut Vec<u8>, x: u16)
    ensures
        final(v)@ == old(v)@ + seq![bytes::lo8(x), bytes::hi8(x)],
{
    let ghost before = v@;
    v.push(low_byte(x));
    v.push(high_byte(x));
    assert(v@ =~= before + seq![bytes::lo8(x), bytes::hi8(x)]);
}

fn push_all16(v: &mut Vec<u8>, xs: &[u16; 8])
    ensures
        final(v)@ == old(v)@ + Seq::new(16, |i: int| byte16(xs@[i / 2], i % 2)),
{
    let ghost before = v@;
    let mut i: usize = 0;
    while i < 8
        invariant
            0 <= i <= 8,
            v@ == before + Seq::new((2 * i) as nat, |j: int| byte16(xs@[j / 2], j % 2)),
        decreases 8 - i,
    {
        push16(v, xs[i]);
        i = i + 1;
        assert(v@ =~= before + Seq::new((2 * i) as nat, |j: int| byte16(xs@[j / 2], j % 2)));
    }
}

fn encode_frame(version: u8, payload: &Vec<u8>) -> (r: Vec<u8>)
    ensures
        r@ == framed(version, payload@),
{
    let mut r: Vec<u8> = Vec::new();
    let magic: [u8; 4] = bytes_le32(MAGIC);
    let crc: [u8; 4] = bytes_le32(crc32(payload.as_slice()));
    r.push(magic[0]);
    r.push(magic[1]);
    r.push(magic[2]);
    r.push(magic[3]);
    r.push(version);
    r.push(8);
    r.push(0);
    r.push(0);
    r.push(crc[0]);
    r.push(crc[1]);
    r.push(crc[2]);
    r.push(crc[3]);
    r.extend_from_slice(payload.as_slice());
    assert(r@ =~= framed(version, payload@));
    r
}

/// Encodes a record of version 2.
pub fn encode_v2(rec: &PresetRecord) -> (r: Vec<u8>)
    ensures
        r@ == framed(FORMAT_VERSION_V2, payload_v2(rec@)),
{
    let mut p: Vec<u8> = Vec::new();
    push_all16(&mut p, &rec.freqs);
    push16(&mut p, rec.last_tuned);
    push_all16(&mut p, &rec.pi);
    let ghost front = p@;
    let mut i: usize = 0;
    while i < 8
        invariant
            0 <= i <= 8,
            front.len() == 34,
            p@ == front + Seq::new((8 * i) as nat, |j: int| rec@.ps[j / 8][j % 8]),
        decreases 8 - i,
    {
        let ghost before = p@;
        p.extend_from_slice(rec.ps[i].as_slice());
        assert(p@ =~= before + rec.ps@[i as int]@);
        i = i + 1;
        assert(p@ =~= front + Seq::new((8 * i) as nat, |j: int| rec@.ps[j / 8][j % 8]));
    }
    assert(p@ =~= payload_v2(rec@));
    encode_frame(FORMAT_VERSION_V2, &p)
}

/// Encodes a record of version 1, which holds no identifications or names.
pub fn encode_v1(rec: &PresetRecord) -> (r: Vec<u8>)
    ensures
        r@ == framed(FORMAT_VERSION_V1, payload_v1(rec@)),
{
    let mut p: Vec<u8> = Vec::new();
    push_all16(&mut p, &rec.freqs);
    push16(&mut p, rec.last_tuned);
    assert(p@ =~= payload_v1(rec@));
    encode_frame(FORMAT_VERSION_V1, &p)
}

fn read_all16(p: &[u8], at: usize) -> (r: [u16; 8])
    requires
        at + 16 <= p@.len(),
    ensures
        r@ == Seq::new(8, |i: int| half_at(p@, at + 2 * i)),
{
    let mut r: [u16; 8] = [0u16; 8];
    let n: usize = p.len();
    let mut i: usize = 0;
    while i < 8
        invariant
            0 <= i <= 8,
            at + 16 <= n,
            n == p@.len(),
            forall|j: int| 0 <= j < i ==> #[trigger] r@[j] == half_at(p@, at + 2 * j),
        decreases 8 - i,
    {
        let k: usize = at + 2 * i;
        r[i] = join16(p[k + 1], p[k]);
        i = i + 1;
    }
    assert(r@ =~= Seq::new(8, |i: int| half_at(p@, at + 2 * i)));
    r
}

/// Decodes a record of either version.
pub fn decode(buf: &[u8]) -> (r: Result<PresetRecord, DecodeError>)
    ensures
        match r {
            Ok(rec) => decoded(buf@) == Ok::<PresetView, DecodeError>(rec@) && rec@.wf(),
            Err(e) => decoded(buf@) == Err::<PresetView, DecodeError>(e),
        },
{
    if buf.len() < HEADER_SIZE {
        return Err(DecodeError::TooShort);
    }
    if join32(buf[3], buf[2], buf[1], buf[0]) != MAGIC {
        return Err(DecodeError::InvalidMagic);
    }
    let version: u8 = buf[4];
    if buf[5] != 8 {
        return Err(DecodeError::VersionMismatch);
    }
    let payload_size: usize = if version == FORMAT_VERSION_V1 {
        PAYLOAD_V1_SIZE
    } else if version == FORMAT_VERSION_V2 {
        PAYLOAD_V2_SIZE
    } else {
        return Err(DecodeError::VersionMismatch);
    };
    if buf.len() < HEADER_SIZE + payload_size {
        return Err(DecodeError::TooShort);
    }
    let stored_crc: u32 = join32(buf[11], buf[10], buf[9], buf[8]);
    let payload: &[u8] = vstd::slice::slice_subrange(buf, HEADER_SIZE, HEADER_SIZE + payload_size);
    if stored_crc != crc32(payload) {
        return Err(DecodeError::CrcMismatch);
    }
    let mut rec: PresetRecord = PresetRecord::empty();
    rec.freqs = read_all16(payload, 0);
    rec.last_tuned = join16(payload[17], payload[16]);
    if version == FORMAT_VERSION_V2 {
        rec.pi = read_all16(payload, 18);
        let mut i: usize = 0;
        let ghost whole = rec@;
        while i < 8
            invariant
                0 <= i <= 8,
                payload@.len() == 98,
                rec.freqs@ == whole.freqs,
                rec.last_tuned == whole.last_tuned,
                rec.pi@ == whole.pi,
                forall|k: int|
                    0 <= k < i ==> (#[trigger] rec.ps@[k])@ == Seq::new(
                        8,
                        |j: int| payload@[34 + 8 * k + j],
                    ),
            decreases 8 - i,
        {
            let at: usize = 34 + 8 * i;
            let row: [u8; 8] = [
                payload[at],
                payload[at + 1],
                payload[at + 2],
                payload[at + 3],
                payload[at + 4],
                payload[at + 5],
                payload[at + 6],
                payload[at + 7],
            ];
            assert(row@ =~= Seq::new(8, |j: int| payload@[34 + 8 * i + j]));
            rec.ps[i] = row;
            i = i + 1;
        }
        assert(names_view(rec.ps) =~= presets_in(version, payload@).ps);
    }
    assert(rec@ =~= presets_in(version, payload@));
    Ok(rec)
}

proof fn lemma_frame(version: u8, payload: Seq<u8>)
    requires
        (version == FORMAT_VERSION_V1 && payload.len() == 18) || (version == FORMAT_VERSION_V2
            && payload.len() == 98),
    ensures
        decoded(framed(version, payload)) == Ok::<PresetView, DecodeError>(
            presets_in(version, payload),
        ),
{
    let r = framed(version, payload);
    bytes::lemma_u32_bytes(MAGIC);
    bytes::lemma_u32_bytes(crc::crc_of(payload));
    assert(r.subrange(12, 12 + payload.len() as int) =~= payload);
}

proof fn lemma_halves(xs: Seq<u16>)
    ensures
        forall|i: int|
            0 <= i < xs.len() ==> bytes::u16_of(
                bytes::hi8(#[trigger] xs[i]),
                bytes::lo8(xs[i]),
            ) == xs[i],
{
    assert forall|i: int| 0 <= i < xs.len() implies bytes::u16_of(
        bytes::hi8(#[trigger] xs[i]),
        bytes::lo8(xs[i]),
    ) == xs[i] by {
        bytes::lemma_u16_bytes(xs[i]);
    }
}

/// What version 2 stored is what is read.
pub proof fn law_v2_round_trip(v: PresetView)
    requires
        v.wf(),
    ensures
        decoded(framed(FORMAT_VERSION_V2, payload_v2(v))) == Ok::<PresetView, DecodeError>(v),
{
    let p = payload_v2(v);
    lemma_frame(FORMAT_VERSION_V2, p);
    lemma_halves(v.freqs);
    lemma_halves(v.pi);
    bytes::lemma_u16_bytes(v.last_tuned);
    let q = presets_in(FORMAT_VERSION_V2, p);
    assert forall|i: int| 0 <= i < 8 implies q.freqs[i] == v.freqs[i] by {
        assert(p[2 * i] == bytes::lo8(v.freqs[i]));
        assert(p[2 * i + 1] == bytes::hi8(v.freqs[i]));
    }
    assert forall|i: int| 0 <= i < 8 implies q.pi[i] == v.pi[i] by {
        assert(p[18 + 2 * i] == bytes::lo8(v.pi[i]));
        assert(p[18 + 2 * i + 1] == bytes::hi8(v.pi[i]));
    }
    assert forall|i: int| 0 <= i < 8 implies q.ps[i] == v.ps[i] by {
        assert forall|j: int| 0 <= j < 8 implies q.ps[i][j] == v.ps[i][j] by {
            assert((8 * i + j) / 8 == i && (8 * i + j) % 8 == j);
        }
        assert(q.ps[i] =~= v.ps[i]);
    }
    assert(q.freqs =~= v.freqs);
    assert(q.pi =~= v.pi);
    assert(q.ps =~= v.ps);
}

/// What version 1 stored is read without identifications and names.
pub proof fn law_v1_reads_without_meta(v: PresetView)
    requires
        v.wf(),
    ensures
        decoded(framed(FORMAT_VERSION_V1, payload_v1(v))) == Ok::<PresetView, DecodeError>(
            v.without_meta(),
        ),
{
    let p = payload_v1(v);
    lemma_frame(FORMAT_VERSION_V1, p);
    lemma_halves(v.freqs);
    bytes::lemma_u16_bytes(v.last_tuned);
    let q = presets_in(FORMAT_VERSION_V1, p);
    assert forall|i: int| 0 <= i < 8 implies q.freqs[i] == v.freqs[i] by {
        assert(p[2 * i] == bytes::lo8(v.freqs[i]));
        assert(p[2 * i + 1] == bytes::hi8(v.freqs[i]));
    }
    assert(q.freqs =~= v.freqs);
    assert(q =~= v.without_meta());
}

/// A record in which a single payload byte has changed is refused.
pub proof fn law_changed_payload_byte_is_refused(v: PresetView, i: int, b: u8)
    requires
        v.wf(),
        12 <= i < 110,
        b != framed(FORMAT_VERSION_V2, payload_v2(v))[i],
    ensures
        decoded(framed(FORMAT_VERSION_V2, payload_v2(v)).update(i, b)) == Err::<
            PresetView,
            DecodeError,
        >(DecodeError::CrcMismatch),
{
    let p = payload_v2(v);
    let r = framed(FORMAT_VERSION_V2, p);
    let q = r.update(i, b).subrange(12, 110);
    bytes::lemma_u32_bytes(MAGIC);
    bytes::lemma_u32_bytes(crc::crc_of(p));
    assert(q =~= p.update(i - 12, b));
    crc::law_crc_detects_one_changed_byte(p, q, i - 12);
}

/// Bytes behind the record, such as padding to a whole word, do not matter.
pub proof fn law_padding_is_ignored(v: PresetView, padding: Seq<u8>)
    requires
        v.wf(),
    ensures
        decoded(framed(FORMAT_VERSION_V2, payload_v2(v)) + padding) == Ok::<PresetView, DecodeError>(
            v,
        ),
{
    let r = framed(FORMAT_VERSION_V2, payload_v2(v));
    law_v2_round_trip(v);
    assert((r + padding).subrange(12, 110) =~= r.subrange(12, 110));
}

/// The layout of a record, byte by byte: the mark `RPST`, the version, the number
/// of slots, two zeros, the checksum of the payload, then the payload: the
/// frequencies, the one tuned last, the identifications and the names. Numbers
/// stand with their low byte first.
pub proof fn law_record_has_its_layout(v: PresetView, i: int, j: int)
    requires
        v.wf(),
        0 <= i < 8,
        0 <= j < 8,
    ensures
        ({
            let r = framed(2, payload_v2(v));
            let c = crc::crc_of(payload_v2(v));
            &&& r.len() == 110
            &&& r[0] == 0x52 && r[1] == 0x50 && r[2] == 0x53 && r[3] == 0x54
            &&& r[4] == 2 && r[5] == 8 && r[6] == 0 && r[7] == 0
            &&& r[8] + r[9] * 0x100 + r[10] * 0x1_0000 + r[11] * 0x100_0000 == c
            &&& r[12 + 2 * i] + r[13 + 2 * i] * 256 == v.freqs[i]
            &&& r[28] + r[29] * 256 == v.last_tuned
            &&& r[30 + 2 * i] + r[31 + 2 * i] * 256 == v.pi[i]
            &&& r[46 + 8 * i + j] == v.ps[i][j]
            &&& r.subrange(12, 110) == payload_v2(v)
        }),
        ({
            let r = framed(1, payload_v1(v));
            &&& r.len() == 30
            &&& r[4] == 1
            &&& r[12 + 2 * i] + r[13 + 2 * i] * 256 == v.freqs[i]
            &&& r[28] + r[29] * 256 == v.last_tuned
        }),
{
    let p = payload_v2(v);
    let r = framed(2, p);
    let q = payload_v1(v);
    let o = framed(1, q);
    assert((2 * i) / 2 == i && (2 * i + 1) / 2 == i && (2 * i) % 2 == 0 && (2 * i + 1) % 2 == 1);
    assert((8 * i + j) / 8 == i && (8 * i + j) % 8 == j);
    assert(r[12 + 2 * i] == p[2 * i] && r[13 + 2 * i] == p[2 * i + 1]);
    assert(o[12 + 2 * i] == q[2 * i] && o[13 + 2 * i] == q[2 * i + 1]);
    assert(r[30 + 2 * i] == p[18 + 2 * i] && r[31 + 2 * i] == p[19 + 2 * i]);
    assert(p[18 + 2 * i] == bytes::lo8(v.pi[i]) && p[19 + 2 * i] == bytes::hi8(v.pi[i]));
    assert(r[46 + 8 * i + j] == p[34 + 8 * i + j]);
    assert(r.subrange(12, 110) =~= p);
}

/// A record that is not one of these is refused, and why is told apart.
pub proof fn law_foreign_records_are_refused(r: Seq<u8>)
    ensures
        r.len() < 12 ==> decoded(r) == Err::<PresetView, DecodeError>(DecodeError::TooShort),
        r.len() >= 12 && !(r[0] == 0x52 && r[1] == 0x50 && r[2] == 0x53 && r[3] == 0x54)
            ==> decoded(r) == Err::<PresetView, DecodeError>(DecodeError::InvalidMagic),
        r.len() >= 12 && r[0] == 0x52 && r[1] == 0x50 && r[2] == 0x53 && r[3] == 0x54 && (r[5] != 8
            || r[4] == 0 || r[4] > 2) ==> decoded(r) == Err::<PresetView, DecodeError>(
            DecodeError::VersionMismatch,
        ),
        12 <= r.len() < 30 && r[0] == 0x52 && r[1] == 0x50 && r[2] == 0x53 && r[3] == 0x54 && r[5]
            == 8 && 1 <= r[4] <= 2 ==> decoded(r) == Err::<PresetView, DecodeError>(
            DecodeError::TooShort,
        ),
{
}

/// A record that is cut short is refused.
pub proof fn law_cut_records_are_refused(v: PresetView, n: int)
    requires
        v.wf(),
        0 <= n < 110,
    ensures
        decoded(framed(2, payload_v2(v)).take(n)) == Err::<PresetView, DecodeError>(
            DecodeError::TooShort,
        ),
        n < 30 ==> decoded(framed(1, payload_v1(v)).take(n)) == Err::<PresetView, DecodeError>(
            DecodeError::TooShort,
        ),
{
    bytes::lemma_u32_bytes(MAGIC);
    let r = framed(2, payload_v2(v));
    let o = framed(1, payload_v1(v));
    if n >= 12 {
        assert(word_at(r.take(n), 0) == MAGIC);
        if n < 30 {
            assert(word_at(o.take(n), 0) == MAGIC);
        }
    }
}

/// Without presets every slot is empty and nothing is known.
pub proof fn law_no_presets_are_empty_slots(i: int, j: int)
    requires
        0 <= i < 8,
        0 <= j < 8,
    ensures
        no_presets().wf(),
        no_presets().freqs[i] == 0,
        no_presets().pi[i] == 0,
        no_presets().ps[i][j] == 0,
        no_presets().last_tuned == 0,
{
}

} // verus!
