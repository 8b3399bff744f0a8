//! The record that keeps the Wi-Fi credentials in one flash sector.
//!
//! | Offset | Size | Content                      |
//! |--------|------|------------------------------|
//! | 0x00   | 4    | magic, little-endian         |
//! | 0x04   | 4    | CRC-32 of the payload        |
//! | 0x08   | 1    | length of the SSID           |
//! | 0x09   | 32   | SSID                         |
//! | 0x29   | 1    | length of the password       |
//! | 0x2A   | 64   | password                     |

use vstd::prelude::*;
use vstd::utf8::*;

use crate::bytes;
use crate::bytes::{bytes_le32, join32};
use crate::crc;
use crate::crc::crc32;
use crate::flash::SectorWrite;
use crate::strings::str_from_utf8;
use crate::wifi_provision::WifiCredentials;

verus! {

/// Marks a sector that holds credentials.
pub const MAGIC: u32 = 0xCAFE_F00D;

/// Longest SSID in bytes.
pub const MAX_SSID_LEN: usize = 32;

/// Longest password in bytes.
pub const MAX_PASSWORD_LEN: usize = 64;

/// Two lengths, the SSID and the password.
pub const PAYLOAD_SIZE: usize = 98;

/// Magic and checksum.
pub const HEADER_SIZE: usize = 8;

/// Header and payload, rounded up to whole words.
pub const RECORD_SIZE: usize = 108;

/// The last sector of a 4 MiB flash.
pub const DEFAULT_STORAGE_OFFSET: u32 = 0x3F_F000;

/// Errors of credential storage.
#[derive(Debug, Clone, Copy, PartialEq, Eq, Structural)]
pub enum StorageError {
    /// A flash operation failed.
    FlashError,
    /// The magic number is wrong.
    InvalidMagic,
    /// The record is corrupted.
    CrcMismatch,
    /// The SSID is too long.
    SsidTooLong,
    /// The password is too long.
    PasswordTooLong,
}

/// The little-endian number in the four bytes at `at`.
pub open spec fn word_at(s: Seq<u8>, at: int) -> u32 {
    bytes::u32_of(s[at + 3], s[at + 2], s[at + 1], s[at])
}

/// The payload for the given SSID and password bytes.
pub open spec fn payload_of(ssid: Seq<u8>, pass: Seq<u8>) -> Seq<u8> {
    Seq::new(
        98,
        |i: int|
            if i == 0 {
                ssid.len() as u8
            } else if i <= 32 {
                if i - 1 < ssid.len() {
                    ssid[i - 1]
                } else {
                    0u8
                }
            } else if i == 33 {
                pass.len() as u8
            } else {
                if i - 34 < pass.len() {
                    pass[i - 34]
                } else {
                    0u8
                }
            },
    )
}

/// The record for the given SSID and password bytes.
pub open spec fn record_of(ssid: Seq<u8>, pass: Seq<u8>) -> Seq<u8> {
    let p = payload_of(ssid, pass);
    let c = crc::crc_of(p);
    Seq::new(
        108,
        |i: int|
            if i < 4 {
                bytes::byte32(MAGIC, i)
            } else if i < 8 {
                bytes::byte32(c, i - 4)
            } else if i < 106 {
                p[i - 8]
            } else {
                0u8
            },
    )
}

/// What a record holds.
pub enum Stored {
    /// No credentials were ever stored.
    Nothing,
    Corrupt,
    /// SSID and password.
    Present(Seq<char>, Seq<char>),
}

/// What the record `r` holds.
pub open spec fn stored(r: Seq<u8>) -> Stored {
    let p = r.subrange(8, 106);
    let ssid = p.subrange(1, 1 + p[0]);
    let pass = p.subrange(34, 34 + p[33]);
    if word_at(r, 0) != MAGIC {
        Stored::Nothing
    } else if word_at(r, 4) != crc::crc_of(p) || p[0] > 32 || p[33] > 64 || !valid_utf8(ssid)
        || !valid_utf8(pass) {
        Stored::Corrupt
    } else {
        Stored::Present(decode_utf8(ssid), decode_utf8(pass))
    }
}

/// The outcome of reading a record.
pub open spec fn load_outcome(
    r: Seq<u8>,
    out: Result<Option<WifiCredentials>, StorageError>,
) -> bool {
    match stored(r) {
        Stored::Nothing => out matches Ok(None),
        Stored::Corrupt => out matches Err(e) && e == StorageError::CrcMismatch,
        Stored::Present(ssid, pass) => out matches Ok(Some(c)) && c.ssid@ == ssid && c.password@
            == pass,
    }
}

/// What was saved is what is loaded.
pub proof fn law_saved_credentials_load(ssid: Seq<char>, pass: Seq<char>)
    requires
        encode_utf8(ssid).len() <= 32,
        encode_utf8(pass).len() <= 64,
    ensures
        stored(record_of(encode_utf8(ssid), encode_utf8(pass))) == Stored::Present(ssid, pass),
{
    let s = encode_utf8(ssid);
    let w = encode_utf8(pass);
    let r = record_of(s, w);
    let p = payload_of(s, w);
    let c = crc::crc_of(p);
    bytes::lemma_u32_bytes(MAGIC);
    bytes::lemma_u32_bytes(c);
    assert(r.subrange(8, 106) =~= p);
    assert(p.subrange(1, 1 + p[0]) =~= s);
    assert(p.subrange(34, 34 + p[33]) =~= w);
    encode_utf8_valid_utf8(ssid);
    encode_utf8_valid_utf8(pass);
    encode_utf8_decode_utf8(ssid);
    encode_utf8_decode_utf8(pass);
}

/// A saved record in which a single payload byte has changed is reported as
/// corrupted: it neither loads nor counts as empty.
pub proof fn law_changed_payload_byte_is_corrupt(ssid: Seq<char>, pass: Seq<char>, i: int, b: u8)
    requires
        encode_utf8(ssid).len() <= 32,
        encode_utf8(pass).len() <= 64,
        8 <= i < 106,
        b != record_of(encode_utf8(ssid), encode_utf8(pass))[i],
    ensures
        stored(record_of(encode_utf8(ssid), encode_utf8(pass)).update(i, b)) == Stored::Corrupt,
{
    let s = encode_utf8(ssid);
    let w = encode_utf8(pass);
    let r = record_of(s, w);
    let p = payload_of(s, w);
    let c = crc::crc_of(p);
    let q = r.update(i, b).subrange(8, 106);
    bytes::lemma_u32_bytes(MAGIC);
    bytes::lemma_u32_bytes(c);
    assert(q =~= p.update(i - 8, b));
    crc::law_crc_detects_one_changed_byte(p, q, i - 8);
}

/// An erased sector holds nothing.
pub proof fn law_erased_sector_holds_nothing(r: Seq<u8>)
    requires
        r.len() == RECORD_SIZE,
        forall|i: int| 0 <= i < r.len() ==> r[i] == 0xFFu8,
    ensures
        stored(r) == Stored::Nothing,
{
}

/// Copies `src` into `dst` at `at`.
pub(crate) fn put_bytes(dst: &mut [u8], at: usize, src: &[u8])
    requires
        at + src@.len() <= old(dst)@.len(),
    ensures
        final(dst)@.len() == old(dst)@.len(),
        forall|j: int|
            0 <= j < old(dst)@.len() ==> #[trigger] final(dst)@[j] == (if at <= j < at
                + src@.len() {
                src@[j - at]
            } else {
                old(dst)@[j]
            }),
{
    let mut i: usize = 0;
    let ghost before = dst@;
    let n: usize = dst.len();
    while i < src.len()
        invariant
            0 <= i <= src@.len(),
            at + src@.len() <= before.len(),
            dst@.len() == before.len(),
            before.len() == n,
            forall|j: int|
                0 <= j < before.len() ==> #[trigger] dst@[j] == (if at <= j < at + i {
                    src@[j - at]
                } else {
                    before[j]
                }),
        decreases src@.len() - i,
    {
        dst[at + i] = src[i];
        i = i + 1;
    }
}

/// Reads a record back.
pub fn decode_record(buf: &[u8]) -> (r: Result<Option<WifiCredentials>, StorageError>)
    requires
        buf@.len() == RECORD_SIZE,
    ensures
        load_outcome(buf@, r),
{
    let magic: u32 = join32(buf[3], buf[2], buf[1], buf[0]);
    if magic != MAGIC {
        return Ok(None);
    }
    let stored_crc: u32 = join32(buf[7], buf[6], buf[5], buf[4]);
    let payload: &[u8] = vstd::slice::slice_subrange(buf, HEADER_SIZE, HEADER_SIZE + PAYLOAD_SIZE);
    if stored_crc != crc32(payload) {
        return Err(StorageError::CrcMismatch);
    }
    let ssid_len: usize = payload[0] as usize;
    if ssid_len > MAX_SSID_LEN {
        return Err(StorageError::CrcMismatch);
    }
    let ssid_bytes: &[u8] = vstd::slice::slice_subrange(payload, 1, 1 + ssid_len);
    let pass_len: usize = payload[33] as usize;
    if pass_len > MAX_PASSWORD_LEN {
        return Err(StorageError::CrcMismatch);
    }
    let pass_bytes: &[u8] = vstd::slice::slice_subrange(payload, 34, 34 + pass_len);
    match str_from_utf8(ssid_bytes) {
        None => Err(StorageError::CrcMismatch),
        Some(ssid) => match str_from_utf8(pass_bytes) {
            None => Err(StorageError::CrcMismatch),
            Some(password) => Ok(
                Some(WifiCredentials { ssid: ssid.to_owned(), password: password.to_owned() }),
            ),
        },
    }
}

/// Builds the record for `credentials`.
pub fn encode_record(credentials: &WifiCredentials) -> (r: Result<Vec<u8>, StorageError>)
    ensures
        ({
            let ssid = encode_utf8(credentials.ssid@);
            let pass = encode_utf8(credentials.password@);
            match r {
                Ok(record) => ssid.len() <= 32 && pass.len() <= 64 && record@ == record_of(
                    ssid,
                    pass,
                ),
                Err(e) => if ssid.len() > 32 {
                    e == StorageError::SsidTooLong
                } else {
                    pass.len() > 64 && e == StorageError::PasswordTooLong
                },
            }
        }),
{
    let ssid: &[u8] = credentials.ssid.as_str().as_bytes();
    let pass: &[u8] = credentials.password.as_str().as_bytes();
    if ssid.len() > MAX_SSID_LEN {
        return Err(StorageError::SsidTooLong);
    }
    if pass.len() > MAX_PASSWORD_LEN {
        return Err(StorageError::PasswordTooLong);
    }
    let mut payload: Vec<u8> = vec![0u8; PAYLOAD_SIZE];
    payload.set(0, ssid.len() as u8);
    put_bytes(&mut payload, 1, ssid);
    payload.set(33, pass.len() as u8);
    put_bytes(&mut payload, 34, pass);
    assert(payload@ =~= payload_of(ssid@, pass@));
    let crc: u32 = crc32(payload.as_slice());
    let mut record: Vec<u8> = vec![0u8; RECORD_SIZE];
    let magic_bytes: [u8; 4] = bytes_le32(MAGIC);
    let crc_bytes: [u8; 4] = bytes_le32(crc);
    put_bytes(&mut record, 0, magic_bytes.as_slice());
    put_bytes(&mut record, 4, crc_bytes.as_slice());
    put_bytes(&mut record, HEADER_SIZE, payload.as_slice());
    assert(record@ =~= record_of(ssid@, pass@));
    Ok(record)
}

/// Where the credentials are kept.
#[derive(Debug, Clone, Copy, PartialEq, Eq, Structural)]
pub struct CredentialStorage {
    pub offset: u32,
}

impl CredentialStorage {
    /// Storage at the default place.
    pub fn new() -> (r: CredentialStorage)
        ensures
            r.offset == DEFAULT_STORAGE_OFFSET,
    {
        CredentialStorage { offset: DEFAULT_STORAGE_OFFSET }
    }

    /// Storage at a place of one's own, which must lie on a sector boundary.
    pub fn with_offset(offset: u32) -> (r: CredentialStorage)
        requires
            offset % 4096 == 0,
        ensures
            r.offset == offset,
    {
        CredentialStorage { offset }
    }

    /// The sector to erase before a record is written, and to clear it.
    pub fn sector(&self) -> (r: SectorWrite)
        requires
            self.offset + 4096 <= u32::MAX,
        ensures
            r.offset == self.offset,
            r.end == self.offset + 4096,
    {
        SectorWrite { offset: self.offset, end: self.offset + 4096 }
    }

    /// What a read of the record gives; `None` where the read failed.
    pub fn load(&self, read: Option<&[u8]>) -> (r: Result<Option<WifiCredentials>, StorageError>)
        requires
            read is Some ==> read->0@.len() == RECORD_SIZE,
        ensures
            match read {
                None => r matches Err(e) && e == StorageError::FlashError,
                Some(buf) => load_outcome(buf@, r),
            },
    {
        match read {
            None => Err(StorageError::FlashError),
            Some(buf) => decode_record(buf),
        }
    }

    /// The record to write after the sector was erased.
    pub fn save(&self, credentials: &WifiCredentials) -> (r: Result<Vec<u8>, StorageError>)
        ensures
            ({
                let ssid = encode_utf8(credentials.ssid@);
                let pass = encode_utf8(credentials.password@);
                match r {
                    Ok(record) => ssid.len() <= 32 && pass.len() <= 64 && record@ == record_of(
                        ssid,
                        pass,
                    ),
                    Err(e) => if ssid.len() > 32 {
                        e == StorageError::SsidTooLong
                    } else {
                        pass.len() > 64 && e == StorageError::PasswordTooLong
                    },
                }
            }),
    {
        encode_record(credentials)
    }

    /// The sector whose erasure clears the credentials.
    pub fn clear(&self) -> (r: SectorWrite)
        requires
            self.offset + 4096 <= u32::MAX,
        ensures
            r.offset == self.offset,
            r.end == self.offset + 4096,
    {
        self.sector()
    }

    /// Whether a read of the record's header shows that credentials are there.
    pub fn has_credentials(&self, read: Option<&[u8]>) -> (r: bool)
        requires
            read is Some ==> read->0@.len() == HEADER_SIZE,
        ensures
            r == (read is Some && word_at(read->0@, 0) == MAGIC),
    {
        match read {
            None => false,
            Some(buf) => join32(buf[3], buf[2], buf[1], buf[0]) == MAGIC,
        }
    }
}

/// The layout of a record, byte by byte: the mark, the checksum of the payload,
/// both with the low byte first, then the payload: the length of the SSID, 32
/// bytes for it, the length of the password, 64 bytes for it.
pub proof fn law_record_has_its_layout(ssid: Seq<u8>, pass: Seq<u8>, i: int, j: int)
    requires
        ssid.len() <= 32,
        pass.len() <= 64,
        0 <= i < 32,
        0 <= j < 64,
    ensures
        ({
            let r = record_of(ssid, pass);
            &&& r.len() == 108
            &&& r[0] == 0x0D && r[1] == 0xF0 && r[2] == 0xFE && r[3] == 0xCA
            &&& r[4] + r[5] * 0x100 + r[6] * 0x1_0000 + r[7] * 0x100_0000 == crc::crc_of(
                r.subrange(8, 106),
            )
            &&& r[8] == ssid.len()
            &&& r[9 + i] == (if i < ssid.len() {
                ssid[i]
            } else {
                0
            })
            &&& r[41] == pass.len()
            &&& r[106] == 0 && r[107] == 0
            &&& r[42 + j] == (if j < pass.len() {
                pass[j]
            } else {
                0
            })
        }),
{
    let r = record_of(ssid, pass);
    let p = payload_of(ssid, pass);
    assert(r.subrange(8, 106) =~= p);
    assert(r[9 + i] == p[1 + i]);
    assert(r[42 + j] == p[34 + j]);
}

/// A record that was never written counts as none, and one that does not match
/// its checksum as corrupted; only what is stored is loaded.
pub proof fn law_foreign_records_hold_nothing(
    r: Seq<u8>,
    out: Result<Option<WifiCredentials>, StorageError>,
)
    requires
        r.len() == 108,
        load_outcome(r, out),
    ensures
        !(r[0] == 0x0D && r[1] == 0xF0 && r[2] == 0xFE && r[3] == 0xCA) ==> out is Ok
            && out->Ok_0 is None,
        out is Err ==> out->Err_0 == StorageError::CrcMismatch,
        out is Ok && out->Ok_0 is Some ==> {
            let c = out->Ok_0->0;
            &&& r[0] == 0x0D && r[1] == 0xF0 && r[2] == 0xFE && r[3] == 0xCA
            &&& r[8] <= 32 && r[41] <= 64
            &&& encode_utf8(c.ssid@) == r.subrange(9, 9 + r[8])
            &&& encode_utf8(c.password@) == r.subrange(42, 42 + r[41])
        },
{
    if let Stored::Present(ssid, pass) = stored(r) {
        let p = r.subrange(8, 106);
        assert(p.subrange(1, 1 + p[0]) =~= r.subrange(9, 9 + r[8]));
        assert(p.subrange(34, 34 + p[33]) =~= r.subrange(42, 42 + r[41]));
        decode_utf8_encode_utf8(p.subrange(1, 1 + p[0]));
        decode_utf8_encode_utf8(p.subrange(34, 34 + p[33]));
    }
}

} // verus!
