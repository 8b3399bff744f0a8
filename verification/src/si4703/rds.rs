//! RDS decoding: station name, RadioText with its Plus tags, clock time,
//! programme type, programme identification and alternative frequencies.

use vstd::prelude::*;
use vstd::utf8::*;

use crate::bytes;
use crate::bytes::{high_byte, low_byte};
use crate::rt_plus_parser;
use crate::rt_plus_parser::{decode_rt_plus, RtPlusPayload, RtPlusTag};
use crate::strings;
use crate::strings::str_from_utf8;

verus! {

/// Longest RadioText message in bytes.
pub const RT_MAX_LEN: usize = 64;

/// Longest list of alternative frequencies.
pub const AF_LIST_MAX: usize = 25;

/// Codes from here to [`AF_LIST_LEAD_MAX`] start a new list and announce its
/// length.
pub const AF_LIST_LEAD_BASE: u8 = 224;

pub const AF_LIST_LEAD_MAX: u8 = 249;

/// Codes from here to [`AF_FREQ_MAX`] are frequencies.
pub const AF_FREQ_MIN: u8 = 1;

pub const AF_FREQ_MAX: u8 = 204;

/// Frequency code `n` stands for this plus `n`, in 0.1 MHz.
pub const AF_FREQ_BASE_X10: u16 = 875;

/// Application identifier under which RadioText Plus is registered.
pub const RT_PLUS_AID: u16 = 0x4BD7;

/// RadioText Plus content type of a song's title.
pub const RT_PLUS_TITLE: u8 = 1;

/// RadioText Plus content type of a song's artist.
pub const RT_PLUS_ARTIST: u8 = 4;

// ---------------------------------------------------------------------------
// Text
// ---------------------------------------------------------------------------

/// `b` without the spaces and zeros at its end.
pub open spec fn unpadded(b: Seq<u8>) -> Seq<u8>
    decreases b.len(),
{
    if b.len() > 0 && (b.last() == 32 || b.last() == 0) {
        unpadded(b.drop_last())
    } else {
        b
    }
}

/// Whether two bytes look like one GB2312 character.
pub open spec fn gb_pair(lead: u8, trail: u8) -> bool {
    0xA1 <= lead <= 0xFE && (0xA1 <= trail <= 0xFE || 0x40 <= trail <= 0x7E || trail == 0x80)
}

/// Text that is not UTF-8: printable ASCII as it is, one `?` for a pair that
/// looks like a GB2312 character, one for any other byte.
pub open spec fn fallback_text(b: Seq<u8>) -> Seq<char>
    decreases b.len(),
{
    if b.len() == 0 {
        Seq::empty()
    } else if 0x20 <= b[0] <= 0x7E {
        seq![b[0] as char] + fallback_text(b.skip(1))
    } else if b.len() > 1 && gb_pair(b[0], b[1]) {
        seq!['?'] + fallback_text(b.skip(2))
    } else {
        seq!['?'] + fallback_text(b.skip(1))
    }
}

/// The text that RDS bytes stand for.
pub open spec fn rds_text(b: Seq<u8>) -> Seq<char> {
    let t = unpadded(b);
    if valid_utf8(t) {
        decode_utf8(t)
    } else {
        fallback_text(t)
    }
}

/// Decodes RDS bytes for display.
pub fn decode_rds_text(bytes: &[u8]) -> (r: String)
    ensures
        r@ == rds_text(bytes@),
{
    let mut end: usize = bytes.len();
    assert(bytes@.take(end as int) =~= bytes@);
    while end > 0 && (bytes[end - 1] == 32 || bytes[end - 1] == 0)
        invariant
            0 <= end <= bytes@.len(),
            unpadded(bytes@) == unpadded(bytes@.take(end as int)),
        decreases end,
    {
        assert(bytes@.take(end as int).drop_last() =~= bytes@.take(end - 1));
        end = end - 1;
    }
    let trimmed: &[u8] = vstd::slice::slice_subrange(bytes, 0, end);
    assert(trimmed@ =~= bytes@.take(end as int));
    assert(trimmed@ == unpadded(bytes@));
    match str_from_utf8(trimmed) {
        Some(s) => {
            return s.to_owned();
        },
        None => {},
    }
    let mut out: String = String::new();
    let mut i: usize = 0;
    assert(trimmed@.skip(0) =~= trimmed@);
    while i < trimmed.len()
        invariant
            0 <= i <= trimmed@.len(),
            out@ + fallback_text(trimmed@.skip(i as int)) == fallback_text(trimmed@),
        decreases trimmed@.len() - i,
    {
        let ghost rest = trimmed@.skip(i as int);
        let ghost before = out@;
        let byte: u8 = trimmed[i];
        if 0x20 <= byte && byte <= 0x7E {
            out.push(byte as char);
            assert(rest.skip(1) =~= trimmed@.skip(i + 1));
            assert(before + (seq![byte as char] + fallback_text(rest.skip(1))) =~= out@
                + fallback_text(rest.skip(1)));
            i = i + 1;
        } else if i + 1 < trimmed.len() && is_gb_pair(byte, trimmed[i + 1]) {
            out.push('?');
            assert(rest.skip(2) =~= trimmed@.skip(i + 2));
            assert(before + (seq!['?'] + fallback_text(rest.skip(2))) =~= out@ + fallback_text(
                rest.skip(2),
            ));
            i = i + 2;
        } else {
            out.push('?');
            assert(rest.skip(1) =~= trimmed@.skip(i + 1));
            assert(before + (seq!['?'] + fallback_text(rest.skip(1))) =~= out@ + fallback_text(
                rest.skip(1),
            ));
            i = i + 1;
        }
    }
    assert(out@ + Seq::<char>::empty() =~= out@);
    out
}

/// Bytes that are all padding stand for no text.
pub proof fn lemma_padding_is_no_text(b: Seq<u8>)
    requires
        forall|i: int| 0 <= i < b.len() ==> #[trigger] b[i] == 32,
    ensures
        rds_text(b) == Seq::<char>::empty(),
    decreases b.len(),
{
    if b.len() > 0 {
        lemma_padding_is_no_text(b.drop_last());
    } else {
        assert(b =~= encode_utf8(Seq::<char>::empty()));
        encode_utf8_decode_utf8(Seq::<char>::empty());
    }
}

fn is_gb_pair(lead: u8, trail: u8) -> (r: bool)
    ensures
        r == gb_pair(lead, trail),
{
    0xA1 <= lead && lead <= 0xFE && ((0xA1 <= trail && trail <= 0xFE) || (0x40 <= trail && trail
        <= 0x7E) || trail == 0x80)
}

/// Text that was not padded and is UTF-8 is shown as it is.
pub proof fn law_utf8_text_is_shown_verbatim(s: Seq<char>)
    requires
        encode_utf8(s).len() > 0,
        encode_utf8(s).last() != 32,
        encode_utf8(s).last() != 0,
    ensures
        rds_text(encode_utf8(s)) == s,
{
    encode_utf8_valid_utf8(s);
    encode_utf8_decode_utf8(s);
}

// ---------------------------------------------------------------------------
// Clock time
// ---------------------------------------------------------------------------

/// A clock-time group.
#[derive(Clone, Copy, Debug, PartialEq, Eq, Structural)]
pub struct RdsClockTime {
    pub utc_hour: u8,
    pub utc_minute: u8,
    /// Offset of local time in half hours.
    pub local_offset_half_hours: i8,
}

/// Hour and minute of a number of minutes, taken modulo one day.
pub open spec fn hh_mm(minutes: int) -> (u8, u8) {
    ((minutes % 1440 / 60) as u8, (minutes % 1440 % 60) as u8)
}

impl RdsClockTime {
    /// Local hour and minute.
    pub fn local_hh_mm(self) -> (r: (u8, u8))
        ensures
            r == hh_mm(
                self.utc_hour * 60 + self.utc_minute + self.local_offset_half_hours * 30,
            ),
            r.0 < 24,
            r.1 < 60,
    {
        // One day's minutes are added four times, so that the sum is positive.
        let total: i32 = self.utc_hour as i32 * 60 + self.utc_minute as i32
            + self.local_offset_half_hours as i32 * 30 + 5760;
        let m: u32 = total as u32 % 1440;
        ((m / 60) as u8, (m % 60) as u8)
    }
}

// ---------------------------------------------------------------------------
// Programme type
// ---------------------------------------------------------------------------

/// Short name of a programme type.
pub open spec fn pty_name(code: u8) -> Seq<char> {
    if code == 0 {
        "None"@
    } else if code == 1 {
        "News"@
    } else if code == 2 {
        "Info"@
    } else if code == 3 {
        "Sports"@
    } else if code == 4 {
        "Talk"@
    } else if code == 5 {
        "Rock"@
    } else if code == 6 {
        "ClsRock"@
    } else if code == 7 {
        "AdltHit"@
    } else if code == 8 {
        "SoftRck"@
    } else if code == 9 {
        "Top 40"@
    } else if code == 10 {
        "Country"@
    } else if code == 11 {
        "Oldies"@
    } else if code == 12 {
        "Soft"@
    } else if code == 13 {
        "Nostlga"@
    } else if code == 14 {
        "Jazz"@
    } else if code == 15 {
        "Classic"@
    } else if code == 16 {
        "R&B"@
    } else if code == 17 {
        "SoftR&B"@
    } else if code == 18 {
        "Lang"@
    } else if code == 19 {
        "RelMusc"@
    } else if code == 20 {
        "RelTalk"@
    } else if code == 21 {
        "Persnly"@
    } else if code == 22 {
        "Public"@
    } else if code == 23 {
        "College"@
    } else if code <= 28 {
        "Unassgn"@
    } else if code == 29 {
        "Weather"@
    } else if code == 30 {
        "Test"@
    } else if code == 31 {
        "Alert!"@
    } else {
        "--"@
    }
}

/// Short name of a programme type.
pub fn pty_label(code: u8) -> (r: &'static str)
    ensures
        r@ == pty_name(code),
{
    match code {
        0 => "None",
        1 => "News",
        2 => "Info",
        3 => "Sports",
        4 => "Talk",
        5 => "Rock",
        6 => "ClsRock",
        7 => "AdltHit",
        8 => "SoftRck",
        9 => "Top 40",
        10 => "Country",
        11 => "Oldies",
        12 => "Soft",
        13 => "Nostlga",
        14 => "Jazz",
        15 => "Classic",
        16 => "R&B",
        17 => "SoftR&B",
        18 => "Lang",
        19 => "RelMusc",
        20 => "RelTalk",
        21 => "Persnly",
        22 => "Public",
        23 => "College",
        24..=28 => "Unassgn",
        29 => "Weather",
        30 => "Test",
        31 => "Alert!",
        _ => "--",
    }
}

// ---------------------------------------------------------------------------
// The decoder
// ---------------------------------------------------------------------------

/// What a decoder has gathered about the station.
pub struct RdsState {
    /// Station name, eight bytes.
    pub ps: Seq<u8>,
    /// Which of its four segments were received.
    pub ps_seen: Seq<bool>,
    /// RadioText buffer, 64 bytes.
    pub rt: Seq<u8>,
    /// Bytes of it that belong to the message.
    pub rt_len: nat,
    /// Which of its sixteen segments were received.
    pub rt_seen: Seq<bool>,
    /// Flag that flips with every new message.
    pub rt_flag: Option<bool>,
    pub rt_complete: bool,
    /// Clock time that was not taken yet.
    pub clock: Option<RdsClockTime>,
    pub pty: Option<u8>,
    pub pi: Option<u16>,
    /// Alternative frequencies.
    pub af: Seq<u16>,
    /// Announced length of that list; `None` while none was announced.
    pub af_expected: Option<u8>,
    /// Whether RadioText Plus was registered.
    pub plus_registered: bool,
    pub plus: Option<RtPlusPayload>,
}

/// Whether every part of the station name has arrived.
pub open spec fn name_complete(s: RdsState) -> bool {
    forall|i: int| 0 <= i < 4 ==> #[trigger] s.ps_seen[i]
}

/// Nothing gathered yet.
pub open spec fn blank() -> RdsState {
    RdsState {
        ps: Seq::new(8, |i: int| 32u8),
        ps_seen: Seq::new(4, |i: int| false),
        rt: Seq::new(64, |i: int| 32u8),
        rt_len: 0,
        rt_seen: Seq::new(16, |i: int| false),
        rt_flag: None,
        rt_complete: false,
        clock: None,
        pty: None,
        pi: None,
        af: Seq::empty(),
        af_expected: None,
        plus_registered: false,
        plus: None,
    }
}

/// Group number: the upper four bits of block B.
pub open spec fn group_of(b: u16) -> u16 {
    b / 4096
}

/// Whether the group is of version B: the bit below the group number.
pub open spec fn is_version_b(b: u16) -> bool {
    b / 2048 % 2 == 1
}

/// Whether the list takes one more: it has not reached the length that was
/// announced for it, nor the longest that there is.
pub open spec fn af_room(af: Seq<u16>, expected: Option<u8>) -> bool {
    af.len() < AF_LIST_MAX && (expected matches Some(n) ==> af.len() < n)
}

/// The list after one alternative-frequency code.
pub open spec fn af_list(af: Seq<u16>, expected: Option<u8>, code: u8) -> Seq<u16> {
    let freq = (AF_FREQ_BASE_X10 + code) as u16;
    if AF_LIST_LEAD_BASE <= code <= AF_LIST_LEAD_MAX {
        Seq::empty()
    } else if AF_FREQ_MIN <= code <= AF_FREQ_MAX && !af.contains(freq) && af_room(af, expected) {
        af.push(freq)
    } else {
        af
    }
}

/// The announced length after one alternative-frequency code.
pub open spec fn af_announced(expected: Option<u8>, code: u8) -> Option<u8> {
    if AF_LIST_LEAD_BASE <= code <= AF_LIST_LEAD_MAX {
        Some((code - AF_LIST_LEAD_BASE) as u8)
    } else {
        expected
    }
}

/// The state after one alternative-frequency code.
pub open spec fn with_af_code(s: RdsState, code: u8) -> RdsState {
    RdsState {
        af: af_list(s.af, s.af_expected, code),
        af_expected: af_announced(s.af_expected, code),
        ..s
    }
}

/// Groups 0A and 0B: two characters of the station name, and in 0A two
/// alternative-frequency codes.
pub open spec fn with_name(s: RdsState, b: u16, c: u16, d: u16) -> RdsState {
    let seg = b % 4;
    let t = RdsState {
        ps: s.ps.update(2 * seg as int, bytes::hi8(d)).update(2 * seg + 1, bytes::lo8(d)),
        ps_seen: s.ps_seen.update(seg as int, true),
        ..s
    };
    if is_version_b(b) {
        t
    } else {
        with_af_code(with_af_code(t, bytes::hi8(c)), bytes::lo8(c))
    }
}

/// A flipped flag starts a new RadioText message.
pub open spec fn with_flag(s: RdsState, b: u16) -> RdsState {
    let flag = b / 16 % 2 == 1;
    if s.rt_flag == Some(flag) {
        s
    } else {
        RdsState {
            rt: Seq::new(64, |i: int| 32u8),
            rt_len: 0,
            rt_seen: Seq::new(16, |i: int| false),
            rt_complete: false,
            rt_flag: Some(flag),
            ..s
        }
    }
}

/// The characters of a RadioText group.
pub open spec fn rt_chars(b: u16, c: u16, d: u16) -> Seq<u8> {
    if is_version_b(b) {
        seq![bytes::hi8(d), bytes::lo8(d)]
    } else {
        seq![bytes::hi8(c), bytes::lo8(c), bytes::hi8(d), bytes::lo8(d)]
    }
}

/// Groups 2A and 2B: characters of the RadioText message. A carriage return
/// ends it.
pub open spec fn with_text(s0: RdsState, b: u16, c: u16, d: u16) -> RdsState {
    let s = with_flag(s0, b);
    let chars = rt_chars(b, c, d);
    let seg = (b % 16) as int;
    let base = seg * chars.len();
    let end = strings::find_from(chars, 13u8, 0);
    let seen = s.rt_seen.update(seg, true);
    if end < chars.len() {
        RdsState {
            rt: Seq::new(
                64,
                |i: int|
                    if base <= i < base + end {
                        chars[i - base]
                    } else if i >= base + end {
                        32u8
                    } else {
                        s.rt[i]
                    },
            ),
            rt_len: (base + end) as nat,
            rt_seen: seen,
            rt_complete: true,
            ..s
        }
    } else {
        RdsState {
            rt: Seq::new(
                64,
                |i: int|
                    if base <= i < base + chars.len() {
                        chars[i - base]
                    } else {
                        s.rt[i]
                    },
            ),
            rt_len: if base + chars.len() > s.rt_len {
                (base + chars.len()) as nat
            } else {
                s.rt_len
            },
            rt_seen: seen,
            rt_complete: s.rt_complete || (forall|i: int| 0 <= i < 16 ==> #[trigger] seen[i]),
            ..s
        }
    }
}

/// The clock time in a group 4A, if its fields are in range.
pub open spec fn clock_in(c: u16, d: u16) -> Option<RdsClockTime> {
    let hour = c % 2 * 16 + d / 4096;
    let minute = d / 64 % 64;
    let magnitude = d % 32;
    if hour > 23 || minute > 59 || magnitude > 24 {
        None
    } else {
        Some(
            RdsClockTime {
                utc_hour: hour as u8,
                utc_minute: minute as u8,
                local_offset_half_hours: if d / 32 % 2 == 1 {
                    (-magnitude) as i8
                } else {
                    magnitude as i8
                },
            },
        )
    }
}

/// What a group adds beside its identification and programme type.
pub open spec fn with_group(s: RdsState, b: u16, c: u16, d: u16) -> RdsState {
    if group_of(b) == 0 {
        with_name(s, b, c, d)
    } else if group_of(b) == 2 {
        with_text(s, b, c, d)
    } else if group_of(b) == 3 && !is_version_b(b) && d == RT_PLUS_AID {
        RdsState { plus_registered: true, ..s }
    } else if group_of(b) == 4 && !is_version_b(b) && clock_in(c, d) is Some {
        RdsState { clock: clock_in(c, d), ..s }
    } else if group_of(b) == 11 && !is_version_b(b) && s.plus_registered {
        RdsState { plus: Some(rt_plus_parser::payload_in(b, c, d)), ..s }
    } else {
        s
    }
}

/// What a group adds. Every group carries the programme identification in
/// block A and the programme type in block B.
pub open spec fn processed(s: RdsState, a: u16, b: u16, c: u16, d: u16) -> RdsState {
    with_group(RdsState { pi: Some(a), pty: Some((b / 32 % 32) as u8), ..s }, b, c, d)
}

/// The part of the message that a running item's tag of the given type points
/// to, if that part has been received.
pub open spec fn plus_text(s: RdsState, content_type: u8) -> Option<Seq<char>> {
    match s.plus {
        Some(p) => {
            let tag = if p.tag1.content_type == content_type {
                p.tag1
            } else {
                p.tag2
            };
            if p.item_running && tag.content_type == content_type && tag.start + tag.len + 1
                <= s.rt_len {
                Some(rds_text(s.rt.subrange(tag.start as int, tag.start + tag.len + 1)))
            } else {
                None
            }
        },
        None => None,
    }
}

/// Collects what RDS groups say about the tuned station.
pub struct RdsDecoder {
    ps_name: [u8; 8],
    ps_valid: [bool; 4],
    rt_buf: [u8; 64],
    rt_len: usize,
    rt_valid: [bool; 16],
    rt_ab_flag: Option<bool>,
    rt_complete: bool,
    ct_pending: Option<RdsClockTime>,
    pty: Option<u8>,
    pi: Option<u16>,
    af_freqs: Vec<u16>,
    af_expected: Option<u8>,
    plus_registered: bool,
    plus: Option<RtPlusPayload>,
}

impl View for RdsDecoder {
    type V = RdsState;

    closed spec fn view(&self) -> RdsState {
        RdsState {
            ps: self.ps_name@,
            ps_seen: self.ps_valid@,
            rt: self.rt_buf@,
            rt_len: self.rt_len as nat,
            rt_seen: self.rt_valid@,
            rt_flag: self.rt_ab_flag,
            rt_complete: self.rt_complete,
            clock: self.ct_pending,
            pty: self.pty,
            pi: self.pi,
            af: self.af_freqs@,
            af_expected: self.af_expected,
            plus_registered: self.plus_registered,
            plus: self.plus,
        }
    }
}

impl RdsDecoder {
    /// The message fits its buffer, and no alternative frequency is listed
    /// twice, beyond the longest list or beyond the announced length.
    pub open spec fn wf(&self) -> bool {
        &&& self@.rt_len <= RT_MAX_LEN
        &&& self@.af.len() <= AF_LIST_MAX
        &&& self@.af.no_duplicates()
        &&& self@.af_expected matches Some(n) ==> self@.af.len() <= n
    }

    /// A decoder that has seen nothing.
    pub fn new() -> (r: RdsDecoder)
        ensures
            r.wf(),
            r@ == blank(),
    {
        let r: RdsDecoder = RdsDecoder {
            ps_name: [32u8; 8],
            ps_valid: [false; 4],
            rt_buf: [32u8; 64],
            rt_len: 0,
            rt_valid: [false; 16],
            rt_ab_flag: None,
            rt_complete: false,
            ct_pending: None,
            pty: None,
            pi: None,
            af_freqs: Vec::new(),
            af_expected: None,
            plus_registered: false,
            plus: None,
        };
        proof {
            let b = blank();
            assert(r@.ps =~= b.ps);
            assert(r@.ps_seen =~= b.ps_seen);
            assert(r@.rt =~= b.rt);
            assert(r@.rt_seen =~= b.rt_seen);
            assert(r@.af =~= b.af);
        }
        r
    }

    /// Forgets everything: another station was tuned.
    pub fn reset(&mut self)
        ensures
            final(self).wf(),
            final(self)@ == blank(),
    {
        *self = RdsDecoder::new();
    }

    /// Takes the four blocks of a group. Returns whether the station name is
    /// complete.
    pub fn process(&mut self, block_a: u16, block_b: u16, block_c: u16, block_d: u16) -> (r: bool)
        requires
            old(self).wf(),
        ensures
            final(self).wf(),
            final(self)@ == processed(old(self)@, block_a, block_b, block_c, block_d),
            r == name_complete(final(self)@),
    {
        let group_type: u16 = block_b / 4096;
        let version_b: bool = block_b / 2048 % 2 == 1;
        self.pi = Some(block_a);
        self.pty = Some((block_b / 32 % 32) as u8);
        if group_type == 0 {
            self.process_name(block_b, block_c, block_d, version_b);
        } else if group_type == 2 {
            self.process_rt(block_b, block_c, block_d, version_b);
        } else if group_type == 3 && !version_b {
            if block_d == RT_PLUS_AID {
                self.plus_registered = true;
            }
        } else if group_type == 4 && !version_b {
            self.process_ct(block_c, block_d);
        } else if group_type == 11 && !version_b {
            if self.plus_registered {
                self.plus = Some(decode_rt_plus(block_b, block_c, block_d));
            }
        }
        self.is_complete()
    }

    fn process_name(&mut self, block_b: u16, block_c: u16, block_d: u16, version_b: bool)
        requires
            old(self).wf(),
            version_b == is_version_b(block_b),
        ensures
            final(self).wf(),
            final(self)@ == with_name(old(self)@, block_b, block_c, block_d),
    {
        let segment: usize = (block_b % 4) as usize;
        self.ps_name[segment * 2] = high_byte(block_d);
        self.ps_name[segment * 2 + 1] = low_byte(block_d);
        self.ps_valid[segment] = true;
        if !version_b {
            self.process_af_codes(high_byte(block_c), low_byte(block_c));
        }
    }

    /// Takes the two alternative-frequency codes of a group 0A.
    fn process_af_codes(&mut self, code_a: u8, code_b: u8)
        requires
            old(self).wf(),
        ensures
            final(self).wf(),
            final(self)@ == with_af_code(with_af_code(old(self)@, code_a), code_b),
    {
        self.process_single_af_code(code_a);
        self.process_single_af_code(code_b);
    }

    fn process_single_af_code(&mut self, code: u8)
        requires
            old(self).wf(),
        ensures
            final(self).wf(),
            final(self)@ == with_af_code(old(self)@, code),
    {
        if AF_LIST_LEAD_BASE <= code && code <= AF_LIST_LEAD_MAX {
            self.af_freqs = Vec::new();
            self.af_expected = Some(code - AF_LIST_LEAD_BASE);
            return;
        }
        if code < AF_FREQ_MIN || code > AF_FREQ_MAX {
            return;
        }
        let freq_x10: u16 = AF_FREQ_BASE_X10 + code as u16;
        let mut i: usize = 0;
        while i < self.af_freqs.len()
            invariant
                0 <= i <= self.af_freqs@.len(),
                *self == *old(self),
                old(self).wf(),
                AF_FREQ_MIN <= code <= AF_FREQ_MAX,
                freq_x10 == AF_FREQ_BASE_X10 + code,
                forall|j: int| 0 <= j < i ==> self.af_freqs@[j] != freq_x10,
            decreases self.af_freqs@.len() - i,
        {
            if self.af_freqs[i] == freq_x10 {
                assert(self@.af[i as int] == freq_x10);
                return;
            }
            i = i + 1;
        }
        assert(!self@.af.contains(freq_x10));
        let limit: usize = match self.af_expected {
            Some(n) => n as usize,
            None => AF_LIST_MAX,
        };
        if self.af_freqs.len() < AF_LIST_MAX && self.af_freqs.len() < limit {
            self.af_freqs.push(freq_x10);
        }
    }

    /// Takes a RadioText group: four characters in version A, two in B.
    fn process_rt(&mut self, block_b: u16, block_c: u16, block_d: u16, version_b: bool)
        requires
            old(self).wf(),
            version_b == is_version_b(block_b),
        ensures
            final(self).wf(),
            final(self)@ == with_text(old(self)@, block_b, block_c, block_d),
    {
        let ab: bool = block_b / 16 % 2 == 1;
        let same: bool = match self.rt_ab_flag {
            Some(f) => f == ab,
            None => false,
        };
        if !same {
            self.rt_buf = [32u8; 64];
            self.rt_len = 0;
            self.rt_valid = [false; 16];
            self.rt_complete = false;
            self.rt_ab_flag = Some(ab);
        }
        let ghost s = with_flag(old(self)@, block_b);
        proof {
            if !same {
                assert(self@.rt =~= s.rt);
                assert(self@.rt_seen =~= s.rt_seen);
            }
            assert(self@ == s);
        }
        let segment: usize = (block_b % 16) as usize;
        let mut chars: Vec<u8> = Vec::new();
        if version_b {
            chars.push(high_byte(block_d));
            chars.push(low_byte(block_d));
        } else {
            chars.push(high_byte(block_c));
            chars.push(low_byte(block_c));
            chars.push(high_byte(block_d));
            chars.push(low_byte(block_d));
        }
        assert(chars@ =~= rt_chars(block_b, block_c, block_d));
        let base: usize = if version_b {
            segment * 2
        } else {
            segment * 4
        };
        assert(base == segment * chars@.len());
        let mut i: usize = 0;
        while i < chars.len() && chars[i] != 13
            invariant
                0 <= i <= chars@.len(),
                chars@.len() == 2 || chars@.len() == 4,
                base == segment * chars@.len(),
                segment < 16,
                base + chars@.len() <= 64,
                strings::find_from(chars@, 13u8, 0) == strings::find_from(chars@, 13u8, i as int),
                self@ == (RdsState { rt: self.rt_buf@, ..s }),
                forall|j: int|
                    0 <= j < 64 ==> #[trigger] self.rt_buf@[j] == (if base <= j < base + i {
                        chars@[j - base]
                    } else {
                        s.rt[j]
                    }),
            decreases chars@.len() - i,
        {
            self.rt_buf[base + i] = chars[i];
            i = i + 1;
        }
        self.rt_valid[segment] = true;
        if i < chars.len() {
            let end: usize = base + i;
            self.rt_len = end;
            self.rt_complete = true;
            let mut j: usize = end;
            let ghost seen = self.rt_valid@;
            while j < 64
                invariant
                    end <= j <= 64,
                    end == base + i,
                    i <= chars@.len(),
                    self@ == (RdsState {
                        rt: self.rt_buf@,
                        rt_len: end as nat,
                        rt_complete: true,
                        rt_seen: seen,
                        ..s
                    }),
                    forall|k: int|
                        0 <= k < 64 ==> #[trigger] self.rt_buf@[k] == (if base <= k < base + i {
                            chars@[k - base]
                        } else if end <= k < j {
                            32u8
                        } else {
                            s.rt[k]
                        }),
                decreases 64 - j,
            {
                self.rt_buf[j] = 32;
                j = j + 1;
            }
        } else {
            let candidate: usize = base + chars.len();
            if candidate > self.rt_len {
                self.rt_len = candidate;
            }
            if self.all_segments() {
                self.rt_complete = true;
            }
        }
        assert(self@.rt =~= with_text(old(self)@, block_b, block_c, block_d).rt);
        assert(self@.rt_seen =~= with_text(old(self)@, block_b, block_c, block_d).rt_seen);
    }

    fn all_segments(&self) -> (r: bool)
        ensures
            r == (forall|i: int| 0 <= i < 16 ==> #[trigger] self@.rt_seen[i]),
    {
        let mut i: usize = 0;
        while i < 16
            invariant
                0 <= i <= 16,
                forall|j: int| 0 <= j < i ==> #[trigger] self@.rt_seen[j],
            decreases 16 - i,
        {
            if !self.rt_valid[i] {
                assert(!self@.rt_seen[i as int]);
                return false;
            }
            i = i + 1;
        }
        true
    }

    /// Takes a clock-time group; fields out of range are dropped.
    fn process_ct(&mut self, block_c: u16, block_d: u16)
        requires
            old(self).wf(),
        ensures
            final(self).wf(),
            final(self)@ == (if clock_in(block_c, block_d) is Some {
                RdsState { clock: clock_in(block_c, block_d), ..old(self)@ }
            } else {
                old(self)@
            }),
    {
        let hour: u8 = (block_c % 2 * 16 + block_d / 4096) as u8;
        let minute: u8 = (block_d / 64 % 64) as u8;
        let magnitude: u8 = (block_d % 32) as u8;
        if hour > 23 || minute > 59 || magnitude > 24 {
            return;
        }
        let offset: i8 = if block_d / 32 % 2 == 1 {
            -(magnitude as i8)
        } else {
            magnitude as i8
        };
        self.ct_pending = Some(
            RdsClockTime {
                utc_hour: hour,
                utc_minute: minute,
                local_offset_half_hours: offset,
            },
        );
    }

    /// The station name as received so far; blanks where nothing was.
    pub fn station_name(&self) -> (r: &[u8; 8])
        ensures
            r@ == self@.ps,
    {
        &self.ps_name
    }

    /// The station name as it is, or eight blanks if it is not UTF-8.
    pub fn station_name_str(&self) -> (r: &str)
        ensures
            r@ == (if valid_utf8(self@.ps) {
                decode_utf8(self@.ps)
            } else {
                "        "@
            }),
    {
        match str_from_utf8(self.ps_name.as_slice()) {
            Some(s) => s,
            None => "        ",
        }
    }

    /// The station name for display.
    pub fn station_name_string(&self) -> (r: String)
        ensures
            r@ == rds_text(self@.ps),
    {
        decode_rds_text(self.ps_name.as_slice())
    }

    /// The RadioText message as received so far.
    pub fn radio_text_bytes(&self) -> (r: &[u8])
        requires
            self.wf(),
        ensures
            r@ == self@.rt.take(self@.rt_len as int),
    {
        let r: &[u8] = vstd::slice::slice_subrange(self.rt_buf.as_slice(), 0, self.rt_len);
        assert(r@ =~= self.rt_buf@.take(self.rt_len as int));
        r
    }

    pub fn radio_text_len(&self) -> (r: usize)
        ensures
            r == self@.rt_len,
    {
        self.rt_len
    }

    /// The RadioText message for display.
    pub fn radio_text_string(&self) -> (r: String)
        requires
            self.wf(),
        ensures
            r@ == rds_text(self@.rt.take(self@.rt_len as int)),
    {
        decode_rds_text(self.radio_text_bytes())
    }

    /// Whether the message has ended or all its segments were received.
    pub fn radio_text_complete(&self) -> (r: bool)
        ensures
            r == self@.rt_complete,
    {
        self.rt_complete
    }

    /// Whether all four segments of the station name were received.
    pub fn is_complete(&self) -> (r: bool)
        ensures
            r == name_complete(self@),
    {
        let r: bool = self.ps_valid[0] && self.ps_valid[1] && self.ps_valid[2] && self.ps_valid[3];
        proof {
            let seen = self@.ps_seen;
            assert(seen[0] == self.ps_valid[0]);
            assert(seen[1] == self.ps_valid[1]);
            assert(seen[2] == self.ps_valid[2]);
            assert(seen[3] == self.ps_valid[3]);
        }
        r
    }

    /// Name of the programme type; `None` before the first group and where the
    /// broadcaster reports none.
    pub fn pty_label(&self) -> (r: Option<&'static str>)
        ensures
            match self@.pty {
                Some(code) => if code == 0 {
                    r is None
                } else {
                    r is Some && r->0@ == pty_name(code)
                },
                None => r is None,
            },
    {
        match self.pty {
            Some(code) => {
                if code == 0 {
                    None
                } else {
                    Some(pty_label(code))
                }
            },
            None => None,
        }
    }

    pub fn pty(&self) -> (r: Option<u8>)
        ensures
            r == self@.pty,
    {
        self.pty
    }

    pub fn pi(&self) -> (r: Option<u16>)
        ensures
            r == self@.pi,
    {
        self.pi
    }

    /// The alternative frequencies.
    pub fn alt_freqs(&self) -> (r: &[u16])
        ensures
            r@ == self@.af,
    {
        self.af_freqs.as_slice()
    }

    /// Takes the clock time, so that it is seen once.
    pub fn take_clock_time(&mut self) -> (r: Option<RdsClockTime>)
        requires
            old(self).wf(),
        ensures
            final(self).wf(),
            r == old(self)@.clock,
            final(self)@ == (RdsState { clock: None, ..old(self)@ }),
    {
        let r: Option<RdsClockTime> = self.ct_pending;
        self.ct_pending = None;
        r
    }

    /// Title of the running song.
    pub fn rt_plus_title(&self) -> (r: Option<String>)
        requires
            self.wf(),
        ensures
            match r {
                Some(t) => plus_text(self@, RT_PLUS_TITLE) == Some(t@),
                None => plus_text(self@, RT_PLUS_TITLE) is None,
            },
    {
        self.tagged_text(RT_PLUS_TITLE)
    }

    /// Artist of the running song.
    pub fn rt_plus_artist(&self) -> (r: Option<String>)
        requires
            self.wf(),
        ensures
            match r {
                Some(t) => plus_text(self@, RT_PLUS_ARTIST) == Some(t@),
                None => plus_text(self@, RT_PLUS_ARTIST) is None,
            },
    {
        self.tagged_text(RT_PLUS_ARTIST)
    }

    fn tagged_text(&self, content_type: u8) -> (r: Option<String>)
        requires
            self.wf(),
        ensures
            match r {
                Some(t) => plus_text(self@, content_type) == Some(t@),
                None => plus_text(self@, content_type) is None,
            },
    {
        match self.plus {
            Some(p) => {
                let tag: RtPlusTag = if p.tag1.content_type == content_type {
                    p.tag1
                } else {
                    p.tag2
                };
                if !p.item_running || tag.content_type != content_type {
                    return None;
                }
                let start: usize = tag.start as usize;
                let end: usize = start + tag.len as usize + 1;
                if end > self.rt_len {
                    return None;
                }
                let part: &[u8] = vstd::slice::slice_subrange(self.rt_buf.as_slice(), start, end);
                Some(decode_rds_text(part))
            },
            None => None,
        }
    }
}

impl Default for RdsDecoder {
    fn default() -> (r: Self)
        ensures
            r.wf(),
            r@ == blank(),
    {
        RdsDecoder::new()
    }
}

/// A group never changes what it does not carry: only group 0 touches the
/// station name, only 0A the alternative frequencies, only 2 the RadioText.
pub proof fn law_groups_stay_apart(s: RdsState, a: u16, b: u16, c: u16, d: u16)
    ensures
        ({
            let t = processed(s, a, b, c, d);
            &&& group_of(b) != 0 ==> t.ps == s.ps && t.ps_seen == s.ps_seen
            &&& group_of(b) != 0 || is_version_b(b) ==> t.af == s.af && t.af_expected
                == s.af_expected
            &&& group_of(b) != 2 ==> t.rt == s.rt && t.rt_len == s.rt_len && t.rt_complete
                == s.rt_complete && t.rt_flag == s.rt_flag
            &&& group_of(b) != 4 ==> t.clock == s.clock
            &&& t.pi == Some(a)
        }),
{
}

/// Alternative frequencies always lie between 87.6 and 107.9 MHz.
pub proof fn law_alternatives_in_band(s: RdsState, a: u16, b: u16, c: u16, d: u16)
    requires
        forall|i: int| 0 <= i < s.af.len() ==> 876 <= #[trigger] s.af[i] <= 1079,
    ensures
        forall|i: int|
            0 <= i < processed(s, a, b, c, d).af.len() ==> 876 <= #[trigger] processed(
                s,
                a,
                b,
                c,
                d,
            ).af[i] <= 1079,
{
}

/// Once the length of the list was announced, the list never grows beyond it.
pub proof fn law_list_keeps_to_its_length(s: RdsState, a: u16, b: u16, c: u16, d: u16)
    requires
        s.af_expected matches Some(n) ==> s.af.len() <= n,
    ensures
        processed(s, a, b, c, d).af_expected matches Some(n) ==> processed(s, a, b, c, d).af.len()
            <= n,
{
}

/// A clock time that was decoded is in range, offset included.
pub proof fn law_clock_in_range(c: u16, d: u16)
    requires
        clock_in(c, d) is Some,
    ensures
        clock_in(c, d)->0.utc_hour <= 23,
        clock_in(c, d)->0.utc_minute <= 59,
        -24 <= clock_in(c, d)->0.local_offset_half_hours <= 24,
{
}

/// As long as the flag stays the same, a RadioText group changes the buffer in
/// its own segment and, where it ends the message, behind the end; a flipped
/// flag leaves nothing of the former message.
pub proof fn law_text_stays_until_the_flag_flips(s: RdsState, a: u16, b: u16, c: u16, d: u16, i: int)
    requires
        group_of(b) == 2,
        s.rt.len() == 64,
        0 <= i < 64,
    ensures
        ({
            let t = processed(s, a, b, c, d);
            let n = rt_chars(b, c, d).len();
            let base = (b % 16) * n;
            let flipped = s.rt_flag != Some(b / 16 % 2 == 1);
            &&& !flipped && i < base ==> t.rt[i] == s.rt[i]
            &&& !flipped && i >= base + n && !t.rt_complete ==> t.rt[i] == s.rt[i]
            &&& flipped && !(base <= i < base + n) ==> t.rt[i] == 32
        }),
{
    strings::lemma_find_from(rt_chars(b, c, d), 13u8, 0);
}

/// Block B of the group 2A with segment `k` of a message.
pub open spec fn text_block(flag: bool, k: int) -> u16 {
    (8192 + (if flag {
        16int
    } else {
        0
    }) + k) as u16
}

/// The decoder after the first `n` segments of the message `msg`, sent in
/// groups 2A from station `pi`.
pub open spec fn after_segments(s: RdsState, pi: u16, flag: bool, msg: Seq<u8>, n: int) -> RdsState
    decreases n,
{
    if n <= 0 {
        s
    } else {
        processed(
            after_segments(s, pi, flag, msg, n - 1),
            pi,
            text_block(flag, n - 1),
            bytes::u16_of(msg[4 * n - 4], msg[4 * n - 3]),
            bytes::u16_of(msg[4 * n - 2], msg[4 * n - 1]),
        )
    }
}

/// One more segment of a message, sent in a group 2A.
proof fn lemma_segment(s: RdsState, pi: u16, flag: bool, msg: Seq<u8>, n: int)
    requires
        msg.len() == 64,
        !msg.contains(13),
        1 <= n <= 16,
        if n == 1 {
            s.rt_flag != Some(flag)
        } else {
            &&& s.rt_flag == Some(flag)
            &&& s.rt.len() == 64
            &&& s.rt_len == 4 * n - 4
            &&& s.rt_seen.len() == 16
            &&& !s.rt_complete
        },
    ensures
        ({
            let c = bytes::u16_of(msg[4 * n - 4], msg[4 * n - 3]);
            let d = bytes::u16_of(msg[4 * n - 2], msg[4 * n - 1]);
            let t = processed(s, pi, text_block(flag, n - 1), c, d);
            let seen = if n == 1 {
                Seq::new(16, |i: int| false)
            } else {
                s.rt_seen
            };
            &&& t.rt_flag == Some(flag)
            &&& t.rt.len() == 64
            &&& t.rt_len == 4 * n
            &&& t.rt_seen == seen.update(n - 1, true)
            &&& forall|i: int| 4 * n - 4 <= i < 4 * n ==> #[trigger] t.rt[i] == msg[i]
            &&& n > 1 ==> forall|i: int| 0 <= i < 4 * n - 4 ==> #[trigger] t.rt[i] == s.rt[i]
            &&& t.rt_complete == (forall|i: int| 0 <= i < 16 ==> #[trigger] t.rt_seen[i])
        }),
{
    let b = text_block(flag, n - 1);
    let c = bytes::u16_of(msg[4 * n - 4], msg[4 * n - 3]);
    let d = bytes::u16_of(msg[4 * n - 2], msg[4 * n - 1]);
    assert(group_of(b) == 2 && !is_version_b(b) && b % 16 == n - 1);
    assert((b / 16 % 2 == 1) == flag);
    let chars = rt_chars(b, c, d);
    assert(chars =~= msg.subrange(4 * n - 4, 4 * n));
    strings::lemma_find_from(chars, 13u8, 0);
    let e = strings::find_from(chars, 13u8, 0);
    if e < 4 {
        assert(msg[4 * n - 4 + e] == 13);
    }
    let seg = (b % 16) as int;
    let len = chars.len();
    assert(seg * len == 4 * n - 4) by (nonlinear_arith)
        requires
            seg == n - 1,
            len == 4,
    ;
    let t = processed(s, pi, b, c, d);
    let f = with_flag(RdsState { pi: Some(pi), pty: Some((b / 32 % 32) as u8), ..s }, b);
    assert(t == with_text(RdsState { pi: Some(pi), pty: Some((b / 32 % 32) as u8), ..s }, b, c, d));
    assert(t.rt_seen == f.rt_seen.update(seg, true));
    assert forall|i: int| 4 * n - 4 <= i < 4 * n implies #[trigger] t.rt[i] == msg[i] by {
        assert(chars[i - (4 * n - 4)] == msg[i]);
    }
}

proof fn lemma_segments(s: RdsState, pi: u16, flag: bool, msg: Seq<u8>, n: int)
    requires
        s.rt_flag != Some(flag),
        msg.len() == 64,
        !msg.contains(13),
        1 <= n <= 16,
    ensures
        ({
            let t = after_segments(s, pi, flag, msg, n);
            &&& t.rt_flag == Some(flag)
            &&& t.rt.len() == 64
            &&& t.rt_len == 4 * n
            &&& t.rt_seen == Seq::new(16, |i: int| i < n)
            &&& forall|i: int| 0 <= i < 4 * n ==> #[trigger] t.rt[i] == msg[i]
            &&& t.rt_complete <==> n == 16
        }),
    decreases n,
{
    let t0 = after_segments(s, pi, flag, msg, n - 1);
    let t = after_segments(s, pi, flag, msg, n);
    if n > 1 {
        lemma_segments(s, pi, flag, msg, n - 1);
    } else {
        assert(t0 == s);
    }
    lemma_segment(t0, pi, flag, msg, n);
    assert(t.rt_seen =~= Seq::new(16, |i: int| i < n));
    if n < 16 {
        assert(!t.rt_seen[15]);
    }
}

/// A RadioText message that is sent in full is received in full: after its
/// sixteen segments the decoder holds it byte for byte, and not before it says
/// that the message is complete.
pub proof fn law_text_is_received_as_sent(s: RdsState, pi: u16, flag: bool, msg: Seq<u8>)
    requires
        s.rt_flag != Some(flag),
        msg.len() == 64,
        !msg.contains(13),
    ensures
        after_segments(s, pi, flag, msg, 16).rt.take(64) == msg,
        after_segments(s, pi, flag, msg, 16).rt_len == 64,
        after_segments(s, pi, flag, msg, 16).rt_complete,
        forall|n: int|
            1 <= n < 16 ==> !(#[trigger] after_segments(s, pi, flag, msg, n)).rt_complete,
{
    lemma_segments(s, pi, flag, msg, 16);
    assert(after_segments(s, pi, flag, msg, 16).rt.take(64) =~= msg);
    assert forall|n: int| 1 <= n < 16 implies !(#[trigger] after_segments(
        s,
        pi,
        flag,
        msg,
        n,
    )).rt_complete by {
        lemma_segments(s, pi, flag, msg, n);
    }
}

/// Where `i` stands in an order of four.
spec fn place_of(order: Seq<int>, i: int) -> int {
    if order[0] == i {
        0
    } else if order[1] == i {
        1
    } else if order[2] == i {
        2
    } else {
        3
    }
}

proof fn lemma_place(order: Seq<int>, i: int)
    requires
        order.len() == 4,
        order.no_duplicates(),
        forall|k: int| 0 <= k < 4 ==> 0 <= #[trigger] order[k] < 4,
        0 <= i < 4,
    ensures
        order[place_of(order, i)] == i,
{
    assert(order[0] != order[1] && order[0] != order[2] && order[0] != order[3] && order[1]
        != order[2] && order[1] != order[3] && order[2] != order[3]);
}

/// Four groups with the segments of a station name, in whatever order and with
/// whatever else in them, leave that name complete in the decoder.
pub proof fn law_name_is_received_as_sent(
    s: RdsState,
    name: Seq<u8>,
    order: Seq<int>,
    b: Seq<u16>,
    c: Seq<u16>,
)
    requires
        name.len() == 8,
        s.ps.len() == 8,
        s.ps_seen.len() == 4,
        order.len() == 4 && b.len() == 4 && c.len() == 4,
        order.no_duplicates(),
        forall|k: int| 0 <= k < 4 ==> 0 <= #[trigger] order[k] < 4,
        forall|k: int|
            0 <= k < 4 ==> group_of(#[trigger] b[k]) == 0 && b[k] % 4 == order[k],
    ensures
        ({
            let t = after_names(s, name, order, b, c, 4);
            &&& t.ps == name
            &&& forall|i: int| 0 <= i < 4 ==> #[trigger] t.ps_seen[i]
        }),
{
    lemma_names(s, name, order, b, c, 4);
    let t = after_names(s, name, order, b, c, 4);
    assert forall|i: int| 0 <= i < 4 implies #[trigger] t.ps_seen[i] by {
        lemma_place(order, i);
        assert(t.ps_seen[order[place_of(order, i)]]);
    }
    assert forall|i: int| 0 <= i < 8 implies #[trigger] t.ps[i] == name[i] by {
        lemma_place(order, i / 2);
        let k = place_of(order, i / 2);
        assert(t.ps[2 * order[k]] == name[2 * order[k]]);
        assert(t.ps[2 * order[k] + 1] == name[2 * order[k] + 1]);
    }
    assert(t.ps =~= name);
}

/// The decoder after the first `n` of the groups that carry the segments of
/// `name` in the given order.
pub open spec fn after_names(
    s: RdsState,
    name: Seq<u8>,
    order: Seq<int>,
    b: Seq<u16>,
    c: Seq<u16>,
    n: int,
) -> RdsState
    decreases n,
{
    if n <= 0 {
        s
    } else {
        processed(
            after_names(s, name, order, b, c, n - 1),
            0,
            b[n - 1],
            c[n - 1],
            bytes::u16_of(name[2 * order[n - 1]], name[2 * order[n - 1] + 1]),
        )
    }
}

proof fn lemma_names(
    s: RdsState,
    name: Seq<u8>,
    order: Seq<int>,
    b: Seq<u16>,
    c: Seq<u16>,
    n: int,
)
    requires
        name.len() == 8,
        s.ps.len() == 8,
        s.ps_seen.len() == 4,
        order.len() == 4 && b.len() == 4 && c.len() == 4,
        order.no_duplicates(),
        forall|k: int| 0 <= k < 4 ==> 0 <= #[trigger] order[k] < 4,
        forall|k: int|
            0 <= k < 4 ==> group_of(#[trigger] b[k]) == 0 && b[k] % 4 == order[k],
        0 <= n <= 4,
    ensures
        ({
            let t = after_names(s, name, order, b, c, n);
            &&& t.ps.len() == 8
            &&& t.ps_seen.len() == 4
            &&& forall|k: int|
                0 <= k < n ==> t.ps_seen[#[trigger] order[k]] && t.ps[2 * order[k]] == name[2
                    * order[k]] && t.ps[2 * order[k] + 1] == name[2 * order[k] + 1]
        }),
    decreases n,
{
    if n > 0 {
        lemma_names(s, name, order, b, c, n - 1);
        let x = order[n - 1];
        assert(group_of(b[n - 1]) == 0 && b[n - 1] % 4 == x);
        let d = bytes::u16_of(name[2 * x], name[2 * x + 1]);
        assert(bytes::hi8(d) == name[2 * x] && bytes::lo8(d) == name[2 * x + 1]);
        let t0 = after_names(s, name, order, b, c, n - 1);
        let t = after_names(s, name, order, b, c, n);
        assert(t.ps == t0.ps.update(2 * x, name[2 * x]).update(2 * x + 1, name[2 * x + 1]));
        assert forall|k: int| 0 <= k < n implies t.ps_seen[#[trigger] order[k]] && t.ps[2 * order[k]]
            == name[2 * order[k]] && t.ps[2 * order[k] + 1] == name[2 * order[k] + 1] by {
            if k < n - 1 {
                assert(order[k] != order[n - 1]);
            }
        }
    }
}

// ---------------------------------------------------------------------------
// What a station sends is what the decoder holds
// ---------------------------------------------------------------------------

/// The four blocks of a group.
pub struct Group {
    pub a: u16,
    pub b: u16,
    pub c: u16,
    pub d: u16,
}

/// The decoder after the given groups.
pub open spec fn received(s: RdsState, gs: Seq<Group>) -> RdsState
    decreases gs.len(),
{
    if gs.len() == 0 {
        s
    } else {
        let g = gs.last();
        processed(received(s, gs.drop_last()), g.a, g.b, g.c, g.d)
    }
}

/// How many characters of a message a group carries in either version.
pub open spec fn width(version_b: bool) -> int {
    if version_b {
        2
    } else {
        4
    }
}

/// Whether the group carries segment `k` of the message `msg`; its other bits
/// are whatever they are.
pub open spec fn carries(g: Group, version_b: bool, flag: bool, k: int, msg: Seq<u8>) -> bool {
    &&& g.b / 4096 == 2
    &&& (g.b / 2048 % 2 == 1) == version_b
    &&& (g.b / 16 % 2 == 1) == flag
    &&& g.b % 16 == k
    &&& version_b ==> g.d / 256 == msg[2 * k] && g.d % 256 == msg[2 * k + 1]
    &&& !version_b ==> g.c / 256 == msg[4 * k] && g.c % 256 == msg[4 * k + 1] && g.d / 256 == msg[4
        * k + 2] && g.d % 256 == msg[4 * k + 3]
}

/// What one segment without a carriage return does.
proof fn lemma_any_segment(s: RdsState, g: Group, version_b: bool, flag: bool, k: int, msg: Seq<u8>)
    requires
        msg.len() == 16 * width(version_b),
        !msg.contains(13),
        0 <= k < 16,
        carries(g, version_b, flag, k, msg),
    ensures
        ({
            let n = width(version_b);
            let t = processed(s, g.a, g.b, g.c, g.d);
            let same = s.rt_flag == Some(flag);
            let len = if same {
                s.rt_len as int
            } else {
                0
            };
            let seen = if same {
                s.rt_seen
            } else {
                Seq::new(16, |i: int| false)
            };
            &&& t.rt_flag == Some(flag)
            &&& t.rt.len() == 64
            &&& t.rt_len == (if n * k + n > len {
                n * k + n
            } else {
                len
            })
            &&& t.rt_seen == seen.update(k, true)
            &&& t.rt_complete == ((same && s.rt_complete) || forall|i: int|
                0 <= i < 16 ==> #[trigger] t.rt_seen[i])
            &&& forall|i: int| n * k <= i < n * k + n ==> #[trigger] t.rt[i] == msg[i]
            &&& forall|i: int|
                0 <= i < 64 && !(n * k <= i < n * k + n) ==> #[trigger] t.rt[i] == (if same {
                    s.rt[i]
                } else {
                    32u8
                })
        }),
{
    let chars = rt_chars(g.b, g.c, g.d);
    let n = width(version_b);
    assert(chars =~= msg.subrange(n * k, n * k + n));
    strings::lemma_find_from(chars, 13u8, 0);
    let e = strings::find_from(chars, 13u8, 0);
    if e < n {
        assert(chars[e] == msg[n * k + e]);
        assert(msg[n * k + e] == 13);
    }
    let seg = (g.b % 16) as int;
    let len = chars.len();
    assert(seg * len == n * k) by (nonlinear_arith)
        requires
            seg == k,
            len == n,
    ;
    let s1 = RdsState { pi: Some(g.a), pty: Some((g.b / 32 % 32) as u8), ..s };
    let f = with_flag(s1, g.b);
    let t = processed(s, g.a, g.b, g.c, g.d);
    assert(t == with_text(s1, g.b, g.c, g.d));
    assert(t.rt_seen == f.rt_seen.update(seg, true));
    assert forall|i: int| n * k <= i < n * k + n implies #[trigger] t.rt[i] == msg[i] by {
        assert(chars[i - n * k] == msg[i]);
    }
}

/// What holds after segments `ks` of `msg`.
spec fn holds_segments(
    t: RdsState,
    version_b: bool,
    flag: bool,
    ks: Seq<int>,
    msg: Seq<u8>,
) -> bool {
    let n = width(version_b);
    &&& t.rt_flag == Some(flag)
    &&& t.rt.len() == 64
    &&& t.rt_seen.len() == 16
    &&& forall|i: int, j: int|
        #![trigger t.rt[i], ks[j]]
        0 <= j < ks.len() && n * ks[j] <= i < n * ks[j] + n ==> t.rt[i] == msg[i]
    &&& forall|j: int| 0 <= j < ks.len() ==> n * #[trigger] ks[j] + n <= t.rt_len
    &&& ks.len() > 0 ==> exists|j: int| 0 <= j < ks.len() && t.rt_len == n * #[trigger] ks[j] + n
    &&& forall|k: int| 0 <= k < 16 ==> #[trigger] t.rt_seen[k] == ks.contains(k)
    &&& t.rt_complete <==> forall|k: int| 0 <= k < 16 ==> #[trigger] t.rt_seen[k]
}

/// A RadioText message is received as it was sent, in whatever order its
/// segments arrive and however often they are repeated: every segment that has
/// arrived stands in its place, the message reaches to the end of the last of
/// them and is never cut shorter by a repetition, and it is complete exactly
/// when all sixteen have arrived.
pub proof fn law_text_is_received_in_any_order(
    s: RdsState,
    gs: Seq<Group>,
    version_b: bool,
    flag: bool,
    ks: Seq<int>,
    msg: Seq<u8>,
)
    requires
        s.rt_flag != Some(flag),
        gs.len() == ks.len(),
        gs.len() > 0,
        msg.len() == 16 * width(version_b),
        !msg.contains(13),
        forall|j: int|
            0 <= j < ks.len() ==> 0 <= #[trigger] ks[j] < 16 && carries(
                gs[j],
                version_b,
                flag,
                ks[j],
                msg,
            ),
    ensures
        ({
            let t = received(s, gs);
            let n = width(version_b);
            &&& forall|i: int, j: int|
                #![trigger t.rt[i], ks[j]]
                0 <= j < ks.len() && n * ks[j] <= i < n * ks[j] + n ==> t.rt[i] == msg[i]
            &&& forall|j: int| 0 <= j < ks.len() ==> n * #[trigger] ks[j] + n <= t.rt_len
            &&& exists|j: int| 0 <= j < ks.len() && t.rt_len == n * #[trigger] ks[j] + n
            &&& t.rt_complete <==> forall|k: int| 0 <= k < 16 ==> #[trigger] ks.contains(k)
        }),
{
    lemma_segments_in_any_order(s, gs, version_b, flag, ks, msg);
    let t = received(s, gs);
    if t.rt_complete {
        assert forall|k: int| 0 <= k < 16 implies #[trigger] ks.contains(k) by {
            assert(t.rt_seen[k]);
        }
    }
    if forall|k: int| 0 <= k < 16 ==> #[trigger] ks.contains(k) {
        assert forall|k: int| 0 <= k < 16 implies #[trigger] t.rt_seen[k] by {
            assert(ks.contains(k));
        }
    }
}

proof fn lemma_segments_in_any_order(
    s: RdsState,
    gs: Seq<Group>,
    version_b: bool,
    flag: bool,
    ks: Seq<int>,
    msg: Seq<u8>,
)
    requires
        s.rt_flag != Some(flag),
        gs.len() == ks.len(),
        gs.len() > 0,
        msg.len() == 16 * width(version_b),
        !msg.contains(13),
        forall|j: int|
            0 <= j < ks.len() ==> 0 <= #[trigger] ks[j] < 16 && carries(
                gs[j],
                version_b,
                flag,
                ks[j],
                msg,
            ),
    ensures
        holds_segments(received(s, gs), version_b, flag, ks, msg),
    decreases gs.len(),
{
    let n = width(version_b);
    let last = ks.len() - 1;
    let k = ks[last];
    let g = gs[last];
    assert(carries(g, version_b, flag, k, msg));
    let rest = ks.drop_last();
    let t0 = received(s, gs.drop_last());
    let t = received(s, gs);
    lemma_any_segment(t0, g, version_b, flag, k, msg);
    if gs.len() > 1 {
        assert forall|j: int| 0 <= j < rest.len() implies 0 <= #[trigger] rest[j] < 16 && carries(
            gs.drop_last()[j],
            version_b,
            flag,
            rest[j],
            msg,
        ) by {
            assert(0 <= ks[j] < 16);
        }
        lemma_segments_in_any_order(s, gs.drop_last(), version_b, flag, rest, msg);
        assert(holds_segments(t0, version_b, flag, rest, msg));
    } else {
        assert(rest =~= Seq::<int>::empty());
        assert(t0 == s);
    }
    assert forall|i: int, j: int|
        #![trigger t.rt[i], ks[j]]
        0 <= j < ks.len() && n * ks[j] <= i < n * ks[j] + n implies t.rt[i] == msg[i] by {
        if !(n * k <= i < n * k + n) {
            assert(j < last);
            assert(rest[j] == ks[j]);
            assert(t0.rt[i] == msg[i]);
        }
    }
    assert forall|j: int| 0 <= j < ks.len() implies n * #[trigger] ks[j] + n <= t.rt_len by {
        if j < last {
            assert(n * rest[j] + n <= t0.rt_len);
        }
    }
    if t.rt_len == n * k + n {
        assert(t.rt_len == n * ks[last] + n);
    } else {
        let j = choose|j: int| 0 <= j < rest.len() && t0.rt_len == n * #[trigger] rest[j] + n;
        assert(t.rt_len == n * ks[j] + n);
    }
    assert forall|q: int| 0 <= q < 16 implies #[trigger] t.rt_seen[q] == ks.contains(q) by {
        if q == k {
            assert(ks[last] == q);
        } else if gs.len() > 1 {
            assert(t0.rt_seen[q] == rest.contains(q));
            if rest.contains(q) {
                let j = choose|j: int| 0 <= j < rest.len() && rest[j] == q;
                assert(ks[j] == q);
            }
            if ks.contains(q) {
                let j = choose|j: int| 0 <= j < ks.len() && ks[j] == q;
                assert(rest[j] == q);
            }
        } else {
            if ks.contains(q) {
                let j = choose|j: int| 0 <= j < ks.len() && ks[j] == q;
                assert(j == last);
            }
        }
    }
    if gs.len() > 1 && t0.rt_complete {
        assert forall|q: int| 0 <= q < 16 implies #[trigger] t.rt_seen[q] by {
            assert(t0.rt_seen[q]);
        }
    }
}

/// Where the characters of a RadioText group stand in the message.
pub open spec fn place_in_text(b: u16) -> int {
    if b / 2048 % 2 == 1 {
        2 * (b % 16)
    } else {
        4 * (b % 16)
    }
}

proof fn lemma_place_in_text(b: u16, c: u16, d: u16)
    ensures
        place_in_text(b) == (b % 16) as int * rt_chars(b, c, d).len(),
        place_in_text(b) + rt_chars(b, c, d).len() <= 64,
        rt_chars(b, c, d).len() == width(b / 2048 % 2 == 1),
{
    let k = (b % 16) as int;
    let n = rt_chars(b, c, d).len();
    assert(k * n == n * k) by (nonlinear_arith);
}

/// As long as the flag stays the same and no carriage return arrives, a
/// RadioText group never shortens the message; one that only repeats what
/// stands in its place leaves the text as it is.
pub proof fn law_text_never_shrinks(s: RdsState, a: u16, b: u16, c: u16, d: u16)
    requires
        b / 4096 == 2,
        s.rt.len() == 64,
        s.rt_flag == Some(b / 16 % 2 == 1),
        !rt_chars(b, c, d).contains(13),
    ensures
        ({
            let t = processed(s, a, b, c, d);
            let chars = rt_chars(b, c, d);
            let base = place_in_text(b);
            &&& t.rt_len >= s.rt_len
            &&& t.rt_len >= base + chars.len()
            &&& t.rt_len == s.rt_len || t.rt_len == base + chars.len()
            &&& s.rt_complete ==> t.rt_complete
            &&& base + chars.len() <= s.rt_len && s.rt.subrange(base, base + chars.len())
                == chars ==> t.rt == s.rt && t.rt_len == s.rt_len
        }),
{
    let chars = rt_chars(b, c, d);
    let t = processed(s, a, b, c, d);
    let base = place_in_text(b);
    lemma_place_in_text(b, c, d);
    strings::lemma_find_from(chars, 13u8, 0);
    if strings::find_from(chars, 13u8, 0) < chars.len() {
        assert(chars.contains(13));
    }
    if base + chars.len() <= s.rt_len && s.rt.subrange(base, base + chars.len())
        == chars {
        assert forall|i: int| 0 <= i < 64 implies t.rt[i] == s.rt[i] by {
            if base <= i < base + chars.len() {
                assert(s.rt.subrange(base, base + chars.len())[i - base]
                    == s.rt[i]);
            }
        }
        assert(t.rt =~= s.rt);
    }
}

/// A carriage return ends the message where it stands: what came before it
/// stays, and nothing is left behind it.
pub proof fn law_carriage_return_ends_the_text(
    s: RdsState,
    a: u16,
    b: u16,
    c: u16,
    d: u16,
    e: int,
)
    requires
        b / 4096 == 2,
        s.rt.len() == 64,
        s.rt_flag == Some(b / 16 % 2 == 1),
        0 <= e < rt_chars(b, c, d).len(),
        rt_chars(b, c, d)[e] == 13,
        forall|i: int| 0 <= i < e ==> #[trigger] rt_chars(b, c, d)[i] != 13,
    ensures
        ({
            let t = processed(s, a, b, c, d);
            let chars = rt_chars(b, c, d);
            let base = place_in_text(b);
            &&& t.rt_complete
            &&& t.rt_len == base + e
            &&& forall|i: int| 0 <= i < base ==> #[trigger] t.rt[i] == s.rt[i]
            &&& forall|i: int| base <= i < base + e ==> #[trigger] t.rt[i] == chars[i - base]
            &&& forall|i: int| base + e <= i < 64 ==> #[trigger] t.rt[i] == 32
        }),
{
    let chars = rt_chars(b, c, d);
    lemma_place_in_text(b, c, d);
    strings::lemma_find_from(chars, 13u8, 0);
    assert(strings::find_from(chars, 13u8, 0) == e);
}

/// A new message replaces the former: with the first group whose flag differs
/// nothing of the former is left, neither its text nor that it was complete.
pub proof fn law_flipped_flag_starts_a_new_text(s: RdsState, a: u16, b: u16, c: u16, d: u16)
    requires
        b / 4096 == 2,
        s.rt_flag != Some(b / 16 % 2 == 1),
    ensures
        ({
            let t = processed(s, a, b, c, d);
            let u = processed(blank(), a, b, c, d);
            &&& t.rt == u.rt
            &&& t.rt_len == u.rt_len
            &&& t.rt_seen == u.rt_seen
            &&& t.rt_complete == u.rt_complete
            &&& t.rt_flag == Some(b / 16 % 2 == 1)
        }),
{
}

/// A clock time is decoded as it was sent: hour, minute and the offset of local
/// time in half hours, east or west. The bits that do not belong to it do not
/// matter.
pub proof fn law_clock_is_received_as_sent(
    s: RdsState,
    a: u16,
    b: u16,
    c: u16,
    hour: int,
    minute: int,
    west: bool,
    half_hours: int,
)
    requires
        b / 2048 == 8,
        0 <= hour <= 23,
        0 <= minute <= 59,
        0 <= half_hours <= 24,
        c % 2 == hour / 16,
    ensures
        ({
            let d = (hour % 16 * 4096 + minute * 64 + (if west {
                32int
            } else {
                0
            }) + half_hours) as u16;
            processed(s, a, b, c, d).clock == Some(
                RdsClockTime {
                    utc_hour: hour as u8,
                    utc_minute: minute as u8,
                    local_offset_half_hours: (if west {
                        -half_hours
                    } else {
                        half_hours
                    }) as i8,
                },
            )
        }),
{
    let w: int = if west {
        1
    } else {
        0
    };
    let h = hour % 16;
    let x = h * 4096 + minute * 64 + w * 32 + half_hours;
    let d = x as u16;
    assert(d == x);
    assert(x / 4096 == h);
    assert(x / 64 == h * 64 + minute);
    assert(x / 32 == h * 128 + minute * 2 + w);
    assert(d / 64 % 64 == minute);
    assert(d / 32 % 2 == w);
    assert(d % 32 == half_hours);
    assert(group_of(b) == 4 && !is_version_b(b));
}

/// A clock time that is out of range is dropped: the one before it stays.
pub proof fn law_bad_clock_is_dropped(s: RdsState, a: u16, b: u16, c: u16, d: u16)
    requires
        b / 2048 == 8,
        c % 2 * 16 + d / 4096 > 23 || d / 64 % 64 > 59 || d % 32 > 24,
    ensures
        processed(s, a, b, c, d).clock == s.clock,
{
}

/// Local time is the given time of day, plus the offset, round the clock.
pub proof fn law_local_time_goes_round_the_clock(minutes: int)
    ensures
        hh_mm(minutes).0 < 24,
        hh_mm(minutes).1 < 60,
        (hh_mm(minutes).0 * 60 + hh_mm(minutes).1 - minutes) % 1440 == 0,
{
    let m = minutes % 1440;
    assert(m / 60 * 60 + m % 60 == m);
    assert((m - minutes) % 1440 == 0) by (nonlinear_arith)
        requires
            m == minutes % 1440,
    ;
}

/// Every group tells the programme identification and the programme type, in
/// its bits 5 to 9 of block B.
pub proof fn law_every_group_tells_its_programme(
    s: RdsState,
    a: u16,
    upper: int,
    pty: int,
    lower: int,
    c: u16,
    d: u16,
)
    requires
        0 <= upper < 64,
        0 <= pty < 32,
        0 <= lower < 32,
    ensures
        ({
            let t = processed(s, a, (upper * 1024 + pty * 32 + lower) as u16, c, d);
            t.pi == Some(a) && t.pty == Some(pty as u8)
        }),
{
    let b = upper * 1024 + pty * 32 + lower;
    assert(b / 32 == upper * 32 + pty);
    assert((b as u16) / 32 % 32 == pty);
}

/// The decoder's list after the given alternative-frequency codes.
pub open spec fn after_codes(s: RdsState, codes: Seq<u8>) -> RdsState
    decreases codes.len(),
{
    if codes.len() == 0 {
        s
    } else {
        with_af_code(after_codes(s, codes.drop_last()), codes.last())
    }
}

/// A group 0A carries two alternative-frequency codes in block C, the upper
/// byte first.
pub proof fn law_name_group_carries_two_codes(s: RdsState, a: u16, b: u16, x: u8, y: u8, d: u16)
    requires
        b / 2048 == 0,
    ensures
        ({
            let t = processed(s, a, b, (x * 256 + y) as u16, d);
            let u = after_codes(s, seq![x, y]);
            t.af == u.af && t.af_expected == u.af_expected
        }),
{
    let c = (x * 256 + y) as u16;
    assert(bytes::hi8(c) == x && bytes::lo8(c) == y);
    reveal_with_fuel(after_codes, 3);
    assert(seq![x, y].drop_last() =~= seq![x]);
    assert(seq![x].drop_last() =~= Seq::<u8>::empty());
}

/// A list of alternative frequencies is received as it was sent: the code that
/// announces `n` of them starts the list anew, and the `n` different codes
/// behind it are listed in their order, each as the frequency it stands for.
/// Codes that stand for no frequency are passed over.
pub proof fn law_alternatives_are_received_as_sent(s: RdsState, n: int, codes: Seq<u8>)
    requires
        0 <= n <= 25,
        codes.len() <= n,
        codes.no_duplicates(),
        forall|i: int| 0 <= i < codes.len() ==> 1 <= #[trigger] codes[i] <= 204,
    ensures
        ({
            let t = after_codes(s, seq![(224 + n) as u8] + codes);
            &&& t.af == Seq::new(codes.len(), |i: int| (875 + codes[i]) as u16)
            &&& t.af_expected == Some(n as u8)
            &&& with_af_code(t, 0).af == t.af
            &&& forall|x: u8| 205 <= x < 224 || 249 < x ==> #[trigger] with_af_code(t, x).af == t.af
        }),
    decreases codes.len(),
{
    let all = seq![(224 + n) as u8] + codes;
    if codes.len() == 0 {
        assert(all.drop_last() =~= Seq::<u8>::empty());
        assert(all.last() == (224 + n) as u8);
        assert(after_codes(s, all).af =~= Seq::new(codes.len(), |i: int| (875 + codes[i]) as u16));
    } else {
        let fewer = codes.drop_last();
        assert(all.drop_last() =~= seq![(224 + n) as u8] + fewer);
        assert(all.last() == codes.last());
        law_alternatives_are_received_as_sent(s, n, fewer);
        let t = after_codes(s, all.drop_last());
        let f = (875 + codes.last()) as u16;
        assert(!t.af.contains(f)) by {
            if t.af.contains(f) {
                let i = choose|i: int| 0 <= i < t.af.len() && t.af[i] == f;
                assert(codes[i] == codes[codes.len() - 1]);
            }
        }
        assert(1 <= codes[codes.len() - 1] <= 204);
        assert(after_codes(s, all).af =~= Seq::new(codes.len(), |i: int| (875 + codes[i]) as u16));
    }
}

/// Padding at the end does not show: neither blanks nor zeros.
pub proof fn law_padding_is_dropped(b: Seq<u8>, pad: Seq<u8>)
    requires
        forall|i: int| 0 <= i < pad.len() ==> #[trigger] pad[i] == 32 || pad[i] == 0,
    ensures
        rds_text(b + pad) == rds_text(b),
    decreases pad.len(),
{
    if pad.len() > 0 {
        assert((b + pad).last() == pad[pad.len() - 1]);
        assert((b + pad).drop_last() =~= b + pad.drop_last());
        law_padding_is_dropped(b, pad.drop_last());
    } else {
        assert(b + pad =~= b);
    }
}

/// In text that is not UTF-8 every printable character shows as it is, every
/// pair of a foreign script as one mark, and so does every other byte, wherever
/// they stand.
pub proof fn law_unreadable_bytes_are_marked(x: u8, y: u8, rest: Seq<u8>)
    ensures
        0x20 <= x <= 0x7E ==> fallback_text(seq![x] + rest) == seq![x as char] + fallback_text(rest),
        0xA1 <= x <= 0xFE && 0xA1 <= y <= 0xFE ==> fallback_text(seq![x, y] + rest) == seq!['?']
            + fallback_text(rest),
        (x < 0x20 || 0x7E < x < 0xA1 || x == 0xFF) ==> fallback_text(seq![x] + rest) == seq!['?']
            + fallback_text(rest),
        fallback_text(Seq::empty()) == Seq::<char>::empty(),
{
    let one = seq![x] + rest;
    let two = seq![x, y] + rest;
    assert(one.skip(1) =~= rest);
    assert(two.skip(2) =~= rest);
    assert(one[0] == x && two[0] == x && two[1] == y);
}

/// The tags of a running item name its parts: the text that a title or artist
/// tag points to is shown once it has been received, from its start and one
/// byte longer than its length says. While no item runs, nothing is.
pub proof fn law_tagged_part_is_shown(s: RdsState, p: RtPlusPayload, kind: u8)
    requires
        s.plus == Some(p),
    ensures
        !p.item_running ==> plus_text(s, kind) is None,
        p.tag1.content_type != kind && p.tag2.content_type != kind ==> plus_text(s, kind) is None,
        ({
            let tag = p.tag1;
            p.item_running && tag.content_type == kind && tag.start + tag.len < s.rt_len ==> plus_text(
                s,
                kind,
            ) == Some(rds_text(s.rt.subrange(tag.start as int, tag.start + tag.len + 1)))
        }),
        ({
            let tag = p.tag2;
            p.item_running && tag.content_type == kind && p.tag1.content_type != kind && tag.start
                + tag.len < s.rt_len ==> plus_text(s, kind) == Some(
                rds_text(s.rt.subrange(tag.start as int, tag.start + tag.len + 1)),
            )
        }),
{
}

/// Tags count only once the station has registered them, and from then on.
pub proof fn law_tags_need_registration(s: RdsState, a: u16, b: u16, c: u16, d: u16)
    ensures
        b / 2048 == 6 && d == 0x4BD7 ==> processed(s, a, b, c, d).plus_registered,
        !(b / 2048 == 6 && d == 0x4BD7) ==> processed(s, a, b, c, d).plus_registered
            == s.plus_registered,
        b / 2048 == 22 && s.plus_registered ==> processed(s, a, b, c, d).plus == Some(
            rt_plus_parser::payload_in(b, c, d),
        ),
        b / 2048 != 22 || !s.plus_registered ==> processed(s, a, b, c, d).plus == s.plus,
{
}

/// Alternatives are listed even where no length was announced, each once, up to
/// the longest list there is; a frequency that is listed already is not listed
/// again.
pub proof fn law_unannounced_alternatives_are_listed(s: RdsState, code: u8)
    requires
        1 <= code <= 204,
        s.af_expected is None,
    ensures
        ({
            let t = with_af_code(s, code);
            let f = (875 + code) as u16;
            &&& s.af.len() < 25 && !s.af.contains(f) ==> t.af == s.af.push(f)
            &&& s.af.contains(f) || s.af.len() >= 25 ==> t.af == s.af
            &&& t.af_expected is None
        }),
{
}

/// A decoder that has seen nothing knows nothing: no name, no text, no clock
/// time, no programme and no alternatives.
pub proof fn law_new_decoder_knows_nothing()
    ensures
        ({
            let s = blank();
            &&& s.ps.len() == 8 && s.ps_seen.len() == 4 && s.rt.len() == 64 && s.rt_seen.len() == 16
            &&& forall|i: int| 0 <= i < 8 ==> #[trigger] s.ps[i] == 32
            &&& forall|i: int| 0 <= i < 4 ==> !#[trigger] s.ps_seen[i]
            &&& forall|i: int| 0 <= i < 64 ==> #[trigger] s.rt[i] == 32
            &&& forall|i: int| 0 <= i < 16 ==> !#[trigger] s.rt_seen[i]
            &&& s.rt_len == 0 && s.rt_flag is None && !s.rt_complete
            &&& s.clock is None && s.pty is None && s.pi is None
            &&& s.af.len() == 0 && s.af_expected is None
            &&& !s.plus_registered && s.plus is None
        }),
{
}

/// The programme types of the American standard have these short names.
pub proof fn law_programme_types_have_their_names(code: u8)
    ensures
        pty_name(0) == "None"@ && pty_name(1) == "News"@ && pty_name(2) == "Info"@,
        pty_name(3) == "Sports"@ && pty_name(4) == "Talk"@ && pty_name(5) == "Rock"@,
        pty_name(6) == "ClsRock"@ && pty_name(7) == "AdltHit"@ && pty_name(8) == "SoftRck"@,
        pty_name(9) == "Top 40"@ && pty_name(10) == "Country"@ && pty_name(11) == "Oldies"@,
        pty_name(12) == "Soft"@ && pty_name(13) == "Nostlga"@ && pty_name(14) == "Jazz"@,
        pty_name(15) == "Classic"@ && pty_name(16) == "R&B"@ && pty_name(17) == "SoftR&B"@,
        pty_name(18) == "Lang"@ && pty_name(19) == "RelMusc"@ && pty_name(20) == "RelTalk"@,
        pty_name(21) == "Persnly"@ && pty_name(22) == "Public"@ && pty_name(23) == "College"@,
        24 <= code <= 28 ==> pty_name(code) == "Unassgn"@,
        pty_name(29) == "Weather"@ && pty_name(30) == "Test"@ && pty_name(31) == "Alert!"@,
        code > 31 ==> pty_name(code) == "--"@,
{
}

} // verus!
