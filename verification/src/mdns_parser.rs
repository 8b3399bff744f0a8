//! Queries and answers of multicast DNS, as far as one host name needs them.

use vstd::prelude::*;

use crate::bytes;
use crate::bytes::join16;

verus! {

/// Record type of an IPv4 address.
pub const QTYPE_A: u16 = 1;

/// Any record type.
pub const QTYPE_ANY: u16 = 255;

/// Internet class.
pub const QCLASS_IN: u16 = 1;

/// Length of a response.
pub const RESPONSE_LEN: usize = 43;

/// `esp-radio`.
pub open spec fn hostname_label() -> Seq<u8> {
    seq![101u8, 115u8, 112u8, 45u8, 114u8, 97u8, 100u8, 105u8, 111u8]
}

/// `local`.
pub open spec fn tld_label() -> Seq<u8> {
    seq![108u8, 111u8, 99u8, 97u8, 108u8]
}

/// What is known of a query.
#[derive(Clone, Copy, Debug, PartialEq, Eq, Structural)]
pub struct ParsedQuery {
    /// Whether it asks for the address of this host.
    pub is_for_us: bool,
}

/// Lower-case form of an ASCII letter; any other byte as it is.
pub open spec fn lower(b: u8) -> u8 {
    if 65 <= b <= 90 {
        (b + 32) as u8
    } else {
        b
    }
}

/// Equality up to the case of ASCII letters.
pub open spec fn same_label(a: Seq<u8>, b: Seq<u8>) -> bool {
    a.len() == b.len() && forall|i: int| 0 <= i < a.len() ==> lower(#[trigger] a[i]) == lower(b[i])
}

/// The labels of the name at `pos`, and where the name ends. A compressed or
/// cut-off name has none.
pub open spec fn labels_at(p: Seq<u8>, pos: int) -> Option<(Seq<Seq<u8>>, int)>
    decreases p.len() - pos,
{
    if pos < 0 || pos >= p.len() {
        None
    } else if p[pos] == 0 {
        Some((Seq::empty(), pos + 1))
    } else if p[pos] >= 64 || pos + 1 + p[pos] > p.len() {
        None
    } else {
        match labels_at(p, pos + 1 + p[pos]) {
            Some((rest, end)) => Some(
                (seq![p.subrange(pos + 1, pos + 1 + p[pos])] + rest, end),
            ),
            None => None,
        }
    }
}

/// The big-endian number at `at`.
pub open spec fn be16(p: Seq<u8>, at: int) -> u16 {
    bytes::u16_of(p[at], p[at + 1])
}

/// What a packet asks: `None` if it is no well-formed query, else whether its
/// first question is for the address of this host.
pub open spec fn query_in(p: Seq<u8>) -> Option<bool> {
    if p.len() < 12 || p[2] >= 128 || be16(p, 4) == 0 {
        None
    } else {
        match labels_at(p, 12) {
            None => None,
            Some((labels, end)) => if end + 4 > p.len() {
                None
            } else {
                Some(
                    labels.len() == 2 && same_label(labels[0], hostname_label()) && same_label(
                        labels[1],
                        tld_label(),
                    ) && (be16(p, end) == QTYPE_A || be16(p, end) == QTYPE_ANY) && be16(p, end + 2)
                        % 32768 == QCLASS_IN,
                )
            },
        }
    }
}

fn lower_byte(b: u8) -> (r: u8)
    ensures
        r == lower(b),
{
    if 65 <= b && b <= 90 {
        b + 32
    } else {
        b
    }
}

/// Whether two labels are equal up to the case of ASCII letters.
pub fn eq_ascii_case_insensitive(a: &[u8], b: &[u8]) -> (r: bool)
    ensures
        r == same_label(a@, b@),
{
    if a.len() != b.len() {
        return false;
    }
    let mut i: usize = 0;
    while i < a.len()
        invariant
            0 <= i <= a@.len(),
            a@.len() == b@.len(),
            forall|j: int| 0 <= j < i ==> lower(#[trigger] a@[j]) == lower(b@[j]),
        decreases a@.len() - i,
    {
        if lower_byte(a[i]) != lower_byte(b[i]) {
            assert(lower(a@[i as int]) != lower(b@[i as int]));
            return false;
        }
        i = i + 1;
    }
    true
}

/// Parses a packet; `None` if it is no well-formed query.
pub fn parse_query(packet: &[u8]) -> (r: Option<ParsedQuery>)
    ensures
        match r {
            Some(q) => query_in(packet@) == Some(q.is_for_us),
            None => query_in(packet@) is None,
        },
{
    if packet.len() < 12 {
        return None;
    }
    if packet[2] >= 128 {
        return None;
    }
    if join16(packet[4], packet[5]) == 0 {
        return None;
    }
    let hostname: [u8; 9] = [101, 115, 112, 45, 114, 97, 100, 105, 111];
    let tld: [u8; 5] = [108, 111, 99, 97, 108];
    assert(hostname@ =~= hostname_label());
    assert(tld@ =~= tld_label());
    let total: usize = packet.len();
    let mut pos: usize = 12;
    let mut count: u8 = 0;
    let mut hostname_ok: bool = false;
    let mut tld_ok: bool = false;
    let ghost mut seen: Seq<Seq<u8>> = Seq::empty();
    proof {
        if let Some((l, e)) = labels_at(packet@, 12) {
            assert(seen + l =~= l);
        }
    }
    loop
        invariant_except_break
            12 <= pos <= total,
            labels_at(packet@, 12) == (match labels_at(packet@, pos as int) {
                Some((l, e)) => Some((seen + l, e)),
                None => None,
            }),
        invariant
            total == packet@.len(),
            hostname@ == hostname_label(),
            tld@ == tld_label(),
            packet@.len() >= 12 && packet@[2] < 128 && be16(packet@, 4) != 0,
            count == (if seen.len() < 255 {
                seen.len() as u8
            } else {
                255u8
            }),
            hostname_ok == (seen.len() >= 1 && same_label(seen[0], hostname_label())),
            tld_ok == (seen.len() >= 2 && same_label(seen[1], tld_label())),
        ensures
            labels_at(packet@, 12) == Some((seen, pos as int)),
            13 <= pos <= total,
        decreases total - pos,
    {
        if pos >= total {
            return None;
        }
        let len: u8 = packet[pos];
        if len == 0 {
            proof {
                assert(seen + Seq::<Seq<u8>>::empty() =~= seen);
            }
            pos = pos + 1;
            break;
        }
        if len >= 64 {
            return None;
        }
        if len as usize > total - pos - 1 {
            return None;
        }
        let label_end: usize = pos + 1 + len as usize;
        let label: &[u8] = vstd::slice::slice_subrange(packet, pos + 1, label_end);
        if count == 0 {
            hostname_ok = eq_ascii_case_insensitive(label, hostname.as_slice());
        } else if count == 1 {
            tld_ok = eq_ascii_case_insensitive(label, tld.as_slice());
        }
        proof {
            let before = seen;
            let here = seq![packet@.subrange(pos + 1, label_end as int)];
            seen = seen.push(label@);
            if let Some((l, e)) = labels_at(packet@, label_end as int) {
                assert(before + (here + l) =~= seen + l);
            }
        }
        count = count.saturating_add(1);
        pos = label_end;
    }
    if total - pos < 4 {
        return None;
    }
    let qtype: u16 = join16(packet[pos], packet[pos + 1]);
    let qclass: u16 = join16(packet[pos + 2], packet[pos + 3]) % 32768;
    let type_ok: bool = qtype == QTYPE_A || qtype == QTYPE_ANY;
    Some(
        ParsedQuery {
            is_for_us: hostname_ok && tld_ok && count == 2 && type_ok && qclass == QCLASS_IN,
        },
    )
}

/// The packet that answers with an address: one record of type A, class
/// Internet with the cache-flush bit, valid for 120 seconds.
pub open spec fn response_bytes(ip: Seq<u8>) -> Seq<u8> {
    seq![0u8, 0u8, 0x84u8, 0u8, 0u8, 0u8, 0u8, 1u8, 0u8, 0u8, 0u8, 0u8] + seq![9u8]
        + hostname_label() + seq![5u8] + tld_label() + seq![0u8] + seq![
        0u8,
        1u8,
        0x80u8,
        1u8,
        0u8,
        0u8,
        0u8,
        120u8,
        0u8,
        4u8,
    ] + ip
}

/// Writes the answer into `out` and returns its length; `None` if it does not
/// fit.
pub fn build_response(out: &mut [u8], ip: [u8; 4]) -> (r: Option<usize>)
    ensures
        final(out)@.len() == old(out)@.len(),
        match r {
            Some(len) => {
                &&& len == RESPONSE_LEN
                &&& old(out)@.len() >= RESPONSE_LEN
                &&& final(out)@ == response_bytes(ip@) + old(out)@.skip(RESPONSE_LEN as int)
            },
            None => old(out)@.len() < RESPONSE_LEN && final(out)@ == old(out)@,
        },
{
    if out.len() < RESPONSE_LEN {
        return None;
    }
    let packet: [u8; 43] = [
        0,
        0,
        0x84,
        0,
        0,
        0,
        0,
        1,
        0,
        0,
        0,
        0,
        9,
        101,
        115,
        112,
        45,
        114,
        97,
        100,
        105,
        111,
        5,
        108,
        111,
        99,
        97,
        108,
        0,
        0,
        1,
        0x80,
        1,
        0,
        0,
        0,
        120,
        0,
        4,
        ip[0],
        ip[1],
        ip[2],
        ip[3],
    ];
    assert(packet@ =~= response_bytes(ip@));
    let ghost before = out@;
    let mut i: usize = 0;
    while i < 43
        invariant
            0 <= i <= 43,
            out@.len() == before.len(),
            before.len() >= 43,
            forall|j: int|
                0 <= j < before.len() ==> #[trigger] out@[j] == (if j < i {
                    packet@[j]
                } else {
                    before[j]
                }),
        decreases 43 - i,
    {
        out[i] = packet[i];
        i = i + 1;
    }
    assert(out@ =~= response_bytes(ip@) + before.skip(43));
    Some(RESPONSE_LEN)
}

/// An answer names this host, and is itself no query, so that responders do not
/// answer each other.
pub proof fn law_response_names_this_host(ip: Seq<u8>)
    requires
        ip.len() == 4,
    ensures
        response_bytes(ip).len() == RESPONSE_LEN,
        labels_at(response_bytes(ip), 12) == Some((seq![hostname_label(), tld_label()], 29int)),
        query_in(response_bytes(ip)) is None,
{
    let r = response_bytes(ip);
    assert(r[12] == 9);
    assert(r[22] == 5);
    assert(r[28] == 0);
    assert(r.subrange(13, 22) =~= hostname_label());
    assert(r.subrange(23, 28) =~= tld_label());
    assert(labels_at(r, 28) == Some((Seq::<Seq<u8>>::empty(), 29int)));
    assert(labels_at(r, 22) == Some((seq![tld_label()] + Seq::<Seq<u8>>::empty(), 29int)));
    assert(seq![hostname_label()] + (seq![tld_label()] + Seq::<Seq<u8>>::empty()) =~= seq![
        hostname_label(),
        tld_label(),
    ]);
}

/// Whether a query is for this host does not depend on the case of letters in
/// the name.
pub proof fn law_names_match_in_any_case(a: Seq<u8>, b: Seq<u8>, c: Seq<u8>)
    requires
        same_label(a, b),
    ensures
        same_label(a, c) == same_label(b, c),
{
    if same_label(a, c) {
        assert forall|i: int| 0 <= i < b.len() implies lower(#[trigger] b[i]) == lower(c[i]) by {
            assert(lower(a[i]) == lower(b[i]));
        }
    }
    if same_label(b, c) {
        assert forall|i: int| 0 <= i < a.len() implies lower(#[trigger] a[i]) == lower(c[i]) by {
            assert(lower(a[i]) == lower(b[i]));
            assert(lower(b[i]) == lower(c[i]));
        }
    }
}

/// A name is this host's exactly where it is `esp-radio` with some letters
/// written as capitals.
pub proof fn law_hostname_is_known_by_its_letters(a: Seq<u8>)
    ensures
        same_label(a, hostname_label()) <==> a.len() == 9 && (a[0] == 101 || a[0] == 69) && (a[1]
            == 115 || a[1] == 83) && (a[2] == 112 || a[2] == 80) && a[3] == 45 && (a[4] == 114
            || a[4] == 82) && (a[5] == 97 || a[5] == 65) && (a[6] == 100 || a[6] == 68) && (a[7]
            == 105 || a[7] == 73) && (a[8] == 111 || a[8] == 79),
        same_label(a, tld_label()) <==> a.len() == 5 && (a[0] == 108 || a[0] == 76) && (a[1] == 111
            || a[1] == 79) && (a[2] == 99 || a[2] == 67) && (a[3] == 97 || a[3] == 65) && (a[4]
            == 108 || a[4] == 76),
{
    let h = hostname_label();
    let t = tld_label();
    if same_label(a, h) {
        assert(lower(a[0]) == lower(h[0]) && lower(a[1]) == lower(h[1]) && lower(a[2]) == lower(
            h[2],
        ) && lower(a[3]) == lower(h[3]) && lower(a[4]) == lower(h[4]) && lower(a[5]) == lower(h[5])
            && lower(a[6]) == lower(h[6]) && lower(a[7]) == lower(h[7]) && lower(a[8]) == lower(
            h[8],
        ));
    }
    if same_label(a, t) {
        assert(lower(a[0]) == lower(t[0]) && lower(a[1]) == lower(t[1]) && lower(a[2]) == lower(
            t[2],
        ) && lower(a[3]) == lower(t[3]) && lower(a[4]) == lower(t[4]));
    }
}

/// What is no query is not answered: a packet that is too short, a response, and
/// one without a question.
pub proof fn law_only_queries_are_read(p: Seq<u8>)
    ensures
        p.len() < 12 ==> query_in(p) is None,
        p.len() >= 12 && p[2] >= 128 ==> query_in(p) is None,
        p.len() >= 12 && p[4] == 0 && p[5] == 0 ==> query_in(p) is None,
{
}

/// The answer is one record of type A and class Internet, valid for two minutes,
/// with the address at its end.
pub proof fn law_response_carries_the_address(ip: Seq<u8>)
    requires
        ip.len() == 4,
    ensures
        ({
            let r = response_bytes(ip);
            &&& r.len() == 43
            &&& r[2] == 0x84 && r[4] == 0 && r[5] == 0 && r[6] == 0 && r[7] == 1
            &&& r[29] == 0 && r[30] == 1 && r[31] == 0x80 && r[32] == 1
            &&& r[33] == 0 && r[34] == 0 && r[35] == 0 && r[36] == 120
            &&& r[37] == 0 && r[38] == 4
            &&& r.subrange(39, 43) == ip
        }),
{
    assert(response_bytes(ip).subrange(39, 43) =~= ip);
}

/// A name that is compressed, or that is cut off, is not read.
pub proof fn law_compressed_names_are_not_read(p: Seq<u8>)
    requires
        p.len() >= 13,
        p[12] >= 64 || 13 + p[12] > p.len(),
    ensures
        query_in(p) is None,
{
}

} // verus!
