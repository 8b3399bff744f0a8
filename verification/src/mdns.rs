//! The responder for `esp-radio.local`.

use vstd::prelude::*;

use crate::bytes;
use crate::mdns_parser;
use crate::mdns_parser::{build_response, parse_query, RESPONSE_LEN};

verus! {

/// Multicast group of the protocol.
pub const MDNS_GROUP: [u8; 4] = [224, 0, 0, 251];

/// Port of the protocol.
pub const MDNS_PORT: u16 = 5353;

/// What is sent in reply to a packet; nothing unless it asks for this host and
/// the host has an address.
pub open spec fn reply_to(packet: Seq<u8>, ip: Option<Seq<u8>>) -> Option<Seq<u8>> {
    if mdns_parser::query_in(packet) == Some(true) && ip is Some {
        Some(mdns_parser::response_bytes(ip->0))
    } else {
        None
    }
}

/// The reply to a packet, if there is one. `ip` is the current address.
pub fn answer(packet: &[u8], ip: Option<[u8; 4]>) -> (r: Option<Vec<u8>>)
    ensures
        ({
            let addr = match ip {
                Some(a) => Some(a@),
                None => None,
            };
            match r {
                Some(bytes) => reply_to(packet@, addr) == Some(bytes@),
                None => reply_to(packet@, addr) is None,
            }
        }),
{
    match parse_query(packet) {
        Some(q) => {
            if !q.is_for_us {
                return None;
            }
        },
        None => {
            return None;
        },
    }
    match ip {
        Some(addr) => {
            let mut out: Vec<u8> = vec![0u8; RESPONSE_LEN];
            let len: Option<usize> = build_response(out.as_mut_slice(), addr);
            assert(out@ =~= mdns_parser::response_bytes(addr@));
            if len.is_some() {
                Some(out)
            } else {
                None
            }
        },
        None => None,
    }
}

/// A packet that asks one question about the name made of two labels.
pub open spec fn question(host: Seq<u8>, tld: Seq<u8>, qtype: u16, qclass: u16) -> Seq<u8> {
    seq![0u8, 0u8, 0u8, 0u8, 0u8, 1u8, 0u8, 0u8, 0u8, 0u8, 0u8, 0u8] + seq![host.len() as u8] + host
        + seq![tld.len() as u8] + tld + seq![0u8] + seq![
        bytes::hi8(qtype),
        bytes::lo8(qtype),
        bytes::hi8(qclass),
        bytes::lo8(qclass),
    ]
}

/// Who asks for the address of this host, in whatever case its name is written,
/// is told the address that the host has, with or without the wish for an
/// answer to itself alone.
pub proof fn law_host_answers_for_its_name(
    host: Seq<u8>,
    tld: Seq<u8>,
    qtype: u16,
    qclass: u16,
    ip: Seq<u8>,
)
    requires
        mdns_parser::same_label(host, mdns_parser::hostname_label()),
        mdns_parser::same_label(tld, mdns_parser::tld_label()),
        qtype == mdns_parser::QTYPE_A || qtype == mdns_parser::QTYPE_ANY,
        qclass % 32768 == mdns_parser::QCLASS_IN,
    ensures
        reply_to(question(host, tld, qtype, qclass), Some(ip)) == Some(
            mdns_parser::response_bytes(ip),
        ),
        reply_to(question(host, tld, qtype, qclass), None) is None,
{
    let p = question(host, tld, qtype, qclass);
    assert(host.len() == 9 && tld.len() == 5);
    assert(p[12] == 9);
    assert(p[22] == 5);
    assert(p[28] == 0);
    assert(p.subrange(13, 22) =~= host);
    assert(p.subrange(23, 28) =~= tld);
    assert(mdns_parser::labels_at(p, 28) == Some((Seq::<Seq<u8>>::empty(), 29int)));
    assert(mdns_parser::labels_at(p, 22) == Some((seq![tld] + Seq::<Seq<u8>>::empty(), 29int)));
    assert(seq![host] + (seq![tld] + Seq::<Seq<u8>>::empty()) =~= seq![host, tld]);
    bytes::lemma_u16_bytes(qtype);
    bytes::lemma_u16_bytes(qclass);
    assert(mdns_parser::be16(p, 4) == 1) by {
        bytes::lemma_u16_bytes(1);
    }
}

/// A question about anything else is not answered: another name, another kind of
/// record or another class.
pub proof fn law_other_questions_are_not_answered(
    host: Seq<u8>,
    tld: Seq<u8>,
    qtype: u16,
    qclass: u16,
    ip: Option<Seq<u8>>,
)
    requires
        0 < host.len() < 64,
        0 < tld.len() < 64,
        !mdns_parser::same_label(host, mdns_parser::hostname_label()) || !mdns_parser::same_label(
            tld,
            mdns_parser::tld_label(),
        ) || (qtype != 1 && qtype != 255) || qclass % 32768 != 1,
    ensures
        reply_to(question(host, tld, qtype, qclass), ip) is None,
{
    let p = question(host, tld, qtype, qclass);
    let h = host.len() as int;
    let t = tld.len() as int;
    let second = 13 + h;
    let end = second + 1 + t;
    assert(p[12] == h);
    assert(p[second] == t);
    assert(p[end] == 0);
    assert(p.subrange(13, 13 + h) =~= host);
    assert(p.subrange(second + 1, end) =~= tld);
    assert(mdns_parser::labels_at(p, end) == Some((Seq::<Seq<u8>>::empty(), end + 1)));
    assert(mdns_parser::labels_at(p, second) == Some(
        (seq![tld] + Seq::<Seq<u8>>::empty(), end + 1),
    ));
    assert(seq![host] + (seq![tld] + Seq::<Seq<u8>>::empty()) =~= seq![host, tld]);
    bytes::lemma_u16_bytes(qtype);
    bytes::lemma_u16_bytes(qclass);
}

} // verus!
