//! URLs of the form `http://<ipv4>[:port]/path`.

use vstd::prelude::*;

use crate::strings::{chars_match_at, chars_of, find_char, parse_number, split_chars};
use crate::strings;

verus! {

/// Why a URL was refused.
#[derive(Debug, PartialEq, Eq, Clone, Copy, Structural)]
pub enum UrlError {
    BadUrl,
}

/// A URL with a numeric IPv4 host, taken apart.
#[derive(Debug, PartialEq, Eq)]
pub struct ParsedUrl<'a> {
    pub ip: [u8; 4],
    pub port: u16,
    /// Path with its leading `/`, and the query string if there is one.
    pub path: &'a str,
}

/// The parts of a URL as mathematical values.
pub struct UrlParts {
    pub ip: Seq<u8>,
    pub port: nat,
    pub path: Seq<char>,
}

/// The address that four dot-separated numbers of at most 255 denote.
pub open spec fn ipv4_of(s: Seq<char>) -> Option<Seq<u8>> {
    let p = strings::split(s, seq!['.']);
    if p.len() == 4 && (forall|i: int| 0 <= i < 4 ==> strings::parse_unsigned(#[trigger] p[i], 255) is Some) {
        Some(Seq::new(4, |i: int| strings::parse_unsigned(p[i], 255)->0 as u8))
    } else {
        None
    }
}

/// The port behind the first colon of an authority, 80 where there is none.
pub open spec fn port_of(authority: Seq<char>) -> Option<nat> {
    let colon = strings::find_from(authority, ':', 0);
    if colon < authority.len() {
        strings::parse_unsigned(authority.skip(colon + 1), 65535)
    } else {
        Some(80)
    }
}

/// The parts of `url`, if it has the form that this module accepts.
pub open spec fn url_parts(url: Seq<char>) -> Option<UrlParts> {
    let rest = url.skip(7);
    let slash = strings::find_from(rest, '/', 0);
    let authority = rest.take(slash);
    let host = authority.take(strings::find_from(authority, ':', 0));
    if strings::matches_at(url, "http://"@, 0) && authority.len() > 0 && port_of(authority) is Some
        && ipv4_of(host) is Some {
        Some(
            UrlParts {
                ip: ipv4_of(host)->0,
                port: port_of(authority)->0,
                path: if slash < rest.len() {
                    rest.skip(slash)
                } else {
                    "/"@
                },
            },
        )
    } else {
        None
    }
}

/// Parses four dot-separated numbers.
pub fn parse_ipv4_chars(s: &[char]) -> (r: Option<[u8; 4]>)
    ensures
        match r {
            Some(ip) => ipv4_of(s@) == Some(ip@),
            None => ipv4_of(s@) is None,
        },
{
    let dot: [char; 1] = ['.'];
    assert(dot@ =~= seq!['.']);
    let parts: Vec<&[char]> = split_chars(s, dot.as_slice());
    let ghost p = strings::split(s@, seq!['.']);
    if parts.len() != 4 {
        return None;
    }
    let mut octets: [u8; 4] = [0, 0, 0, 0];
    let mut i: usize = 0;
    while i < 4
        invariant
            0 <= i <= 4,
            parts@.len() == 4,
            p == strings::split(s@, seq!['.']),
            p.len() == 4,
            forall|j: int| 0 <= j < 4 ==> (#[trigger] parts@[j])@ == p[j],
            forall|j: int|
                0 <= j < i ==> strings::parse_unsigned(#[trigger] p[j], 255) == Some(octets@[j] as nat),
        decreases 4 - i,
    {
        match parse_number(parts[i], 255) {
            Some(n) => {
                octets[i] = n as u8;
            },
            None => {
                assert(strings::parse_unsigned(p[i as int], 255) is None);
                return None;
            },
        }
        i = i + 1;
    }
    assert(ipv4_of(s@)->0 =~= octets@);
    Some(octets)
}

/// Parses `http://<ipv4>[:port]/path`.
pub fn parse_url(url: &str) -> (r: Result<ParsedUrl<'_>, UrlError>)
    ensures
        match r {
            Ok(p) => url_parts(url@) == Some(
                (UrlParts { ip: p.ip@, port: p.port as nat, path: p.path@ }),
            ),
            Err(_) => url_parts(url@) is None,
        },
{
    let all: Vec<char> = chars_of(url);
    let scheme: Vec<char> = chars_of("http://");
    proof {
        reveal_strlit("http://");
    }
    if !chars_match_at(all.as_slice(), scheme.as_slice(), 0) {
        return Err(UrlError::BadUrl);
    }
    let rest: &[char] = vstd::slice::slice_subrange(all.as_slice(), 7, all.len());
    assert(rest@ =~= url@.skip(7));
    let slash: usize = find_char(rest, '/', 0);
    let authority: &[char] = vstd::slice::slice_subrange(rest, 0, slash);
    assert(authority@ =~= rest@.take(slash as int));
    if authority.len() == 0 {
        return Err(UrlError::BadUrl);
    }
    let colon: usize = find_char(authority, ':', 0);
    let host: &[char] = vstd::slice::slice_subrange(authority, 0, colon);
    assert(host@ =~= authority@.take(colon as int));
    let port: u16 = if colon < authority.len() {
        let digits: &[char] = vstd::slice::slice_subrange(authority, colon + 1, authority.len());
        assert(digits@ =~= authority@.skip(colon + 1));
        match parse_number(digits, 65535) {
            Some(n) => n as u16,
            None => {
                return Err(UrlError::BadUrl);
            },
        }
    } else {
        80
    };
    let ip: [u8; 4] = match parse_ipv4_chars(host) {
        Some(ip) => ip,
        None => {
            return Err(UrlError::BadUrl);
        },
    };
    let path: &str = if slash < rest.len() {
        let tail: &str = url.substring_char(7 + slash, all.len());
        assert(tail@ =~= rest@.skip(slash as int));
        tail
    } else {
        "/"
    };
    Ok(ParsedUrl { ip, port, path })
}

/// Four numbers of at most 255 between dots are read as the address that they
/// are.
pub proof fn law_address_is_read(ip: Seq<u8>)
    requires
        ip.len() == 4,
    ensures
        ipv4_of(
            strings::joined_by(
                Seq::new(4, |i: int| strings::decimal(ip[i] as nat)),
                seq!['.'],
            ),
        ) == Some(ip),
{
    let parts = Seq::new(4, |i: int| strings::decimal(ip[i] as nat));
    let none = Seq::<char>::empty();
    assert(none.push('.') =~= seq!['.']);
    assert forall|j: int| 0 <= j < parts.len() implies !(#[trigger] parts[j]).contains('.') by {
        strings::lemma_decimal(ip[j] as nat);
        if parts[j].contains('.') {
            let k = choose|k: int| 0 <= k < parts[j].len() && parts[j][k] == '.';
            assert(strings::is_digit(parts[j][k]));
        }
    }
    strings::law_split_undoes_join(parts, none, '.');
    assert forall|i: int| 0 <= i < 4 implies strings::parse_unsigned(#[trigger] parts[i], 255)
        == Some(ip[i] as nat) by {
        strings::lemma_parse_decimal(ip[i] as nat, 255);
    }
    let read = Seq::new(4, |i: int| strings::parse_unsigned(parts[i], 255)->0 as u8);
    assert(read =~= ip);
}

/// A URL is taken apart as it was put together: host, port and path. Without a
/// port it is 80, without a path `/`.
pub proof fn law_url_is_taken_apart(
    host: Seq<char>,
    ip: Seq<u8>,
    port: Option<nat>,
    path: Seq<char>,
)
    requires
        host.len() > 0,
        !host.contains('/'),
        !host.contains(':'),
        ipv4_of(host) == Some(ip),
        port is Some ==> port->0 <= 65535,
        path.len() == 0 || path[0] == '/',
    ensures
        ({
            let behind = match port {
                Some(p) => seq![':'] + strings::decimal(p),
                None => Seq::empty(),
            };
            url_parts("http://"@ + host + behind + path) == Some(
                UrlParts {
                    ip,
                    port: match port {
                        Some(p) => p,
                        None => 80,
                    },
                    path: if path.len() > 0 {
                        path
                    } else {
                        "/"@
                    },
                },
            )
        }),
{
    reveal_strlit("http://");
    let behind = match port {
        Some(p) => seq![':'] + strings::decimal(p),
        None => Seq::empty(),
    };
    let url = "http://"@ + host + behind + path;
    let authority = host + behind;
    let rest = url.skip(7);
    assert(rest =~= authority + path);
    assert(url.subrange(0, 7) =~= "http://"@);
    if port is Some {
        strings::lemma_decimal(port->0);
        strings::lemma_parse_decimal(port->0, 65535);
        strings::lemma_find_behind(host, ':', strings::decimal(port->0));
        assert(authority =~= host + seq![':'] + strings::decimal(port->0));
        assert(authority.skip(host.len() as int + 1) =~= strings::decimal(port->0));
    } else {
        strings::lemma_find_behind(host, ':', Seq::empty());
        assert(authority =~= host);
    }
    assert(authority.take(host.len() as int) =~= host);
    assert(!authority.contains('/')) by {
        if authority.contains('/') {
            let k = choose|k: int| 0 <= k < authority.len() && authority[k] == '/';
            if k < host.len() {
                assert(host[k] == '/');
            } else if port is Some && k > host.len() {
                assert(strings::is_digit(strings::decimal(port->0)[k - host.len() - 1]));
            }
        }
    }
    if path.len() > 0 {
        assert(rest =~= authority + seq!['/'] + path.skip(1));
        strings::lemma_find_behind(authority, '/', path.skip(1));
    } else {
        assert(rest =~= authority);
        strings::lemma_find_behind(authority, '/', Seq::empty());
    }
    assert(rest.take(authority.len() as int) =~= authority);
    assert(rest.skip(authority.len() as int) =~= path);
}

/// Another scheme is refused.
pub proof fn law_other_schemes_are_refused(url: Seq<char>)
    requires
        url.len() < 7 || url.take(7) != "http://"@,
    ensures
        url_parts(url) is None,
{
    reveal_strlit("http://");
    if url.len() >= 7 {
        assert(url.subrange(0, 7) =~= url.take(7));
    }
}

/// An address has four parts, and each is a number of at most 255.
pub proof fn law_address_has_four_parts(parts: Seq<Seq<char>>, i: int, n: nat)
    requires
        parts.len() > 0,
        forall|j: int| 0 <= j < parts.len() ==> !(#[trigger] parts[j]).contains('.'),
    ensures
        parts.len() != 4 ==> ipv4_of(strings::joined_by(parts, seq!['.'])) is None,
        parts.len() == 4 && 0 <= i < 4 && parts[i].len() == 0 ==> ipv4_of(
            strings::joined_by(parts, seq!['.']),
        ) is None,
        parts.len() == 4 && 0 <= i < 4 && parts[i] == strings::decimal(n) && n > 255 ==> ipv4_of(
            strings::joined_by(parts, seq!['.']),
        ) is None,
{
    let none = Seq::<char>::empty();
    assert(none.push('.') =~= seq!['.']);
    strings::law_split_undoes_join(parts, none, '.');
    strings::law_only_numbers_are_read(none, 255, 0, n);
    if 0 <= i < parts.len() && parts[i].len() == 0 {
        assert(parts[i] =~= none);
        assert(strings::parse_unsigned(parts[i], 255) is None);
    }
    if 0 <= i < parts.len() && parts[i] == strings::decimal(n) && n > 255 {
        assert(strings::parse_unsigned(parts[i], 255) is None);
    }
}

} // verus!
