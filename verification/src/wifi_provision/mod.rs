//! Wi-Fi provisioning: the captive portal that asks for credentials, the
//! storage of them, and the rules of the connection.

pub mod storage;

use vstd::prelude::*;
use vstd::utf8::*;

use crate::flash::SectorWrite;
use crate::strings;
use crate::strings::{bytes_match_at, chars_eq_ignore_case, chars_match_at, chars_of, find_bytes};
use crate::strings::{find_chars, line_chars, parse_number, push_decimal, push_text, scan_chars};
use crate::strings::{split_bytes, split_chars, str_eq, str_from_utf8, trim_chars};
use crate::wifi_provision::storage::{CredentialStorage, StorageError};

verus! {

/// Credentials as the provisioning portal received them.
#[derive(Clone, Debug)]
pub struct WifiCredentials {
    /// Name of the network.
    pub ssid: String,
    /// Its password, empty for an open network.
    pub password: String,
}

impl WifiCredentials {
    /// A description that does not show the password.
    pub fn describe(&self) -> (r: String)
        ensures
            r@ == "WifiCredentials { ssid: \""@ + self.ssid@ + "\", password: ****** }"@,
    {
        let mut s: String = String::new();
        push_text(&mut s, "WifiCredentials { ssid: \"");
        push_text(&mut s, self.ssid.as_str());
        push_text(&mut s, "\", password: ****** }");
        assert(s@ =~= "WifiCredentials { ssid: \""@ + self.ssid@ + "\", password: ****** }"@);
        s
    }
}

/// The access point of the portal.
#[derive(Clone, Debug)]
pub struct ProvisioningConfig {
    pub ap_ssid: &'static str,
    /// Empty for an open network.
    pub ap_password: &'static str,
    pub channel: u8,
    /// Address of the gateway, which is also the portal's.
    pub gateway: [u8; 4],
}

impl Default for ProvisioningConfig {
    fn default() -> (r: Self)
        ensures
            r.ap_ssid@ == "ESP-Radio-Setup"@,
            r.ap_password@ == ""@,
            r.channel == 1,
            r.gateway@ == seq![192u8, 168u8, 4u8, 1u8],
    {
        let gateway: [u8; 4] = [192, 168, 4, 1];
        assert(gateway@ =~= seq![192u8, 168u8, 4u8, 1u8]);
        ProvisioningConfig { ap_ssid: "ESP-Radio-Setup", ap_password: "", channel: 1, gateway }
    }
}

/// How a connection is attempted.
#[derive(Clone, Copy, Debug, PartialEq, Eq, Structural)]
pub struct ConnectionConfig {
    /// Most attempts before giving up.
    pub max_retries: u8,
    /// Pause between attempts in seconds.
    pub retry_delay_secs: u8,
    /// Whether credentials that do not work are forgotten.
    pub clear_on_failure: bool,
}

impl Default for ConnectionConfig {
    fn default() -> (r: Self)
        ensures
            r == (ConnectionConfig { max_retries: 3, retry_delay_secs: 3, clear_on_failure: true }),
    {
        ConnectionConfig { max_retries: 3, retry_delay_secs: 3, clear_on_failure: true }
    }
}

/// Errors of a connection.
#[derive(Debug, Clone, Copy, PartialEq, Eq, Structural)]
pub enum ConnectionError {
    WifiInit,
    ConnectionFailed,
    CredentialsCleared,
    DhcpTimeout,
}

impl ConnectionError {
    /// What went wrong, in words.
    pub fn message(&self) -> (r: &'static str)
        ensures
            r@ == (match *self {
                ConnectionError::WifiInit => "WiFi initialization failed"@,
                ConnectionError::ConnectionFailed => "all connection retries exhausted"@,
                ConnectionError::CredentialsCleared => "credentials cleared after connection failure"@,
                ConnectionError::DhcpTimeout => "DHCP timeout"@,
            }),
    {
        match self {
            ConnectionError::WifiInit => "WiFi initialization failed",
            ConnectionError::ConnectionFailed => "all connection retries exhausted",
            ConnectionError::CredentialsCleared => "credentials cleared after connection failure",
            ConnectionError::DhcpTimeout => "DHCP timeout",
        }
    }
}

/// Errors of provisioning.
#[derive(Debug, Clone, Copy, PartialEq, Eq, Structural)]
pub enum ProvisioningError {
    WifiInit,
    Network,
    HttpServer,
    InvalidCredentials,
}

impl ProvisioningError {
    /// What went wrong, in words.
    pub fn message(&self) -> (r: &'static str)
        ensures
            r@ == (match *self {
                ProvisioningError::WifiInit => "wifi initialization failed"@,
                ProvisioningError::Network => "network stack error"@,
                ProvisioningError::HttpServer => "http server error"@,
                ProvisioningError::InvalidCredentials => "invalid credentials received"@,
            }),
    {
        match self {
            ProvisioningError::WifiInit => "wifi initialization failed",
            ProvisioningError::Network => "network stack error",
            ProvisioningError::HttpServer => "http server error",
            ProvisioningError::InvalidCredentials => "invalid credentials received",
        }
    }
}

/// The page that asks for credentials.
pub const PROVISION_HTML: &'static str = r#"<!DOCTYPE html>
<html>
<head>
<meta charset="utf-8">
<meta name="viewport" content="width=device-width,initial-scale=1">
<title>WiFi Setup</title>
<style>
*{box-sizing:border-box;margin:0;padding:0}
body{font-family:-apple-system,sans-serif;background:#1a1a2e;color:#eee;min-height:100vh;display:flex;align-items:center;justify-content:center}
.card{background:#16213e;border-radius:12px;padding:2rem;width:90%;max-width:360px;box-shadow:0 8px 32px rgba(0,0,0,.3)}
h1{text-align:center;margin-bottom:1.5rem;font-size:1.4rem;color:#4fc3f7}
label{display:block;margin-bottom:.3rem;font-size:.9rem;color:#aaa}
input{width:100%;padding:.7rem;margin-bottom:1rem;border:1px solid #333;border-radius:6px;background:#0f3460;color:#eee;font-size:1rem}
input:focus{outline:none;border-color:#4fc3f7}
button{width:100%;padding:.8rem;background:#4fc3f7;color:#1a1a2e;border:none;border-radius:6px;font-size:1rem;font-weight:bold;cursor:pointer}
button:hover{background:#81d4fa}
.info{text-align:center;margin-top:1rem;font-size:.8rem;color:#666}
</style>
</head>
<body>
<div class="card">
<h1>&#128225; WiFi Setup</h1>
<form method="POST" action="/connect">
<label for="ssid">WiFi Name (SSID)</label>
<input type="text" id="ssid" name="ssid" required maxlength="32" placeholder="Enter WiFi name">
<label for="pass">Password</label>
<input type="password" id="pass" name="password" maxlength="64" placeholder="Enter WiFi password">
<button type="submit">Connect</button>
</form>
<p class="info">ESP32 WiFi Provisioning</p>
</div>
</body>
</html>"#;

/// The page shown once credentials have arrived.
pub const SUCCESS_HTML: &'static str = r#"<!DOCTYPE html>
<html>
<head>
<meta charset="utf-8">
<meta name="viewport" content="width=device-width,initial-scale=1">
<title>WiFi Setup - Success</title>
<style>
*{box-sizing:border-box;margin:0;padding:0}
body{font-family:-apple-system,sans-serif;background:#1a1a2e;color:#eee;min-height:100vh;display:flex;align-items:center;justify-content:center}
.card{background:#16213e;border-radius:12px;padding:2rem;width:90%;max-width:360px;box-shadow:0 8px 32px rgba(0,0,0,.3);text-align:center}
h1{margin-bottom:1rem;font-size:1.4rem;color:#66bb6a}
p{color:#aaa;line-height:1.6}
</style>
</head>
<body>
<div class="card">
<h1>&#9989; Credentials Saved!</h1>
<p>The device will now attempt to connect to your WiFi network. This AP will shut down shortly.</p>
</div>
</body>
</html>"#;

/// The page that asks for credentials.
pub fn provision_page() -> (r: &'static str)
    ensures
        r@ == PROVISION_HTML@,
{
    PROVISION_HTML
}

/// The page shown once credentials have arrived.
pub fn success_page() -> (r: &'static str)
    ensures
        r@ == SUCCESS_HTML@,
{
    SUCCESS_HTML
}

// ---------------------------------------------------------------------------
// Form data
// ---------------------------------------------------------------------------

/// The value of a hexadecimal digit.
pub open spec fn hex_digit(b: u8) -> Option<u8> {
    if 48 <= b <= 57 {
        Some((b - 48) as u8)
    } else if 97 <= b <= 102 {
        Some((b - 87) as u8)
    } else if 65 <= b <= 70 {
        Some((b - 55) as u8)
    } else {
        None
    }
}

/// The value of a hexadecimal digit.
pub fn hex_val(b: u8) -> (r: Option<u8>)
    ensures
        r == hex_digit(b),
{
    if 48 <= b && b <= 57 {
        Some(b - 48)
    } else if 97 <= b && b <= 102 {
        Some(b - 87)
    } else if 65 <= b && b <= 70 {
        Some(b - 55)
    } else {
        None
    }
}

/// Percent-decoding, byte by byte: `+` is a space, `%` and two hexadecimal
/// digits are the character with that code, a malformed or cut-off escape is
/// dropped, and every other byte is the character with its code.
pub open spec fn percent_decoded(b: Seq<u8>) -> Seq<char>
    decreases b.len(),
{
    if b.len() == 0 {
        Seq::empty()
    } else if b[0] == 43 {
        seq![' '] + percent_decoded(b.skip(1))
    } else if b[0] == 37 {
        if b.len() < 3 {
            Seq::empty()
        } else if hex_digit(b[1]) is Some && hex_digit(b[2]) is Some {
            seq![(hex_digit(b[1])->0 * 16 + hex_digit(b[2])->0) as char] + percent_decoded(
                b.skip(3),
            )
        } else {
            percent_decoded(b.skip(3))
        }
    } else {
        seq![b[0] as char] + percent_decoded(b.skip(1))
    }
}

/// A hexadecimal digit.
pub open spec fn digit_of(n: u8) -> u8 {
    if n < 10 {
        (n + 48) as u8
    } else {
        (n + 55) as u8
    }
}

/// Percent-encoding of every byte.
pub open spec fn escaped(b: Seq<u8>) -> Seq<u8>
    decreases b.len(),
{
    if b.len() == 0 {
        Seq::empty()
    } else {
        seq![37u8, digit_of((b[0] / 16) as u8), digit_of((b[0] % 16) as u8)] + escaped(b.skip(1))
    }
}

/// What was percent-encoded is decoded to the characters with those codes,
/// whichever they are.
pub proof fn law_escaped_bytes_decode(b: Seq<u8>)
    ensures
        percent_decoded(escaped(b)) == Seq::new(b.len(), |i: int| b[i] as char),
    decreases b.len(),
{
    if b.len() > 0 {
        law_escaped_bytes_decode(b.skip(1));
        let e = escaped(b);
        assert(e.skip(3) =~= escaped(b.skip(1)));
        assert(hex_digit(e[1]) == Some((b[0] / 16) as u8));
        assert(hex_digit(e[2]) == Some((b[0] % 16) as u8));
        assert(seq![b[0] as char] + Seq::new((b.len() - 1) as nat, |i: int| b.skip(1)[i] as char)
            =~= Seq::new(b.len(), |i: int| b[i] as char));
    }
    assert(percent_decoded(escaped(b)) =~= Seq::new(b.len(), |i: int| b[i] as char));
}

fn url_decode_bytes(b: &[u8]) -> (r: String)
    ensures
        r@ == percent_decoded(b@),
{
    let mut out: String = String::new();
    let mut i: usize = 0;
    assert(b@.skip(0) =~= b@);
    while i < b.len()
        invariant
            0 <= i <= b@.len(),
            out@ + percent_decoded(b@.skip(i as int)) == percent_decoded(b@),
        decreases b@.len() - i,
    {
        let ghost rest = b@.skip(i as int);
        let ghost before = out@;
        if b[i] == 43 {
            assert(rest.skip(1) =~= b@.skip(i + 1));
            out.push(' ');
            assert(before + (seq![' '] + percent_decoded(rest.skip(1))) =~= out@ + percent_decoded(
                rest.skip(1),
            ));
            i = i + 1;
        } else if b[i] == 37 {
            if b.len() - i < 3 {
                assert(out@ + Seq::<char>::empty() =~= out@);
                return out;
            }
            assert(rest.skip(3) =~= b@.skip(i + 3));
            match (hex_val(b[i + 1]), hex_val(b[i + 2])) {
                (Some(h), Some(l)) => {
                    let code: u8 = h * 16 + l;
                    out.push(code as char);
                    assert(before + (seq![code as char] + percent_decoded(rest.skip(3))) =~= out@
                        + percent_decoded(rest.skip(3)));
                },
                _ => {},
            }
            i = i + 3;
        } else {
            assert(rest.skip(1) =~= b@.skip(i + 1));
            out.push(b[i] as char);
            assert(before + (seq![rest[0] as char] + percent_decoded(rest.skip(1))) =~= out@
                + percent_decoded(rest.skip(1)));
            i = i + 1;
        }
    }
    assert(b@.skip(i as int).len() == 0);
    assert(out@ + Seq::<char>::empty() =~= out@);
    out
}

/// Percent-decoding of the bytes of `input`.
pub fn url_decode(input: &str) -> (r: String)
    ensures
        r@ == percent_decoded(encode_utf8(input@)),
{
    url_decode_bytes(input.as_bytes())
}

/// The part of a form field before its first `=`.
pub open spec fn field_key(pair: Seq<u8>) -> Seq<u8> {
    pair.take(strings::find_from(pair, 61u8, 0))
}

/// The decoded part of a form field behind its first `=`, empty without one.
pub open spec fn field_value(pair: Seq<u8>) -> Seq<char> {
    let k = strings::find_from(pair, 61u8, 0);
    if k < pair.len() {
        percent_decoded(pair.skip(k + 1))
    } else {
        Seq::empty()
    }
}

/// The value of the last of the first `n` fields whose key is `key`.
pub open spec fn form_value(fields: Seq<Seq<u8>>, n: int, key: Seq<u8>) -> Option<Seq<char>>
    decreases n,
{
    if n <= 0 {
        None
    } else if field_key(fields[n - 1]) == key {
        Some(field_value(fields[n - 1]))
    } else {
        form_value(fields, n - 1, key)
    }
}

pub open spec fn ssid_key() -> Seq<u8> {
    seq![115u8, 115u8, 105u8, 100u8]
}

pub open spec fn password_key() -> Seq<u8> {
    seq![112u8, 97u8, 115u8, 115u8, 119u8, 111u8, 114u8, 100u8]
}

/// SSID and password of a form body, where it has a non-empty `ssid` field.
pub open spec fn form_credentials(body: Seq<u8>) -> Option<(Seq<char>, Seq<char>)> {
    let fields = strings::split(body, seq![38u8]);
    let n = fields.len() as int;
    match form_value(fields, n, ssid_key()) {
        Some(ssid) => if ssid.len() == 0 {
            None
        } else {
            Some(
                (
                    ssid,
                    match form_value(fields, n, password_key()) {
                        Some(p) => p,
                        None => Seq::empty(),
                    },
                ),
            )
        },
        None => None,
    }
}

fn find_byte(s: &[u8], x: u8) -> (r: usize)
    ensures
        r == strings::find_from(s@, x, 0),
        r <= s@.len(),
{
    let mut i: usize = 0;
    while i < s.len()
        invariant
            0 <= i <= s@.len(),
            strings::find_from(s@, x, 0) == strings::find_from(s@, x, i as int),
        decreases s@.len() - i,
    {
        if s[i] == x {
            return i;
        }
        i = i + 1;
    }
    i
}

/// Parses URL-encoded form data.
pub fn parse_form_data(body: &str) -> (r: Option<WifiCredentials>)
    ensures
        match r {
            Some(c) => form_credentials(encode_utf8(body@)) == Some((c.ssid@, c.password@)),
            None => form_credentials(encode_utf8(body@)) is None,
        },
{
    let all: &[u8] = body.as_bytes();
    let amp: [u8; 1] = [38];
    assert(amp@ =~= seq![38u8]);
    let pairs: Vec<&[u8]> = split_bytes(all, amp.as_slice());
    let ghost fields = strings::split(encode_utf8(body@), seq![38u8]);
    let ssid_name: [u8; 4] = [115, 115, 105, 100];
    let pass_name: [u8; 8] = [112, 97, 115, 115, 119, 111, 114, 100];
    assert(ssid_name@ =~= ssid_key());
    assert(pass_name@ =~= password_key());
    let mut ssid: Option<String> = None;
    let mut password: Option<String> = None;
    let mut i: usize = 0;
    while i < pairs.len()
        invariant
            0 <= i <= pairs@.len(),
            pairs@.len() == fields.len(),
            forall|j: int| 0 <= j < pairs@.len() ==> (#[trigger] pairs@[j])@ == fields[j],
            ssid_name@ == ssid_key(),
            pass_name@ == password_key(),
            match ssid {
                Some(s) => form_value(fields, i as int, ssid_key()) == Some(s@),
                None => form_value(fields, i as int, ssid_key()) is None,
            },
            match password {
                Some(s) => form_value(fields, i as int, password_key()) == Some(s@),
                None => form_value(fields, i as int, password_key()) is None,
            },
        decreases pairs@.len() - i,
    {
        let pair: &[u8] = pairs[i];
        let eq: usize = find_byte(pair, 61);
        let key: &[u8] = vstd::slice::slice_subrange(pair, 0, eq);
        assert(key@ =~= field_key(pair@));
        let value: String = if eq < pair.len() {
            let raw: &[u8] = vstd::slice::slice_subrange(pair, eq + 1, pair.len());
            assert(raw@ =~= pair@.skip(eq + 1));
            url_decode_bytes(raw)
        } else {
            String::new()
        };
        let is_ssid: bool = key.len() == 4 && bytes_match_at(key, ssid_name.as_slice(), 0);
        let is_pass: bool = key.len() == 8 && bytes_match_at(key, pass_name.as_slice(), 0);
        assert(is_ssid == (key@ == ssid_key())) by {
            assert(key@.len() == 4 ==> key@.subrange(0, 4) =~= key@);
        }
        assert(is_pass == (key@ == password_key())) by {
            assert(key@.len() == 8 ==> key@.subrange(0, 8) =~= key@);
        }
        if is_ssid {
            assert(ssid_key().len() != password_key().len());
            ssid = Some(value);
        } else if is_pass {
            password = Some(value);
        }
        i = i + 1;
    }
    match ssid {
        None => None,
        Some(ssid) => {
            if ssid.as_str().is_empty() {
                return None;
            }
            let password: String = match password {
                Some(p) => p,
                None => String::new(),
            };
            Some(WifiCredentials { ssid, password })
        },
    }
}

// ---------------------------------------------------------------------------
// HTTP requests
// ---------------------------------------------------------------------------

/// Method of a request.
#[derive(Debug, Clone, Copy, PartialEq, Eq, Structural)]
pub enum HttpMethod {
    Get,
    Post,
    Other,
}

/// A request, as far as the portal reads it.
#[derive(Debug)]
pub struct HttpRequest<'a> {
    pub method: HttpMethod,
    pub path: &'a str,
    pub body: &'a str,
    /// Announced length of the body, 0 where none was announced.
    pub content_length: usize,
}

/// A request as mathematical values.
pub struct RequestView {
    pub method: HttpMethod,
    pub path: Seq<char>,
    pub body: Seq<char>,
    pub content_length: nat,
}

impl<'a> View for HttpRequest<'a> {
    type V = RequestView;

    open spec fn view(&self) -> RequestView {
        RequestView {
            method: self.method,
            path: self.path@,
            body: self.body@,
            content_length: self.content_length as nat,
        }
    }
}

pub open spec fn blank_line() -> Seq<char> {
    seq!['\r', '\n', '\r', '\n']
}

/// What stands before the first blank line, or everything without one.
pub open spec fn headers_part(text: Seq<char>) -> Seq<char> {
    match strings::find_seq(text, blank_line(), 0) {
        Some(k) => text.take(k),
        None => text,
    }
}

/// What stands behind the first blank line, or nothing without one.
pub open spec fn body_part(text: Seq<char>) -> Seq<char> {
    match strings::find_seq(text, blank_line(), 0) {
        Some(k) => text.skip(k + 4),
        None => Seq::empty(),
    }
}

pub open spec fn method_of(word: Seq<char>) -> HttpMethod {
    if word == "GET"@ {
        HttpMethod::Get
    } else if word == "POST"@ {
        HttpMethod::Post
    } else {
        HttpMethod::Other
    }
}

/// The number in a header line, 0 where it is malformed.
pub open spec fn number_or_zero(text: Seq<char>) -> nat {
    match strings::parse_unsigned(strings::trim(text), usize::MAX as nat) {
        Some(n) => n,
        None => 0,
    }
}

/// Whether a header line announces the length of the body.
pub open spec fn is_length_line(line: Seq<char>) -> bool {
    line.len() >= 15 && strings::eq_ignore_case(line.take(15), "content-length:"@)
}

/// The length announced by the header lines `1..n`; the last one counts.
pub open spec fn announced_length(lines: Seq<Seq<char>>, n: int) -> nat
    decreases n,
{
    if n <= 1 {
        0
    } else if is_length_line(lines[n - 1]) {
        number_or_zero(strings::split(lines[n - 1], seq![':'])[1])
    } else {
        announced_length(lines, n - 1)
    }
}

/// The request in a text, if its first line holds two words.
pub open spec fn request_of(text: Seq<char>) -> Option<RequestView> {
    let lines = strings::lines(headers_part(text));
    let l = lines[0];
    let m0 = strings::scan(l, 0, false);
    let m1 = strings::scan(l, m0, true);
    let p0 = strings::scan(l, m1, false);
    let p1 = strings::scan(l, p0, true);
    if lines.len() > 0 && m0 < l.len() && p0 < l.len() {
        Some(
            RequestView {
                method: method_of(l.subrange(m0, m1)),
                path: l.subrange(p0, p1),
                body: body_part(text),
                content_length: announced_length(lines, lines.len() as int),
            },
        )
    } else {
        None
    }
}

/// The request in raw bytes, which must be text.
pub open spec fn request_in(raw: Seq<u8>) -> Option<RequestView> {
    if valid_utf8(raw) {
        request_of(decode_utf8(raw))
    } else {
        None
    }
}

proof fn lemma_split_two(s: Seq<char>)
    requires
        is_length_line(s),
    ensures
        strings::split(s, seq![':']).len() >= 2,
{
    reveal_strlit("content-length:");
    let colon = seq![':'];
    assert(s[14] == ':') by {
        assert(strings::ascii_lower(s.take(15)[14]) == strings::ascii_lower("content-length:"@[14]));
        assert(strings::ascii_lower("content-length:"@[14]) == ':');
    }
    strings::lemma_find_seq(s, colon, 0);
    assert(s.subrange(14, 15) =~= colon);
    assert(strings::matches_at(s, colon, 14));
    let k = strings::find_seq(s, colon, 0)->0;
    assert(strings::split(s, colon) == seq![s.take(k)] + strings::split(
        s.skip(k + 1),
        colon,
    ));
    assert(strings::split(s.skip(k + 1), colon).len() >= 1);
}

/// Parses a raw request out of the first `len` bytes of `buf`.
pub fn parse_http_request(buf: &[u8], len: usize) -> (r: Option<HttpRequest<'_>>)
    requires
        len <= buf@.len(),
    ensures
        match r {
            Some(q) => request_in(buf@.take(len as int)) == Some(q@),
            None => request_in(buf@.take(len as int)) is None,
        },
{
    let raw: &[u8] = vstd::slice::slice_subrange(buf, 0, len);
    assert(raw@ =~= buf@.take(len as int));
    let text: &str = match str_from_utf8(raw) {
        Some(text) => text,
        None => {
            return None;
        },
    };
    let all: Vec<char> = chars_of(text);
    let blank: [char; 4] = ['\r', '\n', '\r', '\n'];
    assert(blank@ =~= blank_line());
    proof {
        strings::lemma_find_seq(text@, blank_line(), 0);
    }
    let n: usize = all.len();
    let head_len: usize = match find_chars(all.as_slice(), blank.as_slice(), 0) {
        Some(pos) => pos,
        None => n,
    };
    let head: &[char] = vstd::slice::slice_subrange(all.as_slice(), 0, head_len);
    assert(head@ =~= headers_part(text@));
    let body_at: usize = if head_len < n {
        head_len + 4
    } else {
        n
    };
    let body: &str = text.substring_char(body_at, n);
    assert(body@ =~= body_part(text@));
    let lines: Vec<&[char]> = line_chars(head);
    let ghost all_lines = strings::lines(headers_part(text@));
    if lines.len() == 0 {
        return None;
    }
    let line: &[char] = lines[0];
    let m0: usize = scan_chars(line, 0, false);
    if m0 >= line.len() {
        return None;
    }
    let m1: usize = scan_chars(line, m0, true);
    let p0: usize = scan_chars(line, m1, false);
    if p0 >= line.len() {
        return None;
    }
    let p1: usize = scan_chars(line, p0, true);
    assert(line@.len() <= head@.len() && forall|i: int| 0 <= i < line@.len() ==> line@[i] == head@[i])
        by {
        let k = strings::find_from(head@, '\n', 0);
        strings::lemma_find_from(head@, '\n', 0);
    }
    let path: &str = text.substring_char(p0, p1);
    assert(path@ =~= line@.subrange(p0 as int, p1 as int));
    let word: &str = text.substring_char(m0, m1);
    assert(word@ =~= line@.subrange(m0 as int, m1 as int));
    let method: HttpMethod = if str_eq(word, "GET") {
        HttpMethod::Get
    } else if str_eq(word, "POST") {
        HttpMethod::Post
    } else {
        HttpMethod::Other
    };
    let name: Vec<char> = chars_of("content-length:");
    let colon: [char; 1] = [':'];
    assert(colon@ =~= seq![':']);
    proof {
        reveal_strlit("content-length:");
    }
    let mut content_length: usize = 0;
    let mut i: usize = 1;
    while i < lines.len()
        invariant
            1 <= i <= lines@.len(),
            lines@.len() == all_lines.len(),
            name@ == "content-length:"@,
            name@.len() == 15,
            colon@ == seq![':'],
            forall|j: int| 0 <= j < lines@.len() ==> (#[trigger] lines@[j])@ == all_lines[j],
            content_length == announced_length(all_lines, i as int),
        decreases lines@.len() - i,
    {
        let l: &[char] = lines[i];
        if l.len() >= 15 {
            let start: &[char] = vstd::slice::slice_subrange(l, 0, 15);
            assert(start@ =~= l@.take(15));
            if chars_eq_ignore_case(start, name.as_slice()) {
                proof {
                    lemma_split_two(l@);
                }
                let parts: Vec<&[char]> = split_chars(l, colon.as_slice());
                content_length = match parse_number(trim_chars(parts[1]), usize::MAX as u64) {
                    Some(v) => v as usize,
                    None => 0,
                };
            }
        }
        i = i + 1;
    }
    Some(HttpRequest { method, path, body, content_length })
}

// ---------------------------------------------------------------------------
// HTTP responses
// ---------------------------------------------------------------------------

/// Writes text into a buffer of fixed size, each piece entirely or not at all.
/// Once a piece did not fit, nothing more is written.
pub struct BufWriter {
    pub pos: usize,
    pub overflowed: bool,
}

impl BufWriter {
    pub fn new() -> (r: BufWriter)
        ensures
            r.pos == 0,
            !r.overflowed,
    {
        BufWriter { pos: 0, overflowed: false }
    }

    /// Appends `s` to what was written into `buf`.
    pub fn write_str(&mut self, buf: &mut [u8], s: &str) -> (r: Result<(), ()>)
        requires
            old(self).pos <= old(buf)@.len(),
        ensures
            final(self).pos <= final(buf)@.len(),
            final(buf)@.len() == old(buf)@.len(),
            ({
                let b = encode_utf8(s@);
                if old(self).overflowed || b.len() > old(buf)@.len() - old(self).pos {
                    &&& r is Err
                    &&& final(self).overflowed
                    &&& final(self).pos == old(self).pos
                    &&& final(buf)@ == old(buf)@
                } else {
                    &&& r is Ok
                    &&& !final(self).overflowed
                    &&& final(self).pos == old(self).pos + b.len()
                    &&& final(buf)@ == old(buf)@.take(old(self).pos as int) + b + old(buf)@.skip(
                        old(self).pos + b.len(),
                    )
                }
            }),
    {
        if self.overflowed {
            return Err(());
        }
        let bytes: &[u8] = s.as_bytes();
        let remaining: usize = buf.len() - self.pos;
        if bytes.len() > remaining {
            self.overflowed = true;
            return Err(());
        }
        let ghost before = buf@;
        storage::put_bytes(buf, self.pos, bytes);
        assert(buf@ =~= before.take(self.pos as int) + bytes@ + before.skip(
            self.pos + bytes@.len(),
        ));
        self.pos = self.pos + bytes.len();
        Ok(())
    }

    /// How much was written, or `None` if a piece did not fit.
    pub fn finish(self) -> (r: Option<usize>)
        ensures
            self.overflowed ==> r is None,
            !self.overflowed ==> r == Some(self.pos),
    {
        if self.overflowed {
            None
        } else {
            Some(self.pos)
        }
    }
}

/// All pieces of a text, one behind the other, as bytes.
pub open spec fn joined(pieces: Seq<Seq<char>>) -> Seq<u8>
    decreases pieces.len(),
{
    if pieces.len() == 0 {
        Seq::empty()
    } else {
        joined(pieces.drop_last()) + encode_utf8(pieces.last())
    }
}

/// `buf` holds `bytes` in front and is otherwise `old`.
pub open spec fn overwritten(old_buf: Seq<u8>, bytes: Seq<u8>) -> Seq<u8> {
    bytes + old_buf.skip(bytes.len() as int)
}

/// What writing `bytes` into `before` leaves: everything and its length where
/// it fits, else a prefix of it and 0.
pub open spec fn written(before: Seq<u8>, after: Seq<u8>, bytes: Seq<u8>, r: int) -> bool {
    if bytes.len() <= before.len() {
        r == bytes.len() && after == overwritten(before, bytes)
    } else {
        r == 0 && exists|k: int|
            0 <= k <= before.len() && #[trigger] bytes.take(k).len() == k && after == overwritten(
                before,
                bytes.take(k),
            )
    }
}

fn write_pieces(buf: &mut [u8], pieces: &Vec<&str>) -> (r: usize)
    ensures
        written(
            old(buf)@,
            final(buf)@,
            joined(Seq::new(pieces@.len(), |i: int| pieces@[i]@)),
            r as int,
        ),
{
    let ghost texts = Seq::new(pieces@.len(), |i: int| pieces@[i]@);
    let ghost before = buf@;
    let mut w: BufWriter = BufWriter::new();
    let mut i: usize = 0;
    // Pieces that were written, counted up to the first that did not fit.
    let ghost mut done: int = 0;
    assert(joined(texts.take(0)) =~= Seq::<u8>::empty());
    assert(overwritten(before, Seq::empty()) =~= before);
    while i < pieces.len()
        invariant
            0 <= i <= pieces@.len(),
            0 <= done <= i,
            texts == Seq::new(pieces@.len(), |i: int| pieces@[i]@),
            w.pos <= buf@.len(),
            buf@.len() == before.len(),
            w.pos == joined(texts.take(done)).len(),
            buf@ == overwritten(before, joined(texts.take(done))),
            !w.overflowed ==> done == i,
            w.overflowed ==> done < i && joined(texts.take(done + 1)).len() > before.len(),
        decreases pieces@.len() - i,
    {
        let ghost cur = buf@;
        let ghost was = w.overflowed;
        let ghost so_far = joined(texts.take(done));
        let _ = w.write_str(buf, pieces[i]);
        proof {
            if !was {
                assert(texts.take(i + 1).drop_last() =~= texts.take(i as int));
                assert(texts.take(i + 1).last() == pieces@[i as int]@);
                let b = encode_utf8(pieces@[i as int]@);
                assert(joined(texts.take(i + 1)) == so_far + b);
                if !w.overflowed {
                    assert(buf@ =~= overwritten(before, so_far + b));
                    done = i + 1;
                }
            }
        }
        i = i + 1;
    }
    proof {
        assert(texts.take(texts.len() as int) =~= texts);
        if w.overflowed {
            lemma_joined_prefix(texts, done);
            lemma_joined_prefix(texts, done + 1);
            let whole = joined(texts);
            let part = joined(texts.take(done));
            assert(whole.take(part.len() as int) =~= part);
            assert(whole.take(part.len() as int).len() == part.len());
        }
    }
    match w.finish() {
        Some(len) => len,
        None => 0,
    }
}

proof fn lemma_joined_prefix(texts: Seq<Seq<char>>, k: int)
    requires
        0 <= k <= texts.len(),
    ensures
        joined(texts.take(k)).len() <= joined(texts).len(),
        joined(texts).take(joined(texts.take(k)).len() as int) == joined(texts.take(k)),
    decreases texts.len(),
{
    if k == texts.len() {
        assert(texts.take(k) =~= texts);
        assert(joined(texts).take(joined(texts).len() as int) =~= joined(texts));
    } else {
        lemma_joined_prefix(texts.drop_last(), k);
        assert(texts.drop_last().take(k) =~= texts.take(k));
        let part = joined(texts.take(k));
        assert(joined(texts).take(part.len() as int) =~= joined(texts.drop_last()).take(
            part.len() as int,
        ));
    }
}

/// The pieces of a response.
pub open spec fn response_pieces(
    status: u16,
    status_text: Seq<char>,
    content_type: Seq<char>,
    body: Seq<char>,
) -> Seq<Seq<char>> {
    seq![
        "HTTP/1.1 "@,
        strings::decimal(status as nat),
        " "@,
        status_text,
        "\r\nContent-Type: "@,
        content_type,
        "\r\nContent-Length: "@,
        strings::decimal(encode_utf8(body).len()),
        "\r\nConnection: close\r\n\r\n"@,
        body,
    ]
}

/// The pieces of a redirect.
pub open spec fn redirect_pieces(location: Seq<char>) -> Seq<Seq<char>> {
    seq![
        "HTTP/1.1 302 Found\r\nLocation: "@,
        location,
        "\r\nContent-Length: 0\r\nConnection: close\r\n\r\n"@,
    ]
}

/// Writes a response into `buf` and returns its length, or 0 if it does not
/// fit.
pub fn format_http_response(
    buf: &mut [u8],
    status: u16,
    status_text: &str,
    content_type: &str,
    body: &str,
) -> (r: usize)
    ensures
        written(
            old(buf)@,
            final(buf)@,
            joined(response_pieces(status, status_text@, content_type@, body@)),
            r as int,
        ),
{
    let mut code: String = String::new();
    push_decimal(&mut code, status as u64);
    assert(code@ =~= strings::decimal(status as nat));
    let mut length: String = String::new();
    let body_len: usize = body.as_bytes().len();
    push_decimal(&mut length, body_len as u64);
    assert(length@ =~= strings::decimal(encode_utf8(body@).len()));
    let pieces: Vec<&str> = vec![
        "HTTP/1.1 ",
        code.as_str(),
        " ",
        status_text,
        "\r\nContent-Type: ",
        content_type,
        "\r\nContent-Length: ",
        length.as_str(),
        "\r\nConnection: close\r\n\r\n",
        body,
    ];
    assert(Seq::new(pieces@.len(), |i: int| pieces@[i]@) =~= response_pieces(
        status,
        status_text@,
        content_type@,
        body@,
    ));
    write_pieces(buf, &pieces)
}

/// Writes a redirect to `location` into `buf` and returns its length, or 0 if
/// it does not fit.
pub fn format_redirect_response(buf: &mut [u8], location: &str) -> (r: usize)
    ensures
        written(old(buf)@, final(buf)@, joined(redirect_pieces(location@)), r as int),
{
    let pieces: Vec<&str> = vec![
        "HTTP/1.1 302 Found\r\nLocation: ",
        location,
        "\r\nContent-Length: 0\r\nConnection: close\r\n\r\n",
    ];
    assert(Seq::new(pieces@.len(), |i: int| pieces@[i]@) =~= redirect_pieces(location@));
    write_pieces(buf, &pieces)
}

// ---------------------------------------------------------------------------
// The portal
// ---------------------------------------------------------------------------

/// Size of the buffer for one request.
pub const REQUEST_LIMIT: usize = 2048;

/// Size of the buffer for one response.
pub const RESPONSE_LIMIT: usize = 4096;

/// Whether the bytes read so far make up a whole request: the headers have
/// ended, and of a `POST` the announced body has arrived too.
pub open spec fn request_complete(raw: Seq<u8>) -> bool {
    &&& strings::find_seq(raw, seq![13u8, 10u8, 13u8, 10u8], 0) is Some
    &&& {
        ||| !valid_utf8(raw)
        ||| !strings::matches_at(decode_utf8(raw), "POST"@, 0)
        ||| request_in(raw) is Some && encode_utf8(request_in(raw)->0.body).len()
            >= request_in(raw)->0.content_length
    }
}

/// The bytes of a response, if they fit the buffer; else none.
pub open spec fn fitting(bytes: Seq<u8>) -> Seq<u8> {
    if bytes.len() <= RESPONSE_LIMIT {
        bytes
    } else {
        Seq::empty()
    }
}

/// A page of the portal.
pub open spec fn page(html: Seq<char>) -> Seq<u8> {
    fitting(joined(response_pieces(200, "OK"@, "text/html; charset=utf-8"@, html)))
}

proof fn lemma_provision_page_is_ascii()
    ensures
        is_ascii_chars(PROVISION_HTML@),
        PROVISION_HTML@.len() == 1532,
{
    reveal_strlit(
        r#"<!DOCTYPE html>
<html>
<head>
<meta charset="utf-8">
<meta name="viewport" content="width=device-width,initial-scale=1">
<title>WiFi Setup</title>
<style>
*{box-sizing:border-box;margin:0;padding:0}
body{font-family:-apple-system,sans-serif;background:#1a1a2e;color:#eee;min-height:100vh;display:flex;align-items:center;justify-content:center}
.card{background:#16213e;border-radius:12px;padding:2rem;width:90%;max-width:360px;box-shadow:0 8px 32px rgba(0,0,0,.3)}
h1{text-align:center;margin-bottom:1.5rem;font-size:1.4rem;color:#4fc3f7}
label{display:block;margin-bottom:.3rem;font-size:.9rem;color:#aaa}
input{width:100%;padding:.7rem;margin-bottom:1rem;border:1px solid #333;border-radius:6px;background:#0f3460;color:#eee;font-size:1rem}
input:focus{outline:none;border-color:#4fc3f7}
button{width:100%;padding:.8rem;background:#4fc3f7;color:#1a1a2e;border:none;border-radius:6px;font-size:1rem;font-weight:bold;cursor:pointer}
button:hover{background:#81d4fa}
.info{text-align:center;margin-top:1rem;font-size:.8rem;color:#666}
</style>
</head>
<body>
<div class="card">
<h1>&#128225; WiFi Setup</h1>
<form method="POST" action="/connect">
<label for="ssid">WiFi Name (SSID)</label>
<input type="text" id="ssid" name="ssid" required maxlength="32" placeholder="Enter WiFi name">
<label for="pass">Password</label>
<input type="password" id="pass" name="password" maxlength="64" placeholder="Enter WiFi password">
<button type="submit">Connect</button>
</form>
<p class="info">ESP32 WiFi Provisioning</p>
</div>
</body>
</html>"#,
    );
}

proof fn lemma_success_page_is_ascii()
    ensures
        is_ascii_chars(SUCCESS_HTML@),
        SUCCESS_HTML@.len() == 778,
{
    reveal_strlit(
        r#"<!DOCTYPE html>
<html>
<head>
<meta charset="utf-8">
<meta name="viewport" content="width=device-width,initial-scale=1">
<title>WiFi Setup - Success</title>
<style>
*{box-sizing:border-box;margin:0;padding:0}
body{font-family:-apple-system,sans-serif;background:#1a1a2e;color:#eee;min-height:100vh;display:flex;align-items:center;justify-content:center}
.card{background:#16213e;border-radius:12px;padding:2rem;width:90%;max-width:360px;box-shadow:0 8px 32px rgba(0,0,0,.3);text-align:center}
h1{margin-bottom:1rem;font-size:1.4rem;color:#66bb6a}
p{color:#aaa;line-height:1.6}
</style>
</head>
<body>
<div class="card">
<h1>&#9989; Credentials Saved!</h1>
<p>The device will now attempt to connect to your WiFi network. This AP will shut down shortly.</p>
</div>
</body>
</html>"#,
    );
}

proof fn lemma_response_len(
    status: u16,
    status_text: Seq<char>,
    content_type: Seq<char>,
    body: Seq<char>,
)
    ensures
        joined(response_pieces(status, status_text, content_type, body)).len() == encode_utf8(
            "HTTP/1.1 "@,
        ).len() + encode_utf8(strings::decimal(status as nat)).len() + encode_utf8(" "@).len()
            + encode_utf8(status_text).len() + encode_utf8("\r\nContent-Type: "@).len()
            + encode_utf8(content_type).len() + encode_utf8("\r\nContent-Length: "@).len()
            + encode_utf8(strings::decimal(encode_utf8(body).len())).len() + encode_utf8(
            "\r\nConnection: close\r\n\r\n"@,
        ).len() + encode_utf8(body).len(),
{
    reveal_with_fuel(joined, 11);
}

proof fn lemma_page_fits(html: Seq<char>)
    requires
        is_ascii_chars(html),
        html.len() <= 2000,
    ensures
        joined(response_pieces(200, "OK"@, "text/html; charset=utf-8"@, html)).len()
            <= RESPONSE_LIMIT,
{
    reveal_strlit("HTTP/1.1 ");
    reveal_strlit(" ");
    reveal_strlit("OK");
    reveal_strlit("\r\nContent-Type: ");
    reveal_strlit("text/html; charset=utf-8");
    reveal_strlit("\r\nContent-Length: ");
    reveal_strlit("\r\nConnection: close\r\n\r\n");
    is_ascii_chars_encode_utf8("HTTP/1.1 "@);
    is_ascii_chars_encode_utf8(" "@);
    is_ascii_chars_encode_utf8("OK"@);
    is_ascii_chars_encode_utf8("\r\nContent-Type: "@);
    is_ascii_chars_encode_utf8("text/html; charset=utf-8"@);
    is_ascii_chars_encode_utf8("\r\nContent-Length: "@);
    is_ascii_chars_encode_utf8("\r\nConnection: close\r\n\r\n"@);
    is_ascii_chars_encode_utf8(html);
    strings::lemma_decimal_ascii(200);
    strings::lemma_decimal_ascii(html.len());
    is_ascii_chars_encode_utf8(strings::decimal(200));
    is_ascii_chars_encode_utf8(strings::decimal(html.len()));
    lemma_response_len(200, "OK"@, "text/html; charset=utf-8"@, html);
}

/// Both pages of the portal fit the buffer for a response, so that they are
/// sent whole.
pub proof fn law_pages_fit(html: Seq<char>)
    requires
        html == PROVISION_HTML@ || html == SUCCESS_HTML@,
    ensures
        joined(response_pieces(200, "OK"@, "text/html; charset=utf-8"@, html)).len()
            <= RESPONSE_LIMIT,
        page(html) == joined(response_pieces(200, "OK"@, "text/html; charset=utf-8"@, html)),
{
    lemma_provision_page_is_ascii();
    lemma_success_page_is_ascii();
    lemma_page_fits(html);
}

/// What the portal answers.
pub struct PortalAnswer {
    pub response: Seq<u8>,
    /// SSID and password, where the request delivered them.
    pub credentials: Option<(Seq<char>, Seq<char>)>,
}

/// The answer to the bytes of a request.
pub open spec fn portal_answer(raw: Seq<u8>) -> PortalAnswer {
    let redirect = PortalAnswer {
        response: fitting(joined(redirect_pieces("/"@))),
        credentials: None,
    };
    match request_in(raw) {
        Some(q) => if q.method == HttpMethod::Get && (q.path == "/"@ || q.path == "/index.html"@) {
            PortalAnswer { response: page(PROVISION_HTML@), credentials: None }
        } else if q.method == HttpMethod::Post && q.path == "/connect"@ {
            match form_credentials(encode_utf8(q.body)) {
                Some(c) => PortalAnswer { response: page(SUCCESS_HTML@), credentials: Some(c) },
                None => redirect,
            }
        } else {
            redirect
        },
        None => PortalAnswer {
            response: fitting(
                joined(response_pieces(400, "Bad Request"@, "text/plain"@, "Bad Request"@)),
            ),
            credentials: None,
        },
    }
}

/// What to send, and the credentials where the portal is done.
pub struct PortalReply {
    pub response: Vec<u8>,
    pub credentials: Option<WifiCredentials>,
}

/// What to do after a read.
#[derive(Debug, Clone, Copy, PartialEq, Eq, Structural)]
pub enum PortalStep {
    Read,
    /// Answer with [`PortalSession::reply`].
    Answer,
    /// Close without an answer.
    Close,
}

/// One connection to the portal.
pub struct PortalSession {
    received: Vec<u8>,
}

impl PortalSession {
    /// The bytes read so far.
    pub closed spec fn view(&self) -> Seq<u8> {
        self.received@
    }

    /// A connection from which nothing was read.
    pub fn new() -> (r: PortalSession)
        ensures
            r@ == Seq::<u8>::empty(),
    {
        PortalSession { received: Vec::new() }
    }

    /// Bytes were read (one or more, as many as there was room for at most).
    pub fn on_data(&mut self, chunk: &[u8]) -> (r: PortalStep)
        requires
            0 < chunk@.len() <= REQUEST_LIMIT - old(self)@.len(),
        ensures
            final(self)@ == old(self)@ + chunk@,
            r == (if request_complete(final(self)@) || final(self)@.len() >= REQUEST_LIMIT {
                PortalStep::Answer
            } else {
                PortalStep::Read
            }),
    {
        let ghost before = self.received@;
        self.received.extend_from_slice(chunk);
        assert(self.received@ =~= before + chunk@);
        if self.complete() || self.received.len() >= REQUEST_LIMIT {
            PortalStep::Answer
        } else {
            PortalStep::Read
        }
    }

    /// The peer closed or a read failed.
    pub fn on_end(&self) -> (r: PortalStep)
        ensures
            r == (if self@.len() == 0 {
                PortalStep::Close
            } else {
                PortalStep::Answer
            }),
    {
        if self.received.len() == 0 {
            PortalStep::Close
        } else {
            PortalStep::Answer
        }
    }

    fn complete(&self) -> (r: bool)
        ensures
            r == request_complete(self@),
    {
        let blank: [u8; 4] = [13, 10, 13, 10];
        assert(blank@ =~= seq![13u8, 10u8, 13u8, 10u8]);
        if find_bytes(self.received.as_slice(), blank.as_slice(), 0).is_none() {
            return false;
        }
        let n: usize = self.received.len();
        match str_from_utf8(self.received.as_slice()) {
            None => true,
            Some(text) => {
                let all: Vec<char> = chars_of(text);
                let post: Vec<char> = chars_of("POST");
                if !chars_match_at(all.as_slice(), post.as_slice(), 0) {
                    return true;
                }
                assert(self.received@.take(n as int) =~= self.received@);
                match parse_http_request(self.received.as_slice(), n) {
                    Some(q) => q.body.as_bytes().len() >= q.content_length,
                    None => false,
                }
            },
        }
    }

    /// Answers what was read.
    pub fn reply(&self) -> (r: PortalReply)
        ensures
            r.response@ == portal_answer(self@).response,
            match r.credentials {
                Some(c) => portal_answer(self@).credentials == Some((c.ssid@, c.password@)),
                None => portal_answer(self@).credentials is None,
            },
    {
        let n: usize = self.received.len();
        assert(self.received@.take(n as int) =~= self.received@);
        match parse_http_request(self.received.as_slice(), n) {
            None => PortalReply {
                response: respond(400, "Bad Request", "text/plain", "Bad Request"),
                credentials: None,
            },
            Some(q) => {
                match q.method {
                    HttpMethod::Get => {
                        if str_eq(q.path, "/") || str_eq(q.path, "/index.html") {
                            return PortalReply {
                                response: respond(
                                    200,
                                    "OK",
                                    "text/html; charset=utf-8",
                                    provision_page(),
                                ),
                                credentials: None,
                            };
                        }
                    },
                    HttpMethod::Post => {
                        if str_eq(q.path, "/connect") {
                            match parse_form_data(q.body) {
                                Some(creds) => {
                                    return PortalReply {
                                        response: respond(
                                            200,
                                            "OK",
                                            "text/html; charset=utf-8",
                                            success_page(),
                                        ),
                                        credentials: Some(creds),
                                    };
                                },
                                None => {},
                            }
                        }
                    },
                    HttpMethod::Other => {},
                }
                PortalReply { response: redirect("/"), credentials: None }
            },
        }
    }
}

fn respond(status: u16, status_text: &str, content_type: &str, body: &str) -> (r: Vec<u8>)
    ensures
        r@ == fitting(joined(response_pieces(status, status_text@, content_type@, body@))),
{
    let mut buf: Vec<u8> = vec![0u8; RESPONSE_LIMIT];
    let len: usize = format_http_response(
        buf.as_mut_slice(),
        status,
        status_text,
        content_type,
        body,
    );
    buf.truncate(len);
    assert(buf@ =~= fitting(joined(response_pieces(status, status_text@, content_type@, body@))));
    buf
}

fn redirect(location: &str) -> (r: Vec<u8>)
    ensures
        r@ == fitting(joined(redirect_pieces(location@))),
{
    let mut buf: Vec<u8> = vec![0u8; RESPONSE_LIMIT];
    let len: usize = format_redirect_response(buf.as_mut_slice(), location);
    buf.truncate(len);
    assert(buf@ =~= fitting(joined(redirect_pieces(location@))));
    buf
}

/// Credentials leave the portal only through a `POST` to `/connect` whose form
/// names a network.
pub proof fn law_portal_ends_only_with_credentials(raw: Seq<u8>)
    ensures
        portal_answer(raw).credentials is Some ==> {
            &&& request_in(raw) is Some
            &&& request_in(raw)->0.method == HttpMethod::Post
            &&& request_in(raw)->0.path == "/connect"@
            &&& portal_answer(raw).credentials == form_credentials(
                encode_utf8(request_in(raw)->0.body),
            )
            &&& (portal_answer(raw).credentials->0).0.len() > 0
        },
{
}

/// What is entered is taken: a `POST` to `/connect` whose form names a network
/// is answered with the page of success and hands its credentials over. A `GET`
/// of the front page is answered with the page that asks for them, and every
/// other request sends the browser there.
pub proof fn law_portal_takes_what_is_entered(raw: Seq<u8>)
    requires
        request_in(raw) is Some,
    ensures
        ({
            let q = request_in(raw)->0;
            let form = form_credentials(encode_utf8(q.body));
            let a = portal_answer(raw);
            let front = q.method == HttpMethod::Get && (q.path == "/"@ || q.path
                == "/index.html"@);
            let entered = q.method == HttpMethod::Post && q.path == "/connect"@ && form is Some;
            &&& entered ==> a.credentials == form && a.response == joined(
                response_pieces(200, "OK"@, "text/html; charset=utf-8"@, SUCCESS_HTML@),
            )
            &&& front ==> a.credentials is None && a.response == joined(
                response_pieces(200, "OK"@, "text/html; charset=utf-8"@, PROVISION_HTML@),
            )
            &&& !entered && !front ==> a.credentials is None && a.response == fitting(
                joined(redirect_pieces("/"@)),
            )
        }),
{
    law_pages_fit(PROVISION_HTML@);
    law_pages_fit(SUCCESS_HTML@);
}

// ---------------------------------------------------------------------------
// Connecting
// ---------------------------------------------------------------------------

/// What to do next while connecting.
#[derive(Debug, Clone, Copy, PartialEq, Eq, Structural)]
pub enum RetryStep {
    /// Make the next attempt now.
    Attempt,
    /// Wait this many seconds, then make the next attempt.
    WaitThenAttempt(u8),
    Connected,
    GiveUp,
}

/// Attempts of a connection.
#[derive(Debug, Clone, Copy, PartialEq, Eq, Structural)]
pub struct ConnectRetry {
    pub max_retries: u8,
    pub retry_delay_secs: u8,
    /// Number of the attempt under way, 0 before the first.
    pub attempt: u8,
}

impl ConnectRetry {
    pub fn new(max_retries: u8, retry_delay_secs: u8) -> (r: ConnectRetry)
        ensures
            r == (ConnectRetry { max_retries, retry_delay_secs, attempt: 0 }),
    {
        ConnectRetry { max_retries, retry_delay_secs, attempt: 0 }
    }

    /// The first attempt, if any is allowed.
    pub fn begin(&mut self) -> (r: RetryStep)
        ensures
            *final(self) == (ConnectRetry {
                attempt: if old(self).max_retries == 0 {
                    0
                } else {
                    1
                },
                ..*old(self)
            }),
            r == (if old(self).max_retries == 0 {
                RetryStep::GiveUp
            } else {
                RetryStep::Attempt
            }),
    {
        if self.max_retries == 0 {
            self.attempt = 0;
            RetryStep::GiveUp
        } else {
            self.attempt = 1;
            RetryStep::Attempt
        }
    }

    /// An attempt has ended: another one follows a failure until the allowed
    /// number has been made.
    pub fn on_result(&mut self, connected: bool) -> (r: RetryStep)
        requires
            1 <= old(self).attempt <= old(self).max_retries,
        ensures
            final(self).max_retries == old(self).max_retries,
            final(self).retry_delay_secs == old(self).retry_delay_secs,
            final(self).attempt == (if !connected && old(self).attempt < old(self).max_retries {
                old(self).attempt + 1
            } else {
                old(self).attempt as int
            }),
            r == (if connected {
                RetryStep::Connected
            } else if old(self).attempt < old(self).max_retries {
                RetryStep::WaitThenAttempt(old(self).retry_delay_secs)
            } else {
                RetryStep::GiveUp
            }),
    {
        if connected {
            RetryStep::Connected
        } else if self.attempt < self.max_retries {
            self.attempt = self.attempt + 1;
            RetryStep::WaitThenAttempt(self.retry_delay_secs)
        } else {
            RetryStep::GiveUp
        }
    }
}

/// What became of a step towards a connection.
#[derive(Debug, Clone, Copy, PartialEq, Eq, Structural)]
pub enum StationEvent {
    /// The radio or its network task could not be started.
    InitFailed,
    /// The radio runs.
    Started,
    /// An attempt to connect has ended, with success or without.
    Attempted(bool),
}

/// The next step towards a connection.
#[derive(Debug, Clone, Copy, PartialEq, Eq, Structural)]
pub enum StationStep {
    /// Try to connect now.
    Attempt,
    /// Wait this many seconds, then try to connect.
    WaitThenAttempt(u8),
    /// Connected; wait until the network has given an address.
    WaitForAddress,
    Failed(ConnectionError),
}

/// The next step towards a connection after `event`.
pub open spec fn station_step(retry: ConnectRetry, event: StationEvent) -> StationStep {
    match event {
        StationEvent::InitFailed => StationStep::Failed(ConnectionError::WifiInit),
        StationEvent::Started => if retry.max_retries == 0 {
            StationStep::Failed(ConnectionError::ConnectionFailed)
        } else {
            StationStep::Attempt
        },
        StationEvent::Attempted(true) => StationStep::WaitForAddress,
        StationEvent::Attempted(false) => if retry.attempt < retry.max_retries {
            StationStep::WaitThenAttempt(retry.retry_delay_secs)
        } else {
            StationStep::Failed(ConnectionError::ConnectionFailed)
        },
    }
}

/// Number of the attempt under way after `event`.
pub open spec fn attempt_after(retry: ConnectRetry, event: StationEvent) -> int {
    match event {
        StationEvent::InitFailed => retry.attempt as int,
        StationEvent::Started => if retry.max_retries == 0 {
            0
        } else {
            1
        },
        StationEvent::Attempted(connected) => if !connected && retry.attempt < retry.max_retries {
            retry.attempt + 1
        } else {
            retry.attempt as int
        },
    }
}

/// Goes on with a connection in station mode.
pub fn connect_station(retry: &mut ConnectRetry, event: StationEvent) -> (r: StationStep)
    requires
        event is Attempted ==> 1 <= old(retry).attempt <= old(retry).max_retries,
    ensures
        r == station_step(*old(retry), event),
        final(retry).max_retries == old(retry).max_retries,
        final(retry).retry_delay_secs == old(retry).retry_delay_secs,
        final(retry).attempt == attempt_after(*old(retry), event),
{
    let step: RetryStep = match event {
        StationEvent::InitFailed => {
            return StationStep::Failed(ConnectionError::WifiInit);
        },
        StationEvent::Started => retry.begin(),
        StationEvent::Attempted(connected) => retry.on_result(connected),
    };
    match step {
        RetryStep::Attempt => StationStep::Attempt,
        RetryStep::WaitThenAttempt(secs) => StationStep::WaitThenAttempt(secs),
        RetryStep::Connected => StationStep::WaitForAddress,
        RetryStep::GiveUp => StationStep::Failed(ConnectionError::ConnectionFailed),
    }
}

/// A connection is given up after exactly the allowed number of attempts, and
/// not before: each failed attempt below it is followed by another.
pub proof fn law_every_allowed_attempt_is_made(retry: ConnectRetry)
    requires
        1 <= retry.attempt <= retry.max_retries,
    ensures
        station_step(retry, StationEvent::Attempted(false)) is Failed <==> retry.attempt
            == retry.max_retries,
        station_step(retry, StationEvent::Attempted(false)) !is Failed ==> attempt_after(
            retry,
            StationEvent::Attempted(false),
        ) == retry.attempt + 1,
        station_step(retry, StationEvent::Attempted(true)) == StationStep::WaitForAddress,
{
}

/// What a load of the stored credentials leads to.
pub struct LoadedCredentials {
    pub credentials: Option<WifiCredentials>,
    /// Whether the storage is to be cleared.
    pub clear: bool,
}

/// How far setting up the network is.
pub enum ProvisionEvent {
    /// The stored credentials were looked for.
    Loaded(Option<WifiCredentials>),
    /// The portal has handed over credentials.
    Provisioned(WifiCredentials),
    /// The connection has come about, or has failed.
    Connected(Result<(), ConnectionError>),
}

/// What setting up the network does next.
pub enum ProvisionAction {
    /// Connect with these credentials.
    Connect(WifiCredentials),
    /// Open the portal and wait for credentials.
    RunPortal,
    /// Store these credentials, then wait for a reboot, whether or not they
    /// could be stored.
    SaveThenAwaitReboot(WifiCredentials),
    Done,
    /// Report the error; before that, clear the stored credentials if asked to.
    Fail { error: ConnectionError, clear: bool },
}

/// Keeps the credentials, and knows the way to a connection.
#[derive(Debug, Clone, Copy, PartialEq, Eq, Structural)]
pub struct WifiProvisioner {
    pub storage: CredentialStorage,
}

impl WifiProvisioner {
    /// With the credentials at the default place.
    pub fn new() -> (r: WifiProvisioner)
        ensures
            r.storage.offset == storage::DEFAULT_STORAGE_OFFSET,
    {
        WifiProvisioner { storage: CredentialStorage::new() }
    }

    /// With the credentials at a place of one's own, which must lie on a sector
    /// boundary.
    pub fn with_offset(offset: u32) -> (r: WifiProvisioner)
        requires
            offset % 4096 == 0,
        ensures
            r.storage.offset == offset,
    {
        WifiProvisioner { storage: CredentialStorage::with_offset(offset) }
    }

    /// What a read of the record gives, `None` where the read failed.
    /// Credentials that cannot be read count as none, and are to be cleared.
    pub fn load_credentials(&self, read: Option<&[u8]>) -> (r: LoadedCredentials)
        requires
            read is Some ==> read->0@.len() == storage::RECORD_SIZE,
        ensures
            match read {
                None => r.credentials is None && r.clear,
                Some(buf) => match storage::stored(buf@) {
                    storage::Stored::Nothing => r.credentials is None && !r.clear,
                    storage::Stored::Corrupt => r.credentials is None && r.clear,
                    storage::Stored::Present(ssid, pass) => {
                        &&& !r.clear
                        &&& r.credentials matches Some(c)
                        &&& c.ssid@ == ssid
                        &&& c.password@ == pass
                    },
                },
            },
    {
        match self.storage.load(read) {
            Ok(credentials) => LoadedCredentials { credentials, clear: false },
            Err(_) => LoadedCredentials { credentials: None, clear: true },
        }
    }

    /// The record to write after the sector was erased.
    pub fn save_credentials(&self, credentials: &WifiCredentials) -> (r: Result<
        Vec<u8>,
        StorageError,
    >)
        ensures
            ({
                let ssid = encode_utf8(credentials.ssid@);
                let pass = encode_utf8(credentials.password@);
                match r {
                    Ok(record) => ssid.len() <= 32 && pass.len() <= 64 && record@
                        == storage::record_of(ssid, pass),
                    Err(e) => if ssid.len() > 32 {
                        e == StorageError::SsidTooLong
                    } else {
                        pass.len() > 64 && e == StorageError::PasswordTooLong
                    },
                }
            }),
    {
        self.storage.save(credentials)
    }

    /// The sector whose erasure clears the credentials.
    pub fn clear_credentials(&self) -> (r: SectorWrite)
        requires
            self.storage.offset + 4096 <= u32::MAX,
        ensures
            r.offset == self.storage.offset,
            r.end == self.storage.offset + 4096,
    {
        self.storage.clear()
    }

    /// Whether a read of the record's header shows that credentials are there.
    pub fn has_credentials(&self, read: Option<&[u8]>) -> (r: bool)
        requires
            read is Some ==> read->0@.len() == storage::HEADER_SIZE,
        ensures
            r == (read is Some && storage::word_at(read->0@, 0) == storage::MAGIC),
    {
        self.storage.has_credentials(read)
    }

    /// Goes on with setting up the network: stored credentials are used, and
    /// where there are none the portal asks for them. Credentials from the
    /// portal are stored for the next boot.
    pub fn provision_and_connect(&self, event: ProvisionEvent, config: &ConnectionConfig) -> (r:
        ProvisionAction)
        ensures
            match event {
                ProvisionEvent::Loaded(Some(c)) => r == ProvisionAction::Connect(c),
                ProvisionEvent::Loaded(None) => r == ProvisionAction::RunPortal,
                ProvisionEvent::Provisioned(c) => r == ProvisionAction::SaveThenAwaitReboot(c),
                ProvisionEvent::Connected(Ok(_)) => r == ProvisionAction::Done,
                ProvisionEvent::Connected(Err(error)) => r == (ProvisionAction::Fail {
                    error,
                    clear: config.clear_on_failure,
                }),
            },
    {
        match event {
            ProvisionEvent::Loaded(Some(c)) => ProvisionAction::Connect(c),
            ProvisionEvent::Loaded(None) => ProvisionAction::RunPortal,
            ProvisionEvent::Provisioned(c) => ProvisionAction::SaveThenAwaitReboot(c),
            ProvisionEvent::Connected(Ok(_)) => ProvisionAction::Done,
            ProvisionEvent::Connected(Err(error)) => ProvisionAction::Fail {
                error,
                clear: config.clear_on_failure,
            },
        }
    }
}

// ---------------------------------------------------------------------------
// What a request delivers
// ---------------------------------------------------------------------------

/// A request text: the header lines, the blank line, the body. The first line
/// holds a method and a path, and perhaps more words.
pub open spec fn is_request(
    text: Seq<char>,
    lines: Seq<Seq<char>>,
    method: Seq<char>,
    path: Seq<char>,
    version: Seq<char>,
    body: Seq<char>,
) -> bool {
    &&& text == strings::joined_by(lines, seq!['\r', '\n']) + seq!['\r', '\n', '\r', '\n'] + body
    &&& lines.len() > 0
    &&& forall|j: int|
        0 <= j < lines.len() ==> (#[trigger] lines[j]).len() > 0 && !lines[j].contains('\n')
    &&& lines[0] == method + seq![' '] + path + version
    &&& method.len() > 0 && path.len() > 0
    &&& forall|i: int| 0 <= i < method.len() ==> !strings::is_space(#[trigger] method[i])
    &&& forall|i: int| 0 <= i < path.len() ==> !strings::is_space(#[trigger] path[i])
    &&& version.len() == 0 || version[0] == ' '
}

/// Whether a header line announces the length of the body: it starts with that
/// header's name, in letters of either case, and a colon.
pub open spec fn announces_length(line: Seq<char>) -> bool {
    line.len() >= 15 && strings::in_any_case(line.take(15), "content-length:"@)
}

proof fn lemma_length_line(line: Seq<char>)
    ensures
        is_length_line(line) == announces_length(line),
        "content-length:"@.len() == 15,
{
    reveal_strlit("content-length:");
    if line.len() >= 15 {
        strings::law_case_is_ignored(line.take(15), "content-length:"@);
    }
}

/// The blank line behind header lines that are not empty is the first one.
proof fn lemma_first_blank_line(lines: Seq<Seq<char>>, body: Seq<char>)
    requires
        lines.len() > 0,
        forall|j: int|
            0 <= j < lines.len() ==> (#[trigger] lines[j]).len() > 0 && !lines[j].contains('\n'),
    ensures
        ({
            let head = strings::joined_by(lines, seq!['\r', '\n']);
            let text = head + blank_line() + body;
            &&& head.len() > 0
            &&& head[0] == lines[0][0]
            &&& head.len() > 1 ==> head[1] != '\n'
            &&& strings::matches_at(text, blank_line(), head.len() as int)
            &&& forall|k: int|
                0 <= k < head.len() ==> !#[trigger] strings::matches_at(text, blank_line(), k)
        }),
    decreases lines.len(),
{
    let sep = seq!['\r', '\n'];
    let a = lines[0];
    let head = strings::joined_by(lines, sep);
    let text = head + blank_line() + body;
    assert(text.subrange(head.len() as int, (head.len() + 4) as int) =~= blank_line());
    assert forall|i: int| 0 <= i < a.len() implies #[trigger] a[i] != '\n' by {
        assert(a.contains(a[i]));
    }
    if lines.len() == 1 {
        assert forall|k: int| 0 <= k < head.len() implies !#[trigger] strings::matches_at(
            text,
            blank_line(),
            k,
        ) by {
            if strings::matches_at(text, blank_line(), k) {
                assert(text.subrange(k, k + 4)[1] == '\n');
                assert(text[k + 1] == '\n');
                if k + 1 < a.len() {
                    assert(text[k + 1] == a[k + 1]);
                }
            }
        }
    } else {
        let rest = lines.skip(1);
        assert forall|j: int| 0 <= j < rest.len() implies (#[trigger] rest[j]).len() > 0
            && !rest[j].contains('\n') by {
            assert(rest[j] == lines[j + 1]);
        }
        lemma_first_blank_line(rest, body);
        let tail = strings::joined_by(rest, sep);
        let b = lines[1];
        assert(b == rest[0]);
        assert(head == a + sep + tail);
        let shorter = tail + blank_line() + body;
        assert(b[0] != '\n') by {
            assert(b.contains(b[0]));
        }
        assert forall|k: int| 0 <= k < head.len() implies !#[trigger] strings::matches_at(
            text,
            blank_line(),
            k,
        ) by {
            if strings::matches_at(text, blank_line(), k) {
                assert(text.subrange(k, k + 4)[1] == '\n');
                assert(text.subrange(k, k + 4)[3] == '\n');
                assert(text[k + 1] == '\n' && text[k + 3] == '\n');
                if k + 1 < a.len() {
                    assert(text[k + 1] == a[k + 1]);
                } else if k + 1 == a.len() {
                    assert(text[k + 1] == '\r');
                } else if k == a.len() {
                    if tail.len() > 1 {
                        assert(text[k + 3] == tail[1]);
                    } else {
                        assert(text[k + 3] == '\r');
                    }
                } else if k == a.len() + 1 {
                    assert(text[k + 1] == tail[0]);
                } else {
                    let m = k - a.len() - 2;
                    assert(shorter.subrange(m, m + 4) =~= text.subrange(k, k + 4));
                    assert(strings::matches_at(shorter, blank_line(), m));
                }
            }
        }
    }
}

proof fn lemma_scan(s: Seq<char>, from: int, to: int, space: bool)
    requires
        0 <= from <= to <= s.len(),
        forall|i: int| from <= i < to ==> strings::is_space(#[trigger] s[i]) != space,
        to < s.len() ==> strings::is_space(s[to]) == space,
    ensures
        strings::scan(s, from, space) == to,
    decreases to - from,
{
    if from < to {
        assert(strings::is_space(s[from]) != space);
        lemma_scan(s, from + 1, to, space);
    }
}

proof fn lemma_request_words(
    l: Seq<char>,
    method: Seq<char>,
    path: Seq<char>,
    version: Seq<char>,
)
    requires
        l == method + seq![' '] + path + version,
        method.len() > 0 && path.len() > 0,
        forall|i: int| 0 <= i < method.len() ==> !strings::is_space(#[trigger] method[i]),
        forall|i: int| 0 <= i < path.len() ==> !strings::is_space(#[trigger] path[i]),
        version.len() == 0 || version[0] == ' ',
    ensures
        ({
            let m0 = strings::scan(l, 0, false);
            let m1 = strings::scan(l, m0, true);
            let p0 = strings::scan(l, m1, false);
            let p1 = strings::scan(l, p0, true);
            &&& m0 < l.len() && p0 < l.len()
            &&& l.subrange(m0, m1) == method
            &&& l.subrange(p0, p1) == path
        }),
{
    let m1 = method.len() as int;
    let p0 = m1 + 1;
    let p1 = p0 + path.len();
    assert forall|i: int| 0 <= i < m1 implies !strings::is_space(#[trigger] l[i]) by {
        assert(l[i] == method[i]);
    }
    assert(l[m1] == ' ');
    assert forall|i: int| p0 <= i < p1 implies !strings::is_space(#[trigger] l[i]) by {
        assert(l[i] == path[i - p0]);
    }
    lemma_scan(l, 0, 0, false);
    lemma_scan(l, 0, m1, true);
    lemma_scan(l, m1, p0, false);
    if p1 < l.len() {
        assert(l[p1] == version[0]);
    }
    lemma_scan(l, p0, p1, true);
    assert(l.subrange(0, m1) =~= method);
    assert(l.subrange(p0, p1) =~= path);
}

proof fn lemma_text_parts(head: Seq<char>, body: Seq<char>)
    requires
        strings::matches_at(head + blank_line() + body, blank_line(), head.len() as int),
        forall|k: int|
            0 <= k < head.len() ==> !#[trigger] strings::matches_at(
                head + blank_line() + body,
                blank_line(),
                k,
            ),
    ensures
        headers_part(head + blank_line() + body) == head,
        body_part(head + blank_line() + body) == body,
{
    let text = head + blank_line() + body;
    strings::lemma_found(text, blank_line(), head.len() as int);
    assert(text.take(head.len() as int) =~= head);
    assert(text.skip((head.len() + 4) as int) =~= body);
}

proof fn lemma_request_parts(lines: Seq<Seq<char>>, body: Seq<char>)
    requires
        lines.len() > 0,
        forall|j: int|
            0 <= j < lines.len() ==> (#[trigger] lines[j]).len() > 0 && !lines[j].contains('\n'),
    ensures
        ({
            let head = strings::joined_by(lines, seq!['\r', '\n']);
            let text = head + seq!['\r', '\n', '\r', '\n'] + body;
            headers_part(text) == head && body_part(text) == body
        }),
{
    let head = strings::joined_by(lines, seq!['\r', '\n']);
    lemma_first_blank_line(lines, body);
    lemma_text_parts(head, body);
}

proof fn lemma_request_line(
    text: Seq<char>,
    lines: Seq<Seq<char>>,
    method: Seq<char>,
    path: Seq<char>,
    version: Seq<char>,
    body: Seq<char>,
)
    requires
        is_request(text, lines, method, path, version, body),
    ensures
        request_of(text) == Some(
            RequestView {
                method: method_of(method),
                path,
                body,
                content_length: announced_length(lines, lines.len() as int),
            },
        ),
{
    lemma_request_parts(lines, body);
    assert(lines.last() == lines[lines.len() - 1]);
    strings::law_lines_undo_join(lines);
    lemma_request_words(lines[0], method, path, version);
}

proof fn lemma_last_length_counts(lines: Seq<Seq<char>>, i: int, n: int)
    requires
        1 <= i < n <= lines.len(),
        announces_length(lines[i]),
        forall|j: int| i < j < n ==> !announces_length(#[trigger] lines[j]),
    ensures
        announced_length(lines, n) == number_or_zero(strings::split(lines[i], seq![':'])[1]),
    decreases n,
{
    lemma_length_line(lines[n - 1]);
    if i < n - 1 {
        assert(!announces_length(lines[n - 1]));
        lemma_last_length_counts(lines, i, n - 1);
    }
}

proof fn lemma_length_value(line: Seq<char>, before: Seq<char>, n: nat, behind: Seq<char>)
    requires
        announces_length(line),
        line.skip(15) == before + strings::decimal(n) + behind,
        strings::is_blank(before),
        strings::is_blank(behind),
        n <= usize::MAX,
    ensures
        number_or_zero(strings::split(line, seq![':'])[1]) == n,
{
    reveal_strlit("content-length:");
    let name = line.take(14);
    let value = line.skip(15);
    let d = strings::decimal(n);
    strings::lemma_decimal(n);
    assert(line.take(15)[14] == ':');
    assert(!name.contains(':')) by {
        if name.contains(':') {
            let i = choose|i: int| 0 <= i < 14 && name[i] == ':';
            assert(line.take(15)[i] == ':');
            assert("content-length:"@[i] != ':');
        }
    }
    assert(!value.contains(':')) by {
        if value.contains(':') {
            let i = choose|i: int| 0 <= i < value.len() && value[i] == ':';
            if i < before.len() {
                assert(value[i] == before[i]);
            } else if i < before.len() + d.len() {
                assert(value[i] == d[i - before.len()]);
                assert(strings::is_digit(d[i - before.len()]));
            } else {
                assert(value[i] == behind[i - before.len() - d.len()]);
            }
        }
    }
    assert(line =~= name + seq![':'] + value);
    strings::lemma_split_first(name, ':', value);
    strings::lemma_split_first(value, ':', Seq::empty());
    assert(strings::split(line, seq![':'])[1] == value);
    assert(strings::is_digit(d[0]) && strings::is_digit(d[d.len() - 1]));
    strings::law_trim_takes_blanks_off(before, d, behind);
    strings::lemma_parse_decimal(n, usize::MAX as nat);
}

proof fn lemma_no_length(lines: Seq<Seq<char>>, n: int)
    requires
        n <= lines.len(),
        forall|j: int| 1 <= j < n ==> !announces_length(#[trigger] lines[j]),
    ensures
        announced_length(lines, n) == 0,
    decreases n,
{
    if n > 1 {
        lemma_length_line(lines[n - 1]);
        assert(!announces_length(lines[n - 1]));
        lemma_no_length(lines, n - 1);
    }
}

/// The bytes of a request hold its blank line.
proof fn lemma_blank_line_in_bytes(raw: Seq<u8>, head: Seq<char>, body: Seq<char>)
    requires
        valid_utf8(raw),
        decode_utf8(raw) == head + blank_line() + body,
    ensures
        strings::find_seq(raw, seq![13u8, 10u8, 13u8, 10u8], 0) is Some,
{
    let blank = seq![13u8, 10u8, 13u8, 10u8];
    decode_utf8_encode_utf8(raw);
    strings::lemma_encode_concat(head + blank_line(), body);
    strings::lemma_encode_concat(head, blank_line());
    assert(is_ascii_chars(blank_line()));
    is_ascii_chars_encode_utf8(blank_line());
    let bytes = encode_utf8(blank_line());
    assert(blank_line()[0] as u8 == bytes[0] && blank_line()[1] as u8 == bytes[1] && blank_line()[2]
        as u8 == bytes[2] && blank_line()[3] as u8 == bytes[3]);
    assert(bytes =~= blank);
    let k = encode_utf8(head).len() as int;
    assert(raw.subrange(k, k + 4) =~= blank);
    strings::lemma_find_seq(raw, blank, 0);
    assert(strings::matches_at(raw, blank, k));
}

/// A request is taken apart as it was put together: its method and path are the
/// first two words, its body is all that follows the blank line, and its length
/// is the `n` of the header line `Content-Length: n`, in letters of either case
/// and with any blanks round the number, at whatever position that line stands
/// among the others. Of several such lines the last counts. A `POST` is then
/// answered only once as many bytes of the body have arrived.
pub proof fn law_announced_body_is_awaited(
    raw: Seq<u8>,
    lines: Seq<Seq<char>>,
    method: Seq<char>,
    path: Seq<char>,
    version: Seq<char>,
    body: Seq<char>,
    i: int,
    before: Seq<char>,
    n: nat,
    behind: Seq<char>,
)
    requires
        valid_utf8(raw),
        is_request(decode_utf8(raw), lines, method, path, version, body),
        1 <= i < lines.len(),
        announces_length(lines[i]),
        lines[i].skip(15) == before + strings::decimal(n) + behind,
        strings::is_blank(before),
        strings::is_blank(behind),
        n <= usize::MAX,
        forall|j: int| i < j < lines.len() ==> !announces_length(#[trigger] lines[j]),
    ensures
        request_in(raw) is Some,
        request_in(raw)->0.content_length == n,
        request_in(raw)->0.path == path,
        request_in(raw)->0.body == body,
        request_in(raw)->0.method == HttpMethod::Post <==> method == "POST"@,
        request_in(raw)->0.method == HttpMethod::Get <==> method == "GET"@,
        method == "POST"@ ==> (request_complete(raw) <==> encode_utf8(body).len() >= n),
        method == "GET"@ ==> request_complete(raw),
{
    let text = decode_utf8(raw);
    lemma_request_line(text, lines, method, path, version, body);
    lemma_last_length_counts(lines, i, lines.len() as int);
    lemma_length_value(lines[i], before, n, behind);
    lemma_method_word(raw, lines, method, path, version, body);
}

proof fn lemma_method_word(
    raw: Seq<u8>,
    lines: Seq<Seq<char>>,
    method: Seq<char>,
    path: Seq<char>,
    version: Seq<char>,
    body: Seq<char>,
)
    requires
        valid_utf8(raw),
        is_request(decode_utf8(raw), lines, method, path, version, body),
    ensures
        strings::find_seq(raw, seq![13u8, 10u8, 13u8, 10u8], 0) is Some,
        method == "POST"@ ==> strings::matches_at(decode_utf8(raw), "POST"@, 0),
        method == "GET"@ ==> !strings::matches_at(decode_utf8(raw), "POST"@, 0),
        "GET"@ != "POST"@,
{
    let text = decode_utf8(raw);
    let head = strings::joined_by(lines, seq!['\r', '\n']);
    lemma_blank_line_in_bytes(raw, head, body);
    reveal_strlit("POST");
    reveal_strlit("GET");
    assert(forall|k: int| 0 <= k < lines[0].len() ==> #[trigger] head[k] == lines[0][k]);
    assert(forall|k: int| 0 <= k < method.len() ==> #[trigger] text[k] == method[k]);
    if method == "POST"@ {
        assert(text.subrange(0, 4) =~= "POST"@);
    }
    if method == "GET"@ {
        assert(text[0] == 'G');
        assert(text.subrange(0, 4)[0] == text[0]);
        assert("POST"@[0] == 'P');
    }
}

/// Without a header line that announces a body none is awaited: the request is
/// answered as soon as its blank line has arrived.
pub proof fn law_unannounced_body_is_not_awaited(
    raw: Seq<u8>,
    lines: Seq<Seq<char>>,
    method: Seq<char>,
    path: Seq<char>,
    version: Seq<char>,
    body: Seq<char>,
)
    requires
        valid_utf8(raw),
        is_request(decode_utf8(raw), lines, method, path, version, body),
        method == "POST"@ || method == "GET"@,
        forall|j: int| 1 <= j < lines.len() ==> !announces_length(#[trigger] lines[j]),
    ensures
        request_in(raw) is Some,
        request_in(raw)->0.content_length == 0,
        request_complete(raw),
{
    lemma_request_line(decode_utf8(raw), lines, method, path, version, body);
    lemma_no_length(lines, lines.len() as int);
    lemma_method_word(raw, lines, method, path, version, body);
}

/// A request without its blank line is not answered yet.
pub proof fn law_request_awaits_its_blank_line(raw: Seq<u8>)
    requires
        forall|k: int|
            0 <= k <= raw.len() - 4 ==> #[trigger] raw.subrange(k, k + 4) != seq![
                13u8,
                10u8,
                13u8,
                10u8,
            ],
    ensures
        !request_complete(raw),
{
    let blank = seq![13u8, 10u8, 13u8, 10u8];
    strings::lemma_find_seq(raw, blank, 0);
    if let Some(k) = strings::find_seq(raw, blank, 0) {
        assert(strings::matches_at(raw, blank, k));
        assert(raw.subrange(k, k + 4) == blank);
    }
}

/// Whether `e` is a way to write the byte `x` in a form: the byte itself, a `+`
/// for a blank, or `%` and its two hexadecimal digits, capital or small.
pub open spec fn writes_byte(e: Seq<u8>, x: u8) -> bool {
    ||| e == seq![x] && x != 37 && x != 43
    ||| e == seq![43u8] && x == 32
    ||| {
        &&& e.len() == 3
        &&& e[0] == 37
        &&& e[1] == digit_of((x / 16) as u8) || (x / 16 >= 10 && e[1] == x / 16 + 87)
        &&& e[2] == digit_of((x % 16) as u8) || (x % 16 >= 10 && e[2] == x % 16 + 87)
    }
}

/// However each byte of a value is written in a form, the value is read back:
/// one character for every byte, in order.
pub proof fn law_every_encoding_decodes(units: Seq<Seq<u8>>, b: Seq<u8>)
    requires
        units.len() == b.len(),
        forall|i: int| 0 <= i < b.len() ==> writes_byte(#[trigger] units[i], b[i]),
    ensures
        percent_decoded(strings::joined_by(units, Seq::empty())) == Seq::new(
            b.len(),
            |i: int| b[i] as char,
        ),
    decreases b.len(),
{
    let e = strings::joined_by(units, Seq::<u8>::empty());
    if b.len() > 0 {
        let rest = strings::joined_by(units.skip(1), Seq::<u8>::empty());
        assert(e =~= units[0] + rest);
        assert(e.skip(units[0].len() as int) =~= rest);
        assert forall|i: int| 0 <= i < b.len() - 1 implies writes_byte(
            #[trigger] units.skip(1)[i],
            b.skip(1)[i],
        ) by {
            assert(writes_byte(units[i + 1], b[i + 1]));
        }
        law_every_encoding_decodes(units.skip(1), b.skip(1));
        let x = b[0];
        let u = units[0];
        assert(writes_byte(u, x));
        if u.len() == 3 {
            assert(e[0] == u[0] && e[1] == u[1] && e[2] == u[2]);
            assert(hex_digit(e[1]) == Some((x / 16) as u8));
            assert(hex_digit(e[2]) == Some((x % 16) as u8));
        } else {
            assert(e[0] == u[0]);
        }
        assert(percent_decoded(e) == seq![x as char] + percent_decoded(rest));
        assert(percent_decoded(e) =~= Seq::new(b.len(), |i: int| b[i] as char));
    } else {
        assert(percent_decoded(e) =~= Seq::new(b.len(), |i: int| b[i] as char));
    }
}

/// A form field with the given name and written value.
pub open spec fn form_field(name: Seq<u8>, value: Seq<u8>) -> Seq<u8> {
    name + seq![61u8] + value
}

/// Whether a form field has the given name.
pub open spec fn has_name(field: Seq<u8>, name: Seq<u8>) -> bool {
    field == name || (field.len() > name.len() && field.take(name.len() as int) == name
        && field[name.len() as int] == 61)
}

proof fn lemma_field(field: Seq<u8>, name: Seq<u8>)
    requires
        !name.contains(61),
    ensures
        (field_key(field) == name) == has_name(field, name),
{
    strings::lemma_find_from(field, 61u8, 0);
    let k = strings::find_from(field, 61u8, 0);
    if has_name(field, name) {
        let n = name.len() as int;
        if k < n {
            assert(field.take(n)[k] == field[k]);
            assert(name[k] == 61);
        }
        if field == name {
            assert(k == n);
        }
        assert(field_key(field) =~= name);
    } else if field_key(field) == name {
        assert(k == name.len());
        if k == field.len() {
            assert(field.take(k) =~= field);
        }
    }
}

proof fn lemma_form_value(fields: Seq<Seq<u8>>, n: int, i: int, name: Seq<u8>, value: Seq<u8>)
    requires
        0 <= i < n <= fields.len(),
        !name.contains(61),
        fields[i] == form_field(name, value),
        forall|j: int| i < j < n ==> !has_name(#[trigger] fields[j], name),
    ensures
        form_value(fields, n, name) == Some(percent_decoded(value)),
    decreases n,
{
    lemma_field(fields[n - 1], name);
    if i < n - 1 {
        assert(!has_name(fields[n - 1], name));
        lemma_form_value(fields, n - 1, i, name, value);
    } else {
        let f = fields[i];
        strings::lemma_find_behind(name, 61u8, value);
        assert(f.skip(name.len() as int + 1) =~= value);
        assert(f.take(name.len() as int) =~= name);
    }
}

proof fn lemma_no_form_value(fields: Seq<Seq<u8>>, n: int, name: Seq<u8>)
    requires
        n <= fields.len(),
        !name.contains(61),
        forall|j: int| 0 <= j < n ==> !has_name(#[trigger] fields[j], name),
    ensures
        form_value(fields, n, name) is None,
    decreases n,
{
    if n > 0 {
        lemma_field(fields[n - 1], name);
        assert(!has_name(fields[n - 1], name));
        lemma_no_form_value(fields, n - 1, name);
    }
}

proof fn lemma_form_fields(fields: Seq<Seq<u8>>)
    requires
        fields.len() > 0,
        forall|k: int| 0 <= k < fields.len() ==> !(#[trigger] fields[k]).contains(38),
    ensures
        strings::split(strings::joined_by(fields, seq![38u8]), seq![38u8]) == fields,
        !ssid_key().contains(61),
        !password_key().contains(61),
{
    let none = Seq::<u8>::empty();
    assert(none.push(38u8) =~= seq![38u8]);
    strings::law_split_undoes_join(fields, none, 38u8);
}

/// A form delivers what was entered: with a field `ssid` and a field
/// `password`, at whatever positions and among whatever other fields, it gives
/// their two values. Where a field occurs again, the last one counts.
pub proof fn law_form_delivers_credentials(
    fields: Seq<Seq<u8>>,
    i: int,
    ssid: Seq<u8>,
    j: int,
    password: Seq<u8>,
)
    requires
        forall|k: int| 0 <= k < fields.len() ==> !(#[trigger] fields[k]).contains(38),
        0 <= i < fields.len(),
        0 <= j < fields.len(),
        fields[i] == form_field(seq![115u8, 115u8, 105u8, 100u8], ssid),
        fields[j] == form_field(
            seq![112u8, 97u8, 115u8, 115u8, 119u8, 111u8, 114u8, 100u8],
            password,
        ),
        forall|k: int|
            i < k < fields.len() ==> !has_name(
                #[trigger] fields[k],
                seq![115u8, 115u8, 105u8, 100u8],
            ),
        forall|k: int|
            j < k < fields.len() ==> !has_name(
                #[trigger] fields[k],
                seq![112u8, 97u8, 115u8, 115u8, 119u8, 111u8, 114u8, 100u8],
            ),
        percent_decoded(ssid).len() > 0,
    ensures
        form_credentials(strings::joined_by(fields, seq![38u8])) == Some(
            (percent_decoded(ssid), percent_decoded(password)),
        ),
{
    lemma_form_fields(fields);
    lemma_form_value(fields, fields.len() as int, i, ssid_key(), ssid);
    lemma_form_value(fields, fields.len() as int, j, password_key(), password);
}

/// Without a field `password` the network is open: the password is empty.
pub proof fn law_form_without_password_means_open(
    fields: Seq<Seq<u8>>,
    i: int,
    ssid: Seq<u8>,
)
    requires
        forall|k: int| 0 <= k < fields.len() ==> !(#[trigger] fields[k]).contains(38),
        0 <= i < fields.len(),
        fields[i] == form_field(seq![115u8, 115u8, 105u8, 100u8], ssid),
        forall|k: int|
            i < k < fields.len() ==> !has_name(
                #[trigger] fields[k],
                seq![115u8, 115u8, 105u8, 100u8],
            ),
        forall|k: int|
            0 <= k < fields.len() ==> !has_name(
                #[trigger] fields[k],
                seq![112u8, 97u8, 115u8, 115u8, 119u8, 111u8, 114u8, 100u8],
            ),
        percent_decoded(ssid).len() > 0,
    ensures
        form_credentials(strings::joined_by(fields, seq![38u8])) == Some(
            (percent_decoded(ssid), Seq::<char>::empty()),
        ),
{
    lemma_form_fields(fields);
    lemma_form_value(fields, fields.len() as int, i, ssid_key(), ssid);
    lemma_no_form_value(fields, fields.len() as int, password_key());
}

/// A form that names no network delivers nothing.
pub proof fn law_form_without_ssid_delivers_nothing(fields: Seq<Seq<u8>>)
    requires
        fields.len() > 0,
        forall|k: int| 0 <= k < fields.len() ==> !(#[trigger] fields[k]).contains(38),
        forall|k: int|
            0 <= k < fields.len() ==> !has_name(
                #[trigger] fields[k],
                seq![115u8, 115u8, 105u8, 100u8],
            ),
    ensures
        form_credentials(strings::joined_by(fields, seq![38u8])) is None,
{
    lemma_form_fields(fields);
    lemma_no_form_value(fields, fields.len() as int, ssid_key());
}

/// What is no text, or no request, is answered as a bad request, and as soon as
/// its blank line has arrived where it is no text.
pub proof fn law_bad_requests_are_answered(raw: Seq<u8>, k: int)
    ensures
        request_in(raw) is None ==> portal_answer(raw).credentials is None
            && portal_answer(raw).response == fitting(
            joined(response_pieces(400, "Bad Request"@, "text/plain"@, "Bad Request"@)),
        ),
        !valid_utf8(raw) ==> request_in(raw) is None,
        !valid_utf8(raw) && 0 <= k <= raw.len() - 4 && raw.subrange(k, k + 4) == seq![
            13u8,
            10u8,
            13u8,
            10u8,
        ] ==> request_complete(raw),
{
    let blank = seq![13u8, 10u8, 13u8, 10u8];
    strings::lemma_find_seq(raw, blank, 0);
    if 0 <= k <= raw.len() - 4 && raw.subrange(k, k + 4) == blank {
        assert(strings::matches_at(raw, blank, k));
    }
}

/// A response says what it is: status, type, the length of the body in bytes,
/// and the body behind the blank line.
pub proof fn law_response_announces_its_body(
    status: u16,
    status_text: Seq<char>,
    content_type: Seq<char>,
    body: Seq<char>,
)
    ensures
        joined(response_pieces(status, status_text, content_type, body)) == encode_utf8(
            "HTTP/1.1 "@ + strings::decimal(status as nat) + " "@ + status_text
                + "\r\nContent-Type: "@ + content_type + "\r\nContent-Length: "@ + strings::decimal(
                encode_utf8(body).len(),
            ) + "\r\nConnection: close\r\n\r\n"@ + body,
        ),
{
    let p = response_pieces(status, status_text, content_type, body);
    lemma_joined_is_encoded(p);
    reveal_with_fuel(strung, 11);
    let text = "HTTP/1.1 "@ + strings::decimal(status as nat) + " "@ + status_text
        + "\r\nContent-Type: "@ + content_type + "\r\nContent-Length: "@ + strings::decimal(
        encode_utf8(body).len(),
    ) + "\r\nConnection: close\r\n\r\n"@ + body;
    assert(strung(p) =~= text);
}

/// A redirect names the place to go to, and has no body.
pub proof fn law_redirect_names_its_place(location: Seq<char>)
    ensures
        joined(redirect_pieces(location)) == encode_utf8(
            "HTTP/1.1 302 Found\r\nLocation: "@ + location
                + "\r\nContent-Length: 0\r\nConnection: close\r\n\r\n"@,
        ),
{
    let p = redirect_pieces(location);
    lemma_joined_is_encoded(p);
    reveal_with_fuel(strung, 4);
    assert(strung(p) =~= "HTTP/1.1 302 Found\r\nLocation: "@ + location
        + "\r\nContent-Length: 0\r\nConnection: close\r\n\r\n"@);
}

/// All pieces of a text, one behind the other.
spec fn strung(pieces: Seq<Seq<char>>) -> Seq<char>
    decreases pieces.len(),
{
    if pieces.len() == 0 {
        Seq::empty()
    } else {
        strung(pieces.drop_last()) + pieces.last()
    }
}

proof fn lemma_joined_is_encoded(pieces: Seq<Seq<char>>)
    ensures
        joined(pieces) == encode_utf8(strung(pieces)),
    decreases pieces.len(),
{
    if pieces.len() > 0 {
        lemma_joined_is_encoded(pieces.drop_last());
        strings::lemma_encode_concat(strung(pieces.drop_last()), pieces.last());
    } else {
        assert(joined(pieces) =~= encode_utf8(strung(pieces)));
    }
}

/// A response is sent whole or not at all: where it fits the buffer it stands in
/// front of it, and what is reported is its length; else nothing is reported.
pub proof fn law_response_is_written_whole_or_not(
    before: Seq<u8>,
    after: Seq<u8>,
    bytes: Seq<u8>,
    r: int,
)
    requires
        written(before, after, bytes, r),
    ensures
        bytes.len() <= before.len() ==> r == bytes.len() && after.len() == before.len()
            && after.take(r) == bytes && after.skip(r) == before.skip(r),
        bytes.len() > before.len() ==> r == 0 && after.len() == before.len(),
        bytes.len() <= 4096 ==> fitting(bytes) == bytes,
        bytes.len() > 4096 ==> fitting(bytes).len() == 0,
{
    if bytes.len() <= before.len() {
        assert(after.take(r) =~= bytes);
        assert(after.skip(r) =~= before.skip(r));
    }
}

/// A connection begins with the first attempt once the radio runs, if any attempt
/// is allowed, and fails at once where the radio does not run.
pub proof fn law_connection_begins_with_an_attempt(retry: ConnectRetry)
    ensures
        retry.max_retries > 0 ==> station_step(retry, StationEvent::Started)
            == StationStep::Attempt && attempt_after(retry, StationEvent::Started) == 1,
        retry.max_retries == 0 ==> station_step(retry, StationEvent::Started)
            == StationStep::Failed(ConnectionError::ConnectionFailed),
        station_step(retry, StationEvent::InitFailed) == StationStep::Failed(
            ConnectionError::WifiInit,
        ),
        retry.attempt < retry.max_retries ==> station_step(retry, StationEvent::Attempted(false))
            == StationStep::WaitThenAttempt(retry.retry_delay_secs),
{
}

/// A malformed escape is dropped with the two bytes behind it, and one that is
/// cut off with all that follows; the rest is read as if it was not there.
pub proof fn law_malformed_escapes_are_dropped(x: u8, y: u8, rest: Seq<u8>)
    requires
        hex_digit(x) is None || hex_digit(y) is None,
    ensures
        percent_decoded(seq![37u8, x, y] + rest) == percent_decoded(rest),
        percent_decoded(seq![37u8, x]) == Seq::<char>::empty(),
        percent_decoded(seq![37u8]) == Seq::<char>::empty(),
{
    let e = seq![37u8, x, y] + rest;
    assert(e[0] == 37 && e[1] == x && e[2] == y);
    assert(e.skip(3) =~= rest);
}

/// The hexadecimal digits are these, and no other byte is one.
pub proof fn law_hexadecimal_digits_have_their_value(b: u8)
    ensures
        48 <= b <= 57 ==> hex_digit(b) == Some((b - 48) as u8),
        65 <= b <= 70 ==> hex_digit(b) == Some((b - 55) as u8),
        97 <= b <= 102 ==> hex_digit(b) == Some((b - 87) as u8),
        b < 48 || 57 < b < 65 || 70 < b < 97 || 102 < b ==> hex_digit(b) is None,
{
}

/// What a form field holds: its name before the first `=`, its value behind it,
/// and no value without one.
pub proof fn law_field_is_parted_at_its_first_sign(name: Seq<u8>, value: Seq<u8>)
    requires
        !name.contains(61),
    ensures
        field_key(form_field(name, value)) == name,
        field_value(form_field(name, value)) == percent_decoded(value),
        field_key(name) == name,
        field_value(name) == Seq::<char>::empty(),
{
    let f = form_field(name, value);
    strings::lemma_find_behind(name, 61u8, value);
    assert(f.take(name.len() as int) =~= name);
    assert(f.skip(name.len() as int + 1) =~= value);
    assert(name.take(name.len() as int) =~= name);
}

/// A request needs a method and a path: a first line of one word is none.
pub proof fn law_request_needs_two_words(lines: Seq<Seq<char>>, body: Seq<char>)
    requires
        lines.len() > 0,
        forall|j: int|
            0 <= j < lines.len() ==> (#[trigger] lines[j]).len() > 0 && !lines[j].contains('\n'),
        forall|i: int| 0 <= i < lines[0].len() ==> !strings::is_space(#[trigger] lines[0][i]),
    ensures
        request_of(
            strings::joined_by(lines, seq!['\r', '\n']) + seq!['\r', '\n', '\r', '\n'] + body,
        ) is None,
{
    lemma_request_parts(lines, body);
    assert(lines.last() == lines[lines.len() - 1]);
    strings::law_lines_undo_join(lines);
    let l = lines[0];
    let n = l.len() as int;
    lemma_scan(l, 0, 0, false);
    lemma_scan(l, 0, n, true);
    lemma_scan(l, n, n, false);
}

} // verus!
