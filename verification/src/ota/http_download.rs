//! Fetching an image over plain HTTP.
//!
//! The parsers work on what the peer sent. [`Download`] decides, event by
//! event, what the connection and the writer have to do next; the caller
//! performs it and reports back.

use vstd::prelude::*;
use vstd::utf8::*;

use crate::ota::writer;
use crate::ota::writer::OtaError;
use crate::strings;
use crate::strings::{chars_eq_ignore_case, chars_match_at, chars_of, find_bytes, parse_number};
use crate::strings::{push_decimal, push_text, split_chars, str_from_utf8, trim_chars};
use crate::url_parser;
use crate::url_parser::ParsedUrl;

verus! {

/// Most bytes that are buffered while the end of the headers is awaited.
pub const HEADER_LIMIT: usize = 4096;

/// Progress is published again at most this often (milliseconds).
pub const PROGRESS_REPUBLISH_MS: u64 = 100;

/// Errors of a download.
#[derive(Debug, Clone, Copy, PartialEq, Eq, Structural)]
pub enum HttpError {
    /// The URL was malformed, or the headers were not text.
    BadUrl,
    /// The connection could not be opened.
    ConnectFailed,
    /// A read or write on the socket failed.
    Io,
    /// The status line was malformed (0) or its code was not 2xx.
    BadStatus(u16),
    /// The headers did not end within [`HEADER_LIMIT`] bytes.
    HeadersTooLarge,
    /// The peer closed before everything that it announced had arrived.
    Truncated,
    /// The writer refused the image.
    Writer(OtaError),
}

impl From<OtaError> for HttpError {
    fn from(e: OtaError) -> (r: Self) {
        HttpError::Writer(e)
    }
}

impl vstd::std_specs::convert::FromSpecImpl<OtaError> for HttpError {
    open spec fn obeys_from_spec() -> bool {
        true
    }

    open spec fn from_spec(e: OtaError) -> Self {
        HttpError::Writer(e)
    }
}

/// Parses `http://<ipv4>[:port]/path`.
pub fn parse_url(url: &str) -> (r: Result<ParsedUrl<'_>, HttpError>)
    ensures
        match r {
            Ok(p) => url_parser::url_parts(url@) == Some(
                (url_parser::UrlParts { ip: p.ip@, port: p.port as nat, path: p.path@ }),
            ),
            Err(e) => e == HttpError::BadUrl && url_parser::url_parts(url@) is None,
        },
{
    match url_parser::parse_url(url) {
        Ok(p) => Ok(p),
        Err(_) => Err(HttpError::BadUrl),
    }
}

/// Parses a dotted-quad address.
pub fn parse_ipv4(s: &str) -> (r: Option<[u8; 4]>)
    ensures
        match r {
            Some(ip) => url_parser::ipv4_of(s@) == Some(ip@),
            None => url_parser::ipv4_of(s@) is None,
        },
{
    let c: Vec<char> = chars_of(s);
    url_parser::parse_ipv4_chars(c.as_slice())
}

// ---------------------------------------------------------------------------
// Response head
// ---------------------------------------------------------------------------

/// Where the body starts, and how long it is if the server said so.
#[derive(Debug, Clone, Copy, PartialEq, Eq, Structural)]
pub struct ResponseHead {
    /// Index just past the blank line that ends the headers.
    pub body_start: usize,
    pub content_length: Option<u32>,
}

/// The second space-separated word of a status line.
pub open spec fn status_word(line: Seq<char>) -> Seq<char> {
    let parts = strings::split(line, seq![' ']);
    if parts.len() > 1 {
        parts[1]
    } else {
        Seq::empty()
    }
}

/// The status code of a status line, if the line is well-formed.
pub open spec fn status_of(line: Seq<char>) -> Option<nat> {
    let parts = strings::split(line, seq![' ']);
    if strings::matches_at(parts[0], "HTTP/1."@, 0) {
        strings::parse_unsigned(status_word(line), 65535)
    } else {
        None
    }
}

/// What follows `prefix` in `line`, where `line` starts with it up to case.
pub open spec fn header_value(line: Seq<char>, prefix: Seq<char>) -> Option<Seq<char>> {
    if line.len() >= prefix.len() && strings::eq_ignore_case(
        line.take(prefix.len() as int),
        prefix,
    ) {
        Some(line.skip(prefix.len() as int))
    } else {
        None
    }
}

/// The announced length among the header lines `1..n`: the last line that names
/// it counts.
pub open spec fn content_length_of(lines: Seq<Seq<char>>, n: int) -> Option<nat>
    decreases n,
{
    if n <= 1 {
        None
    } else {
        match header_value(lines[n - 1], "content-length:"@) {
            Some(v) => strings::parse_unsigned(strings::trim(v), u32::MAX as nat),
            None => content_length_of(lines, n - 1),
        }
    }
}

/// What the bytes received so far amount to.
pub enum HeadOutcome {
    /// The blank line has not arrived yet.
    Incomplete,
    Bad(HttpError),
    Ready(int, Option<nat>),
}

pub open spec fn crlf() -> Seq<char> {
    seq!['\r', '\n']
}

pub open spec fn blank_line() -> Seq<u8> {
    seq![13u8, 10u8, 13u8, 10u8]
}

/// What the bytes `buf` of a response amount to.
pub open spec fn head_of(buf: Seq<u8>) -> HeadOutcome {
    match strings::find_seq(buf, blank_line(), 0) {
        None => HeadOutcome::Incomplete,
        Some(term) => {
            let head = buf.take(term);
            let lines = strings::split(decode_utf8(head), crlf());
            if !valid_utf8(head) {
                HeadOutcome::Bad(HttpError::BadUrl)
            } else {
                match status_of(lines[0]) {
                    None => HeadOutcome::Bad(HttpError::BadStatus(0)),
                    Some(code) => if 200 <= code < 300 {
                        HeadOutcome::Ready(
                            term + 4,
                            content_length_of(lines, lines.len() as int),
                        )
                    } else {
                        HeadOutcome::Bad(HttpError::BadStatus(code as u16))
                    },
                }
            }
        },
    }
}

fn parse_status_chars(line: &[char]) -> (r: Result<u16, HttpError>)
    ensures
        match r {
            Ok(code) => status_of(line@) == Some(code as nat),
            Err(e) => e == HttpError::BadStatus(0) && status_of(line@) is None,
        },
{
    let space: [char; 1] = [' '];
    assert(space@ =~= seq![' ']);
    let parts: Vec<&[char]> = split_chars(line, space.as_slice());
    let version: Vec<char> = chars_of("HTTP/1.");
    if !chars_match_at(parts[0], version.as_slice(), 0) {
        return Err(HttpError::BadStatus(0));
    }
    let empty: Vec<char> = Vec::new();
    let code: &[char] = if parts.len() > 1 {
        parts[1]
    } else {
        empty.as_slice()
    };
    assert(code@ =~= status_word(line@));
    match parse_number(code, 65535) {
        Some(n) => Ok(n as u16),
        None => Err(HttpError::BadStatus(0)),
    }
}

/// Parses a status line like `HTTP/1.1 200 OK`.
pub fn parse_status_line(line: &str) -> (r: Result<u16, HttpError>)
    ensures
        match r {
            Ok(code) => status_of(line@) == Some(code as nat),
            Err(e) => e == HttpError::BadStatus(0) && status_of(line@) is None,
        },
{
    let c: Vec<char> = chars_of(line);
    parse_status_chars(c.as_slice())
}

/// What follows `prefix` in `line`, where `line` starts with it up to case.
pub fn strip_header_prefix<'a>(line: &'a [char], prefix: &[char]) -> (r: Option<&'a [char]>)
    ensures
        match r {
            Some(v) => header_value(line@, prefix@) == Some(v@),
            None => header_value(line@, prefix@) is None,
        },
{
    if line.len() < prefix.len() {
        return None;
    }
    let start: &[char] = vstd::slice::slice_subrange(line, 0, prefix.len());
    assert(start@ =~= line@.take(prefix@.len() as int));
    if chars_eq_ignore_case(start, prefix) {
        let rest: &'a [char] = vstd::slice::slice_subrange(line, prefix.len(), line.len());
        assert(rest@ =~= line@.skip(prefix@.len() as int));
        Some(rest)
    } else {
        None
    }
}

/// Parses the bytes received so far; `None` while the headers have not ended.
pub fn parse_response_head(buf: &[u8]) -> (r: Result<Option<ResponseHead>, HttpError>)
    ensures
        match head_of(buf@) {
            HeadOutcome::Incomplete => r == Ok::<Option<ResponseHead>, HttpError>(None),
            HeadOutcome::Bad(e) => r == Err::<Option<ResponseHead>, HttpError>(e),
            HeadOutcome::Ready(start, len) => {
                &&& r is Ok
                &&& r->Ok_0 is Some
                &&& r->Ok_0->0.body_start == start
                &&& r->Ok_0->0.body_start <= buf@.len()
                &&& match len {
                    Some(n) => r->Ok_0->0.content_length == Some(n as u32),
                    None => r->Ok_0->0.content_length is None,
                }
            },
        },
{
    let blank: [u8; 4] = [13, 10, 13, 10];
    assert(blank@ =~= blank_line());
    proof {
        strings::lemma_find_seq(buf@, blank_line(), 0);
    }
    let term: usize = match find_bytes(buf, blank.as_slice(), 0) {
        None => {
            return Ok(None);
        },
        Some(term) => term,
    };
    let total: usize = buf.len();
    assert(term + 4 <= total);
    let head: &[u8] = vstd::slice::slice_subrange(buf, 0, term);
    assert(head@ =~= buf@.take(term as int));
    let text: &str = match str_from_utf8(head) {
        None => {
            return Err(HttpError::BadUrl);
        },
        Some(text) => text,
    };
    let all: Vec<char> = chars_of(text);
    let sep: [char; 2] = ['\r', '\n'];
    assert(sep@ =~= crlf());
    let lines: Vec<&[char]> = split_chars(all.as_slice(), sep.as_slice());
    let ghost spec_lines = strings::split(decode_utf8(buf@.take(term as int)), crlf());
    let status: u16 = match parse_status_chars(lines[0]) {
        Ok(s) => s,
        Err(e) => {
            return Err(e);
        },
    };
    if status < 200 || status >= 300 {
        return Err(HttpError::BadStatus(status));
    }
    let name: Vec<char> = chars_of("content-length:");
    let mut content_length: Option<u32> = None;
    let mut i: usize = 1;
    while i < lines.len()
        invariant
            1 <= i <= lines@.len(),
            lines@.len() == spec_lines.len(),
            name@ == "content-length:"@,
            forall|j: int| 0 <= j < lines@.len() ==> (#[trigger] lines@[j])@ == spec_lines[j],
            match content_length_of(spec_lines, i as int) {
                Some(n) => n <= u32::MAX && content_length == Some(n as u32),
                None => content_length is None,
            },
        decreases lines@.len() - i,
    {
        match strip_header_prefix(lines[i], name.as_slice()) {
            Some(value) => {
                content_length = match parse_number(trim_chars(value), u32::MAX as u64) {
                    Some(n) => Some(n as u32),
                    None => None,
                };
            },
            None => {},
        }
        i = i + 1;
    }
    Ok(Some(ResponseHead { body_start: term + 4, content_length }))
}

// ---------------------------------------------------------------------------
// Request
// ---------------------------------------------------------------------------

/// A dotted-quad address.
pub open spec fn dotted(ip: Seq<u8>) -> Seq<char> {
    strings::decimal(ip[0] as nat) + "."@ + strings::decimal(ip[1] as nat) + "."@
        + strings::decimal(ip[2] as nat) + "."@ + strings::decimal(ip[3] as nat)
}

/// The request for `path` at the given address.
pub open spec fn request_text(path: Seq<char>, ip: Seq<u8>, port: u16) -> Seq<char> {
    "GET "@ + path + " HTTP/1.0\r\nHost: "@ + dotted(ip) + ":"@ + strings::decimal(port as nat)
        + "\r\nUser-Agent: esp-radio-ota/1.0\r\nConnection: close\r\nAccept: */*\r\n\r\n"@
}

/// Appends a dotted-quad address.
pub fn push_dotted(s: &mut String, ip: [u8; 4])
    ensures
        final(s)@ == old(s)@ + dotted(ip@),
{
    let ghost before = s@;
    push_decimal(s, ip[0] as u64);
    push_text(s, ".");
    push_decimal(s, ip[1] as u64);
    push_text(s, ".");
    push_decimal(s, ip[2] as u64);
    push_text(s, ".");
    push_decimal(s, ip[3] as u64);
    assert(s@ =~= before + dotted(ip@));
}

/// Builds a minimal HTTP/1.0 request.
pub fn format_request(path: &str, ip: [u8; 4], port: u16) -> (s: String)
    ensures
        s@ == request_text(path@, ip@, port),
{
    let mut s: String = String::new();
    push_text(&mut s, "GET ");
    push_text(&mut s, path);
    push_text(&mut s, " HTTP/1.0\r\nHost: ");
    push_dotted(&mut s, ip);
    push_text(&mut s, ":");
    push_decimal(&mut s, port as u64);
    push_text(
        &mut s,
        "\r\nUser-Agent: esp-radio-ota/1.0\r\nConnection: close\r\nAccept: */*\r\n\r\n",
    );
    assert(s@ =~= request_text(path@, ip@, port));
    s
}

// ---------------------------------------------------------------------------
// Download
// ---------------------------------------------------------------------------

/// What a download waits for.
#[derive(Debug, Clone, Copy, PartialEq, Eq, Structural)]
pub enum DownloadPhase {
    /// For the connection.
    Connecting,
    /// For the request to be sent.
    Sending,
    /// For more bytes of the response head.
    Head,
    /// For the writer to take the body bytes that came with the head.
    Prefix,
    /// For more bytes of the body.
    Body,
    /// For the writer to take the bytes just read.
    Writing,
    /// For nothing: the download is over.
    Over,
}

/// What happened on the connection or at the writer.
#[derive(Debug, Clone, Copy, PartialEq, Eq, Structural)]
pub enum DownloadEvent {
    Connected,
    ConnectFailed,
    ConnectTimedOut,
    Sent,
    SendFailed,
    /// Bytes were read (one or more).
    Data,
    /// The peer closed.
    Closed,
    ReadFailed,
    Written,
    WriteFailed(OtaError),
}

/// What has to be done next.
#[derive(Debug, Clone, Copy, PartialEq, Eq, Structural)]
pub enum DownloadAction {
    /// Send the request.
    Send,
    /// Read from the socket.
    Read,
    /// Hand [`Download::body_prefix`] to the writer.
    WritePrefix,
    /// Hand the bytes just read to the writer.
    WriteChunk,
    /// Close the socket: everything has arrived.
    Finish,
    /// Give up.
    Fail(HttpError),
    /// Abort the socket and give up.
    AbortAndFail(HttpError),
}

/// Bytes received and announced, as shown to the user.
#[derive(Debug, Clone, Copy, PartialEq, Eq, Structural)]
pub struct DownloadProgress {
    pub received: u32,
    pub total: u32,
}

/// What to publish, and then what to do.
#[derive(Debug, Clone, Copy, PartialEq, Eq, Structural)]
pub struct DownloadStep {
    pub publish: Option<DownloadProgress>,
    pub action: DownloadAction,
}

/// The plain part of a download's state.
#[derive(Debug, Clone, Copy, PartialEq, Eq, Structural)]
pub struct DownloadState {
    pub phase: DownloadPhase,
    pub body_start: usize,
    pub content_length: Option<u32>,
    pub received: u32,
    pub last_progress_ms: u64,
    /// Bytes that the writer was handed and has not acknowledged.
    pub pending: usize,
}

/// Which events can occur in which phase.
pub open spec fn expects(phase: DownloadPhase, e: DownloadEvent) -> bool {
    match phase {
        DownloadPhase::Connecting => e is Connected || e is ConnectFailed || e is ConnectTimedOut,
        DownloadPhase::Sending => e is Sent || e is SendFailed,
        DownloadPhase::Head | DownloadPhase::Body => e is Data || e is Closed || e is ReadFailed,
        DownloadPhase::Prefix | DownloadPhase::Writing => e is Written || e is WriteFailed,
        DownloadPhase::Over => false,
    }
}

pub open spec fn failed(s: DownloadState, action: DownloadAction) -> (DownloadState, DownloadStep) {
    (
        DownloadState { phase: DownloadPhase::Over, ..s },
        DownloadStep { publish: None, action },
    )
}

/// The announced length, 0 where none was announced.
pub open spec fn announced(s: DownloadState) -> u32 {
    match s.content_length {
        Some(n) => n,
        None => 0,
    }
}

/// Everything has arrived: a last progress report, then the socket is closed.
pub open spec fn finished(s: DownloadState) -> (DownloadState, DownloadStep) {
    (
        DownloadState { phase: DownloadPhase::Over, ..s },
        DownloadStep {
            publish: Some(
                DownloadProgress {
                    received: s.received,
                    total: match s.content_length {
                        Some(n) => n,
                        None => s.received,
                    },
                },
            ),
            action: DownloadAction::Finish,
        },
    )
}

/// The next read, unless everything that was announced has arrived.
pub open spec fn more(s: DownloadState, publish: bool) -> (DownloadState, DownloadStep) {
    if s.content_length is Some && s.received >= s.content_length->0 {
        finished(s)
    } else {
        (
            DownloadState { phase: DownloadPhase::Body, ..s },
            DownloadStep {
                publish: if publish {
                    Some(DownloadProgress { received: s.received, total: announced(s) })
                } else {
                    None
                },
                action: DownloadAction::Read,
            },
        )
    }
}

/// The body starts: the first progress report, then the next read.
pub open spec fn body_started(s: DownloadState, now: u64) -> (DownloadState, DownloadStep) {
    more(DownloadState { last_progress_ms: now, ..s }, true)
}

/// A read of the response head, where `head` holds all bytes so far.
pub open spec fn head_read(s: DownloadState, head: Seq<u8>, now: u64) -> (
    DownloadState,
    DownloadStep,
) {
    match head_of(head) {
        HeadOutcome::Incomplete => (s, DownloadStep { publish: None, action: DownloadAction::Read }),
        HeadOutcome::Bad(e) => failed(s, DownloadAction::Fail(e)),
        HeadOutcome::Ready(start, len) => {
            let t = DownloadState {
                body_start: start as usize,
                content_length: match len {
                    Some(n) => Some(n as u32),
                    None => None,
                },
                received: (head.len() - start) as u32,
                ..s
            };
            if start < head.len() {
                (
                    DownloadState { phase: DownloadPhase::Prefix, ..t },
                    DownloadStep { publish: None, action: DownloadAction::WritePrefix },
                )
            } else {
                body_started(t, now)
            }
        },
    }
}

/// What a download does on an event; `head` holds the bytes of the response
/// head so far, those of this event included.
pub open spec fn next(s: DownloadState, head: Seq<u8>, e: DownloadEvent, read: int, now: u64) -> (
    DownloadState,
    DownloadStep,
) {
    match (s.phase, e) {
        (DownloadPhase::Connecting, DownloadEvent::Connected) => (
            DownloadState { phase: DownloadPhase::Sending, ..s },
            DownloadStep { publish: None, action: DownloadAction::Send },
        ),
        (DownloadPhase::Connecting, DownloadEvent::ConnectTimedOut) => failed(
            s,
            DownloadAction::AbortAndFail(HttpError::ConnectFailed),
        ),
        (DownloadPhase::Connecting, _) => failed(s, DownloadAction::Fail(HttpError::ConnectFailed)),
        (DownloadPhase::Sending, DownloadEvent::Sent) => (
            DownloadState { phase: DownloadPhase::Head, ..s },
            DownloadStep { publish: None, action: DownloadAction::Read },
        ),
        (DownloadPhase::Sending, _) => failed(s, DownloadAction::Fail(HttpError::Io)),
        (DownloadPhase::Head, DownloadEvent::Data) => if head.len() > HEADER_LIMIT {
            failed(s, DownloadAction::Fail(HttpError::HeadersTooLarge))
        } else {
            head_read(s, head, now)
        },
        (DownloadPhase::Head, DownloadEvent::Closed) => failed(
            s,
            DownloadAction::Fail(HttpError::Truncated),
        ),
        (DownloadPhase::Body, DownloadEvent::Data) => (
            DownloadState { phase: DownloadPhase::Writing, pending: read as usize, ..s },
            DownloadStep { publish: None, action: DownloadAction::WriteChunk },
        ),
        (DownloadPhase::Body, DownloadEvent::Closed) => if s.content_length is Some && s.received
            < s.content_length->0 {
            failed(s, DownloadAction::Fail(HttpError::Truncated))
        } else {
            finished(s)
        },
        (DownloadPhase::Prefix, DownloadEvent::Written) => body_started(s, now),
        (DownloadPhase::Writing, DownloadEvent::Written) => {
            let received = writer::saturate((s.received + writer::saturate(s.pending as nat)) as nat);
            let due = now - s.last_progress_ms >= PROGRESS_REPUBLISH_MS;
            more(
                DownloadState {
                    received,
                    pending: 0,
                    last_progress_ms: if due {
                        now
                    } else {
                        s.last_progress_ms
                    },
                    ..s
                },
                due,
            )
        },
        (_, DownloadEvent::WriteFailed(o)) => failed(s, DownloadAction::Fail(HttpError::Writer(o))),
        _ => failed(s, DownloadAction::Fail(HttpError::Io)),
    }
}

/// One download, from the connection to the last byte.
pub struct Download {
    ip: [u8; 4],
    port: u16,
    path: String,
    state: DownloadState,
    head: Vec<u8>,
    /// Every byte read from the socket.
    stream: Ghost<Seq<u8>>,
    /// Every byte that the writer has acknowledged.
    delivered: Ghost<Seq<u8>>,
}

impl Download {
    pub closed spec fn ip(&self) -> Seq<u8> {
        self.ip@
    }

    pub closed spec fn port(&self) -> u16 {
        self.port
    }

    pub closed spec fn path(&self) -> Seq<char> {
        self.path@
    }

    pub closed spec fn state(&self) -> DownloadState {
        self.state
    }

    /// The bytes collected while the response head was read.
    pub closed spec fn head(&self) -> Seq<u8> {
        self.head@
    }

    /// Every byte read from the socket.
    pub closed spec fn stream(&self) -> Seq<u8> {
        self.stream@
    }

    /// Every byte that the writer has acknowledged.
    pub closed spec fn delivered(&self) -> Seq<u8> {
        self.delivered@
    }

    /// The body bytes that the writer has acknowledged are those that were
    /// read, in order and without a gap, and their number is what is reported.
    pub closed spec fn wf(&self) -> bool {
        let s = self.state;
        &&& self.head@.len() <= HEADER_LIMIT
        &&& match s.phase {
            DownloadPhase::Connecting | DownloadPhase::Sending => {
                &&& self.head@.len() == 0
                &&& self.stream@.len() == 0
                &&& self.delivered@.len() == 0
            },
            DownloadPhase::Head => {
                &&& self.stream@ == self.head@
                &&& self.delivered@.len() == 0
            },
            DownloadPhase::Prefix => {
                &&& self.stream@ == self.head@
                &&& self.delivered@.len() == 0
                &&& s.body_start < self.head@.len()
                &&& s.received == self.head@.len() - s.body_start
            },
            DownloadPhase::Body => {
                &&& s.body_start <= self.stream@.len()
                &&& self.delivered@ =~= self.stream@.skip(s.body_start as int)
                &&& s.received == writer::saturate(self.delivered@.len())
            },
            DownloadPhase::Writing => {
                &&& s.body_start + s.pending <= self.stream@.len()
                &&& self.delivered@ =~= self.stream@.subrange(
                    s.body_start as int,
                    self.stream@.len() - s.pending,
                )
                &&& s.received == writer::saturate(self.delivered@.len())
            },
            DownloadPhase::Over => true,
        }
    }

    /// Starts a download: takes the URL apart. The connection is opened next.
    pub fn start(url: &str) -> (r: Result<Download, HttpError>)
        ensures
            match r {
                Ok(d) => {
                    &&& d.wf()
                    &&& d.state().phase == DownloadPhase::Connecting
                    &&& d.state().received == 0
                    &&& d.stream() == Seq::<u8>::empty()
                    &&& d.delivered() == Seq::<u8>::empty()
                    &&& d.head() == Seq::<u8>::empty()
                    &&& url_parser::url_parts(url@) == Some(
                        (url_parser::UrlParts {
                            ip: d.ip(),
                            port: d.port() as nat,
                            path: d.path(),
                        }),
                    )
                },
                Err(e) => e == HttpError::BadUrl && url_parser::url_parts(url@) is None,
            },
    {
        match parse_url(url) {
            Ok(p) => {
                Ok(
                    Download {
                        ip: p.ip,
                        port: p.port,
                        path: p.path.to_owned(),
                        state: DownloadState {
                            phase: DownloadPhase::Connecting,
                            body_start: 0,
                            content_length: None,
                            received: 0,
                            last_progress_ms: 0,
                            pending: 0,
                        },
                        head: Vec::new(),
                        stream: Ghost(Seq::empty()),
                        delivered: Ghost(Seq::empty()),
                    },
                )
            },
            Err(e) => Err(e),
        }
    }

    /// The address and port to connect to.
    pub fn endpoint(&self) -> (r: ([u8; 4], u16))
        ensures
            r.0@ == self.ip(),
            r.1 == self.port(),
    {
        (self.ip, self.port)
    }

    /// The request to send.
    pub fn request(&self) -> (r: String)
        ensures
            r@ == request_text(self.path(), self.ip(), self.port()),
    {
        format_request(self.path.as_str(), self.ip, self.port)
    }

    /// The body bytes that came with the response head.
    pub fn body_prefix(&self) -> (r: &[u8])
        requires
            self.wf(),
            self.state().phase == DownloadPhase::Prefix,
        ensures
            r@ == self.head().skip(self.state().body_start as int),
    {
        let r: &[u8] = vstd::slice::slice_subrange(
            self.head.as_slice(),
            self.state.body_start,
            self.head.len(),
        );
        assert(r@ =~= self.head@.skip(self.state.body_start as int));
        r
    }

    fn fail(&mut self, action: DownloadAction) -> (r: DownloadStep)
        requires
            old(self).wf(),
        ensures
            final(self).wf(),
            (final(self).state(), r) == failed(old(self).state(), action),
            final(self).ip() == old(self).ip(),
            final(self).port() == old(self).port(),
            final(self).path() == old(self).path(),
            final(self).head() == old(self).head(),
            final(self).stream() == old(self).stream(),
            final(self).delivered() == old(self).delivered(),
    {
        self.state.phase = DownloadPhase::Over;
        DownloadStep { publish: None, action }
    }

    fn finish(&mut self) -> (r: DownloadStep)
        requires
            old(self).head().len() <= HEADER_LIMIT,
        ensures
            final(self).wf(),
            (final(self).state(), r) == finished(old(self).state()),
            final(self).ip() == old(self).ip(),
            final(self).port() == old(self).port(),
            final(self).path() == old(self).path(),
            final(self).head() == old(self).head(),
            final(self).stream() == old(self).stream(),
            final(self).delivered() == old(self).delivered(),
    {
        self.state.phase = DownloadPhase::Over;
        let total: u32 = match self.state.content_length {
            Some(n) => n,
            None => self.state.received,
        };
        DownloadStep {
            publish: Some(DownloadProgress { received: self.state.received, total }),
            action: DownloadAction::Finish,
        }
    }

    fn read_more(&mut self, publish: bool) -> (r: DownloadStep)
        requires
            old(self).head().len() <= HEADER_LIMIT,
            old(self).state().body_start <= old(self).stream().len(),
            old(self).delivered() == old(self).stream().skip(old(self).state().body_start as int),
            old(self).state().received == writer::saturate(old(self).delivered().len()),
        ensures
            final(self).wf(),
            (final(self).state(), r) == more(old(self).state(), publish),
            final(self).ip() == old(self).ip(),
            final(self).port() == old(self).port(),
            final(self).path() == old(self).path(),
            final(self).head() == old(self).head(),
            final(self).stream() == old(self).stream(),
            final(self).delivered() == old(self).delivered(),
    {
        let total: u32 = match self.state.content_length {
            Some(n) => {
                if self.state.received >= n {
                    return self.finish();
                }
                n
            },
            None => 0,
        };
        self.state.phase = DownloadPhase::Body;
        DownloadStep {
            publish: if publish {
                Some(DownloadProgress { received: self.state.received, total })
            } else {
                None
            },
            action: DownloadAction::Read,
        }
    }

    fn on_head_bytes(&mut self, chunk: &[u8], now_ms: u64) -> (r: DownloadStep)
        requires
            old(self).wf(),
            old(self).state().phase == DownloadPhase::Head,
        ensures
            final(self).wf(),
            final(self).ip() == old(self).ip(),
            final(self).port() == old(self).port(),
            final(self).path() == old(self).path(),
            final(self).stream() == old(self).stream() + chunk@,
            (final(self).state(), r) == next(
                old(self).state(),
                old(self).head() + chunk@,
                DownloadEvent::Data,
                chunk@.len() as int,
                now_ms,
            ),
            (old(self).head() + chunk@).len() <= HEADER_LIMIT ==> final(self).head() == old(
                self,
            ).head() + chunk@,
            (old(self).head() + chunk@).len() > HEADER_LIMIT ==> final(self).head() == old(
                self,
            ).head(),
            r.action == DownloadAction::Finish ==> {
                &&& final(self).delivered() == final(self).stream().skip(
                    final(self).state().body_start as int,
                )
                &&& final(self).state().received == writer::saturate(final(self).delivered().len())
            },
    {
        self.stream = Ghost(self.stream@ + chunk@);
        if chunk.len() > HEADER_LIMIT - self.head.len() {
            self.state.phase = DownloadPhase::Over;
            return DownloadStep {
                publish: None,
                action: DownloadAction::Fail(HttpError::HeadersTooLarge),
            };
        }
        let ghost before = self.head@;
        self.head.extend_from_slice(chunk);
        assert(self.head@ =~= before + chunk@);
        match parse_response_head(self.head.as_slice()) {
            Err(e) => {
                self.state.phase = DownloadPhase::Over;
                DownloadStep { publish: None, action: DownloadAction::Fail(e) }
            },
            Ok(None) => DownloadStep { publish: None, action: DownloadAction::Read },
            Ok(Some(h)) => {
                self.state.body_start = h.body_start;
                self.state.content_length = h.content_length;
                self.state.received = (self.head.len() - h.body_start) as u32;
                if h.body_start < self.head.len() {
                    self.state.phase = DownloadPhase::Prefix;
                    DownloadStep { publish: None, action: DownloadAction::WritePrefix }
                } else {
                    self.state.last_progress_ms = now_ms;
                    assert(self.delivered@ =~= self.stream@.skip(self.state.body_start as int));
                    self.read_more(true)
                }
            },
        }
    }

    /// Takes an event and says what to do next. `chunk` holds the bytes that
    /// were read where the event is [`DownloadEvent::Data`], `now_ms` the time.
    pub fn step(&mut self, event: DownloadEvent, chunk: &[u8], now_ms: u64) -> (r: DownloadStep)
        requires
            old(self).wf(),
            expects(old(self).state().phase, event),
            event is Data <==> chunk@.len() > 0,
        ensures
            final(self).wf(),
            final(self).ip() == old(self).ip(),
            final(self).port() == old(self).port(),
            final(self).path() == old(self).path(),
            final(self).stream() == old(self).stream() + chunk@,
            final(self).head() == (if old(self).state().phase == DownloadPhase::Head && (old(
                self,
            ).head() + chunk@).len() <= HEADER_LIMIT {
                old(self).head() + chunk@
            } else {
                old(self).head()
            }),
            (final(self).state(), r) == next(
                old(self).state(),
                old(self).head() + chunk@,
                event,
                chunk@.len() as int,
                now_ms,
            ),
            final(self).state().phase == DownloadPhase::Body ==> final(self).delivered()
                == final(self).stream().skip(final(self).state().body_start as int),
            r.action == DownloadAction::Finish ==> {
                &&& final(self).delivered() == final(self).stream().skip(
                    final(self).state().body_start as int,
                )
                &&& final(self).state().received == writer::saturate(final(self).delivered().len())
                &&& final(self).state().content_length is Some
                    ==> final(self).state().content_length->0 <= final(self).delivered().len()
            },
    {
        assert(chunk@.len() == 0 ==> self.stream@ + chunk@ =~= self.stream@);
        assert(chunk@.len() == 0 ==> self.head@ + chunk@ =~= self.head@);
        match self.state.phase {
            DownloadPhase::Connecting => match event {
                DownloadEvent::Connected => {
                    self.state.phase = DownloadPhase::Sending;
                    DownloadStep { publish: None, action: DownloadAction::Send }
                },
                DownloadEvent::ConnectTimedOut => self.fail(
                    DownloadAction::AbortAndFail(HttpError::ConnectFailed),
                ),
                _ => self.fail(DownloadAction::Fail(HttpError::ConnectFailed)),
            },
            DownloadPhase::Sending => match event {
                DownloadEvent::Sent => {
                    self.state.phase = DownloadPhase::Head;
                    assert(self.stream@ =~= self.head@);
                    DownloadStep { publish: None, action: DownloadAction::Read }
                },
                _ => self.fail(DownloadAction::Fail(HttpError::Io)),
            },
            DownloadPhase::Head => match event {
                DownloadEvent::Data => {
                    self.on_head_bytes(chunk, now_ms)
                },
                DownloadEvent::Closed => self.fail(DownloadAction::Fail(HttpError::Truncated)),
                _ => self.fail(DownloadAction::Fail(HttpError::Io)),
            },
            DownloadPhase::Prefix => match event {
                DownloadEvent::Written => {
                    self.delivered = Ghost(self.stream@.skip(self.state.body_start as int));
                    self.state.last_progress_ms = now_ms;
                    self.read_more(true)
                },
                DownloadEvent::WriteFailed(e) => self.fail(
                    DownloadAction::Fail(HttpError::Writer(e)),
                ),
                _ => self.fail(DownloadAction::Fail(HttpError::Io)),
            },
            DownloadPhase::Body => match event {
                DownloadEvent::Data => {
                    self.stream = Ghost(self.stream@ + chunk@);
                    self.state.phase = DownloadPhase::Writing;
                    self.state.pending = chunk.len();
                    assert(self.delivered@ =~= self.stream@.subrange(
                        self.state.body_start as int,
                        self.stream@.len() - chunk@.len(),
                    ));
                    DownloadStep { publish: None, action: DownloadAction::WriteChunk }
                },
                DownloadEvent::Closed => {
                    match self.state.content_length {
                        Some(n) => {
                            if self.state.received < n {
                                return self.fail(DownloadAction::Fail(HttpError::Truncated));
                            }
                        },
                        None => {},
                    }
                    self.finish()
                },
                _ => self.fail(DownloadAction::Fail(HttpError::Io)),
            },
            DownloadPhase::Writing => match event {
                DownloadEvent::Written => {
                    self.delivered = Ghost(self.stream@.skip(self.state.body_start as int));
                    let n: u32 = if self.state.pending > u32::MAX as usize {
                        u32::MAX
                    } else {
                        self.state.pending as u32
                    };
                    self.state.received = self.state.received.saturating_add(n);
                    self.state.pending = 0;
                    let due: bool = now_ms.saturating_sub(self.state.last_progress_ms)
                        >= PROGRESS_REPUBLISH_MS;
                    if due {
                        self.state.last_progress_ms = now_ms;
                    }
                    self.read_more(due)
                },
                DownloadEvent::WriteFailed(e) => self.fail(
                    DownloadAction::Fail(HttpError::Writer(e)),
                ),
                _ => self.fail(DownloadAction::Fail(HttpError::Io)),
            },
            DownloadPhase::Over => self.fail(DownloadAction::Fail(HttpError::Io)),
        }
    }
}

/// Whether a header line announces the length of the body: it starts with that
/// header's name, in letters of either case, and a colon.
pub open spec fn announces_length(line: Seq<char>) -> bool {
    line.len() >= 15 && strings::in_any_case(line.take(15), "content-length:"@)
}

/// A response head of the given lines, the first a status line with `code`,
/// stands in front of `buf`: the first blank line follows it at `term`.
pub open spec fn is_head(
    buf: Seq<u8>,
    term: int,
    lines: Seq<Seq<char>>,
    minor: Seq<char>,
    code: nat,
    reason: Seq<char>,
) -> bool {
    &&& 0 <= term <= buf.len() - 4
    &&& buf.subrange(term, term + 4) == seq![13u8, 10u8, 13u8, 10u8]
    &&& forall|k: int|
        0 <= k < term ==> #[trigger] buf.subrange(k, k + 4) != seq![13u8, 10u8, 13u8, 10u8]
    &&& valid_utf8(buf.take(term))
    &&& decode_utf8(buf.take(term)) == strings::joined_by(lines, seq!['\r', '\n'])
    &&& lines.len() > 0
    &&& forall|j: int| 0 <= j < lines.len() ==> !(#[trigger] lines[j]).contains('\n')
    &&& lines[0] == "HTTP/1."@ + minor + seq![' '] + strings::decimal(code) + reason
    &&& !minor.contains(' ')
    &&& reason.len() == 0 || reason[0] == ' '
    &&& code <= 65535
}

proof fn lemma_status_line(line: Seq<char>, minor: Seq<char>, code: nat, reason: Seq<char>)
    requires
        line == "HTTP/1."@ + minor + seq![' '] + strings::decimal(code) + reason,
        !minor.contains(' '),
        reason.len() == 0 || reason[0] == ' ',
        code <= 65535,
    ensures
        status_of(line) == Some(code),
{
    reveal_strlit("HTTP/1.");
    let version = "HTTP/1."@ + minor;
    let number = strings::decimal(code);
    let rest = number + reason;
    assert(!version.contains(' ')) by {
        if version.contains(' ') {
            let i = choose|i: int| 0 <= i < version.len() && version[i] == ' ';
            if i >= 7 {
                assert(minor[i - 7] == ' ');
            }
        }
    }
    strings::lemma_decimal(code);
    assert(!number.contains(' ')) by {
        if number.contains(' ') {
            let i = choose|i: int| 0 <= i < number.len() && number[i] == ' ';
            assert(strings::is_digit(number[i]));
        }
    }
    assert(line =~= version + seq![' '] + rest);
    strings::lemma_split_first(version, ' ', rest);
    if reason.len() == 0 {
        assert(rest =~= number);
        strings::lemma_split_first(number, ' ', reason);
    } else {
        assert(rest =~= number + seq![' '] + reason.skip(1));
        strings::lemma_split_first(number, ' ', reason.skip(1));
    }
    let parts = strings::split(line, seq![' ']);
    assert(parts[0] == version);
    assert(parts[1] == number);
    assert(version.subrange(0, 7) =~= "HTTP/1."@);
    strings::lemma_parse_decimal(code, 65535);
}

proof fn lemma_head(
    buf: Seq<u8>,
    term: int,
    lines: Seq<Seq<char>>,
    minor: Seq<char>,
    code: nat,
    reason: Seq<char>,
)
    requires
        is_head(buf, term, lines, minor, code, reason),
    ensures
        strings::find_seq(buf, blank_line(), 0) == Some(term),
        strings::split(decode_utf8(buf.take(term)), crlf()) == lines,
        status_of(lines[0]) == Some(code),
{
    strings::lemma_find_seq(buf, blank_line(), 0);
    assert(strings::matches_at(buf, blank_line(), term));
    assert forall|k: int| 0 <= k < term implies !#[trigger] strings::matches_at(
        buf,
        blank_line(),
        k,
    ) by {
        assert(buf.subrange(k, k + 4) != seq![13u8, 10u8, 13u8, 10u8]);
    }
    let cr = seq!['\r'];
    assert(cr.push('\n') =~= crlf());
    strings::law_split_undoes_join(lines, cr, '\n');
    lemma_status_line(lines[0], minor, code, reason);
}

proof fn lemma_length_name()
    ensures
        "content-length:"@.len() == 15,
        forall|line: Seq<char>|
            (#[trigger] header_value(line, "content-length:"@) is Some) == announces_length(line),
{
    reveal_strlit("content-length:");
    assert forall|line: Seq<char>|
        (#[trigger] header_value(line, "content-length:"@) is Some) == announces_length(line) by {
        if line.len() >= 15 {
            strings::law_case_is_ignored(line.take(15), "content-length:"@);
        }
    }
}

proof fn lemma_last_length_counts(lines: Seq<Seq<char>>, i: int, n: int)
    requires
        1 <= i < n <= lines.len(),
        announces_length(lines[i]),
        forall|j: int| i < j < n ==> !announces_length(#[trigger] lines[j]),
    ensures
        content_length_of(lines, n) == strings::parse_unsigned(
            strings::trim(lines[i].skip(15)),
            u32::MAX as nat,
        ),
    decreases n,
{
    lemma_length_name();
    assert((header_value(lines[n - 1], "content-length:"@) is Some) == announces_length(
        lines[n - 1],
    ));
    if i < n - 1 {
        assert(!announces_length(lines[n - 1]));
        lemma_last_length_counts(lines, i, n - 1);
    }
}

proof fn lemma_no_length(lines: Seq<Seq<char>>, n: int)
    requires
        n <= lines.len(),
        forall|j: int| 1 <= j < n ==> !announces_length(#[trigger] lines[j]),
    ensures
        content_length_of(lines, n) is None,
    decreases n,
{
    if n > 1 {
        lemma_length_name();
        assert(!announces_length(lines[n - 1]));
        assert((header_value(lines[n - 1], "content-length:"@) is Some) == announces_length(
            lines[n - 1],
        ));
        lemma_no_length(lines, n - 1);
    }
}

/// The announced length is found at whatever position its line stands, and
/// whatever other header lines stand before and behind it: a head with status
/// 2xx and the line `Content-Length: n`, in letters of either case and with any
/// blanks round the number, gives the length `n`. Of several such lines the
/// last counts.
pub proof fn law_announced_length_is_found(
    buf: Seq<u8>,
    term: int,
    lines: Seq<Seq<char>>,
    minor: Seq<char>,
    code: nat,
    reason: Seq<char>,
    i: int,
    before: Seq<char>,
    n: nat,
    behind: Seq<char>,
)
    requires
        is_head(buf, term, lines, minor, code, reason),
        200 <= code < 300,
        1 <= i < lines.len(),
        announces_length(lines[i]),
        lines[i].skip(15) == before + strings::decimal(n) + behind,
        strings::is_blank(before),
        strings::is_blank(behind),
        n <= u32::MAX,
        forall|j: int| i < j < lines.len() ==> !announces_length(#[trigger] lines[j]),
    ensures
        head_of(buf) == HeadOutcome::Ready(term + 4, Some(n)),
{
    lemma_head(buf, term, lines, minor, code, reason);
    lemma_last_length_counts(lines, i, lines.len() as int);
    strings::lemma_decimal(n);
    let d = strings::decimal(n);
    assert(strings::is_digit(d[0]) && strings::is_digit(d[d.len() - 1]));
    strings::law_trim_takes_blanks_off(before, d, behind);
    strings::lemma_parse_decimal(n, u32::MAX as nat);
}

/// Without a header line that announces it, the length is unknown, and the body
/// starts right behind the blank line.
pub proof fn law_unannounced_length_is_unknown(
    buf: Seq<u8>,
    term: int,
    lines: Seq<Seq<char>>,
    minor: Seq<char>,
    code: nat,
    reason: Seq<char>,
)
    requires
        is_head(buf, term, lines, minor, code, reason),
        200 <= code < 300,
        forall|j: int| 1 <= j < lines.len() ==> !announces_length(#[trigger] lines[j]),
    ensures
        head_of(buf) == HeadOutcome::Ready(term + 4, None),
{
    lemma_head(buf, term, lines, minor, code, reason);
    lemma_no_length(lines, lines.len() as int);
}

/// A response whose status is not 2xx is refused with that status, whatever its
/// other header lines say.
pub proof fn law_other_status_is_refused(
    buf: Seq<u8>,
    term: int,
    lines: Seq<Seq<char>>,
    minor: Seq<char>,
    code: nat,
    reason: Seq<char>,
)
    requires
        is_head(buf, term, lines, minor, code, reason),
        code < 200 || code >= 300,
    ensures
        head_of(buf) == HeadOutcome::Bad(HttpError::BadStatus(code as u16)),
{
    lemma_head(buf, term, lines, minor, code, reason);
}

/// As long as no blank line has arrived, the head is incomplete, and nothing is
/// decided on it.
pub proof fn law_head_awaits_its_blank_line(buf: Seq<u8>)
    requires
        forall|k: int|
            0 <= k <= buf.len() - 4 ==> #[trigger] buf.subrange(k, k + 4) != seq![
                13u8,
                10u8,
                13u8,
                10u8,
            ],
    ensures
        head_of(buf) == HeadOutcome::Incomplete,
{
    strings::lemma_find_seq(buf, blank_line(), 0);
    if let Some(k) = strings::find_seq(buf, blank_line(), 0) {
        assert(strings::matches_at(buf, blank_line(), k));
        assert(buf.subrange(k, k + 4) == blank_line());
    }
}

/// The sum of the numbers.
pub open spec fn total_of(ks: Seq<int>) -> int
    decreases ks.len(),
{
    if ks.len() == 0 {
        0
    } else {
        total_of(ks.drop_last()) + ks.last()
    }
}

/// A download after chunks of the given sizes were read at the given times and
/// the writer has taken each, and what it asked for last.
pub open spec fn after_chunks(
    s: DownloadState,
    action: DownloadAction,
    ks: Seq<int>,
    times: Seq<u64>,
) -> (DownloadState, DownloadAction)
    decreases ks.len(),
{
    if ks.len() == 0 {
        (s, action)
    } else {
        let (t, _) = after_chunks(s, action, ks.drop_last(), times);
        let now = times[ks.len() - 1];
        let (u, _) = next(t, Seq::empty(), DownloadEvent::Data, ks.last(), now);
        let (v, step) = next(u, Seq::empty(), DownloadEvent::Written, 0, now);
        (v, step.action)
    }
}

/// Bytes are counted without loss: after any chunks that stay below the
/// announced length the download reads on, has counted all of them, and knows
/// the announced length still. A peer that closes then has truncated the image;
/// a chunk that brings the rest ends the download well, and so it does where no
/// length was announced and the peer closes.
pub proof fn law_download_ends_when_all_has_arrived(
    s: DownloadState,
    ks: Seq<int>,
    times: Seq<u64>,
    last: int,
    now: u64,
)
    requires
        s.phase == DownloadPhase::Body,
        s.pending == 0,
        forall|i: int| 0 <= i < ks.len() ==> 0 < #[trigger] ks[i],
        s.received + total_of(ks) + last <= u32::MAX,
        last > 0,
        s.content_length is Some ==> s.received + total_of(ks) < s.content_length->0,
    ensures
        ({
            let (t, a) = after_chunks(s, DownloadAction::Read, ks, times);
            let (_, closed) = next(t, Seq::empty(), DownloadEvent::Closed, 0, now);
            let (u, w) = next(t, Seq::empty(), DownloadEvent::Data, last, now);
            let (_, end) = next(u, Seq::empty(), DownloadEvent::Written, 0, now);
            &&& a == DownloadAction::Read
            &&& t.phase == DownloadPhase::Body
            &&& t.received == s.received + total_of(ks)
            &&& t.content_length == s.content_length
            &&& t.body_start == s.body_start
            &&& s.content_length is Some ==> closed.action == DownloadAction::Fail(
                HttpError::Truncated,
            )
            &&& s.content_length is None ==> closed.action == DownloadAction::Finish
            &&& w.action == DownloadAction::WriteChunk
            &&& end.action == DownloadAction::Finish <==> s.content_length is Some && t.received
                + last >= s.content_length->0
            &&& end.action == DownloadAction::Finish || end.action == DownloadAction::Read
            &&& end.action == DownloadAction::Finish ==> end.publish == Some(
                DownloadProgress {
                    received: (t.received + last) as u32,
                    total: s.content_length->0,
                },
            )
        }),
    decreases ks.len(),
{
    lemma_chunks(s, ks, times);
}

proof fn lemma_total(ks: Seq<int>)
    requires
        forall|i: int| 0 <= i < ks.len() ==> 0 < #[trigger] ks[i],
    ensures
        total_of(ks) >= 0,
    decreases ks.len(),
{
    if ks.len() > 0 {
        lemma_total(ks.drop_last());
    }
}

proof fn lemma_chunks(s: DownloadState, ks: Seq<int>, times: Seq<u64>)
    requires
        s.phase == DownloadPhase::Body,
        s.pending == 0,
        forall|i: int| 0 <= i < ks.len() ==> 0 < #[trigger] ks[i],
        s.received + total_of(ks) <= u32::MAX,
        s.content_length is Some ==> s.received + total_of(ks) < s.content_length->0,
    ensures
        ({
            let (t, a) = after_chunks(s, DownloadAction::Read, ks, times);
            &&& a == DownloadAction::Read
            &&& t.phase == DownloadPhase::Body
            &&& t.pending == 0
            &&& t.received == s.received + total_of(ks)
            &&& t.content_length == s.content_length
            &&& t.body_start == s.body_start
        }),
    decreases ks.len(),
{
    lemma_total(ks);
    if ks.len() > 0 {
        let k = ks[ks.len() - 1];
        lemma_total(ks.drop_last());
        lemma_chunks(s, ks.drop_last(), times);
        assert(0 < k <= u32::MAX);
    }
}

/// The body starts right behind the blank line: the bytes of it that came with
/// the head are counted and handed to the writer first, and reading goes on
/// from there unless the announced length has arrived.
pub proof fn law_bytes_behind_the_head_are_body(
    s: DownloadState,
    head: Seq<u8>,
    start: int,
    len: Option<nat>,
    read: int,
    now: u64,
    later: u64,
)
    requires
        s.phase == DownloadPhase::Head,
        head.len() <= HEADER_LIMIT,
        head_of(head) == HeadOutcome::Ready(start, len),
        0 <= start <= head.len(),
        len is Some ==> len->0 <= u32::MAX,
    ensures
        ({
            let (t, step) = next(s, head, DownloadEvent::Data, read, now);
            let (u, after) = next(t, head, DownloadEvent::Written, 0, later);
            let came = head.len() - start;
            &&& t.body_start == start
            &&& t.received == came
            &&& t.content_length is Some <==> len is Some
            &&& len is Some ==> t.content_length->0 == len->0
            &&& came > 0 ==> step.action == DownloadAction::WritePrefix && (if len is Some && came
                >= len->0 {
                after.action == DownloadAction::Finish
            } else {
                after.action == DownloadAction::Read && u.phase == DownloadPhase::Body
                    && u.received == came && u.content_length == t.content_length && u.pending
                    == t.pending
            })
            &&& came == 0 ==> step.action == (if len == Some(0nat) {
                DownloadAction::Finish
            } else {
                DownloadAction::Read
            })
        }),
{
}

/// Between the first and the last report, progress is published no more often
/// than every tenth of a second, and then it is what has been received.
pub proof fn law_progress_is_published_sparingly(s: DownloadState, now: u64)
    requires
        s.phase == DownloadPhase::Writing,
    ensures
        ({
            let (t, step) = next(s, Seq::empty(), DownloadEvent::Written, 0, now);
            step.action == DownloadAction::Read ==> {
                &&& step.publish is Some <==> now >= s.last_progress_ms + 100
                &&& step.publish is Some ==> t.last_progress_ms == now && (step.publish->0).received
                    == t.received
                &&& step.publish is None ==> t.last_progress_ms == s.last_progress_ms
            }
        }),
{
}

/// Whatever goes wrong ends the download, and is told apart: a failed connect,
/// a failed send or read, a close before the head was complete, a head that
/// exceeds its limit, and a refusal by the writer.
pub proof fn law_failures_end_the_download(
    s: DownloadState,
    head: Seq<u8>,
    e: DownloadEvent,
    read: int,
    now: u64,
    o: OtaError,
)
    requires
        expects(s.phase, e),
    ensures
        ({
            let (t, step) = next(s, head, e, read, now);
            &&& e == DownloadEvent::ConnectFailed ==> step.action == DownloadAction::Fail(
                HttpError::ConnectFailed,
            )
            &&& e == DownloadEvent::ConnectTimedOut ==> step.action
                == DownloadAction::AbortAndFail(HttpError::ConnectFailed)
            &&& e == DownloadEvent::SendFailed || e == DownloadEvent::ReadFailed ==> step.action
                == DownloadAction::Fail(HttpError::Io)
            &&& e == DownloadEvent::Closed && s.phase == DownloadPhase::Head ==> step.action
                == DownloadAction::Fail(HttpError::Truncated)
            &&& e == DownloadEvent::Data && s.phase == DownloadPhase::Head && head.len() > 4096
                ==> step.action == DownloadAction::Fail(HttpError::HeadersTooLarge)
            &&& e == DownloadEvent::WriteFailed(o) ==> step.action == DownloadAction::Fail(
                HttpError::Writer(o),
            )
            &&& e == DownloadEvent::Connected ==> step.action == DownloadAction::Send
            &&& e == DownloadEvent::Sent ==> step.action == DownloadAction::Read
            &&& step.action is Fail || step.action is AbortAndFail ==> t.phase
                == DownloadPhase::Over && step.publish is None
        }),
{
}

/// The request is well-formed: five header lines and a blank line. It asks for
/// the path, names the host and its port, and wants the connection closed
/// behind the answer.
pub proof fn law_request_asks_for_its_path(path: Seq<char>, ip: Seq<u8>, port: u16)
    requires
        ip.len() == 4,
    ensures
        request_text(path, ip, port) == strings::joined_by(
            seq![
                "GET "@ + path + " HTTP/1.0"@,
                "Host: "@ + strings::joined_by(
                    Seq::new(4, |i: int| strings::decimal(ip[i] as nat)),
                    seq!['.'],
                ) + ":"@ + strings::decimal(port as nat),
                "User-Agent: esp-radio-ota/1.0"@,
                "Connection: close"@,
                "Accept: */*"@,
            ],
            seq!['\r', '\n'],
        ) + seq!['\r', '\n', '\r', '\n'],
{
    reveal_strlit(" HTTP/1.0\r\nHost: ");
    reveal_strlit("\r\nUser-Agent: esp-radio-ota/1.0\r\nConnection: close\r\nAccept: */*\r\n\r\n");
    reveal_strlit(" HTTP/1.0");
    reveal_strlit("Host: ");
    reveal_strlit("User-Agent: esp-radio-ota/1.0");
    reveal_strlit("Connection: close");
    reveal_strlit("Accept: */*");
    reveal_strlit(".");
    let sep = seq!['\r', '\n'];
    let parts = Seq::new(4, |i: int| strings::decimal(ip[i] as nat));
    lemma_dotted_is_joined(ip);
    let host = strings::joined_by(parts, seq!['.']);
    let a = "GET "@ + path + " HTTP/1.0"@;
    let b = "Host: "@ + host + ":"@ + strings::decimal(port as nat);
    let c = "User-Agent: esp-radio-ota/1.0"@;
    let d = "Connection: close"@;
    let e = "Accept: */*"@;
    let lines = seq![a, b, c, d, e];
    assert(lines.skip(1) =~= seq![b, c, d, e]);
    assert(seq![b, c, d, e].skip(1) =~= seq![c, d, e]);
    assert(seq![c, d, e].skip(1) =~= seq![d, e]);
    assert(seq![d, e].skip(1) =~= seq![e]);
    assert(strings::joined_by(seq![e], sep) == e);
    assert(strings::joined_by(seq![d, e], sep) == d + sep + e);
    assert(strings::joined_by(seq![c, d, e], sep) == c + sep + (d + sep + e));
    assert(strings::joined_by(seq![b, c, d, e], sep) == b + sep + (c + sep + (d + sep + e)));
    assert(strings::joined_by(lines, sep) == a + sep + (b + sep + (c + sep + (d + sep + e))));
    let tail = "\r\nUser-Agent: esp-radio-ota/1.0\r\nConnection: close\r\nAccept: */*\r\n\r\n"@;
    assert(tail =~= sep + c + sep + d + sep + e + sep + sep);
    assert(" HTTP/1.0\r\nHost: "@ =~= " HTTP/1.0"@ + sep + "Host: "@);
    assert(request_text(path, ip, port) =~= strings::joined_by(lines, sep) + seq![
        '\r',
        '\n',
        '\r',
        '\n',
    ]);
}

proof fn lemma_dotted_is_joined(ip: Seq<u8>)
    requires
        ip.len() == 4,
    ensures
        dotted(ip) == strings::joined_by(
            Seq::new(4, |i: int| strings::decimal(ip[i] as nat)),
            seq!['.'],
        ),
{
    reveal_strlit(".");
    let p = Seq::new(4, |i: int| strings::decimal(ip[i] as nat));
    let dot = seq!['.'];
    assert("."@ =~= dot);
    let q = p.skip(1);
    let r = q.skip(1);
    let s = r.skip(1);
    assert(q[0] == p[1] && r[0] == p[2] && s[0] == p[3]);
    assert(strings::joined_by(s, dot) == p[3]);
    assert(strings::joined_by(r, dot) == p[2] + dot + p[3]);
    assert(strings::joined_by(q, dot) == p[1] + dot + (p[2] + dot + p[3]));
    assert(strings::joined_by(p, dot) == p[0] + dot + (p[1] + dot + (p[2] + dot + p[3])));
    assert(dotted(ip) =~= strings::joined_by(p, dot));
}

} // verus!
