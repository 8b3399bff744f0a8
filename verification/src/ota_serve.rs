//! Development server that hands out one firmware image: its arguments, what
//! it answers, and the addresses that it prints.

use qrcode::render::unicode::Dense1x2;
use qrcode::types::QrError;
use qrcode::QrCode;
use vstd::prelude::*;
use vstd::utf8::*;

use crate::ota::http_download;
use crate::ota::http_download::push_dotted;
use crate::strings;
use crate::strings::{chars_of, push_decimal, push_text, str_eq};
use crate::url_parser;

verus! {

/// Port where none is given.
pub const DEFAULT_PORT: u16 = 8000;

/// Image where none is given.
pub const DEFAULT_IMAGE: &'static str = "target/riscv32imac-unknown-none-elf/release/radio.bin";

/// Path under which the image is served.
pub const FIRMWARE_PATH: &'static str = "/firmware.bin";

/// Most bytes that are drawn as a QR code.
pub const MAX_QR_LEN: usize = 256;

// ---------------------------------------------------------------------------
// Arguments
// ---------------------------------------------------------------------------

/// Why a text is no port.
#[derive(Clone, Copy, Debug, PartialEq, Eq, Structural)]
pub enum PortError {
    Empty,
    InvalidDigit,
    TooLarge,
}

/// Why the arguments are refused.
#[derive(Clone, Debug)]
pub enum ArgError {
    ImageWithoutPath,
    PortWithoutValue,
    InvalidPort(PortError),
    BindWithoutIp,
    InvalidBind,
    Unknown(String),
}

/// The arguments.
#[derive(Clone, Debug)]
pub struct Args {
    pub image: String,
    pub port: u16,
    /// Address to listen on, as it was given; `None` for all.
    pub bind: Option<String>,
}

/// What the command line asks for.
#[derive(Clone, Debug)]
pub enum ArgsOutcome {
    Help,
    Serve(Args),
    Refused(ArgError),
}

/// What an argument means.
pub enum Flag {
    Help,
    Image,
    Port,
    Bind,
    Unknown,
}

/// What an argument means.
pub open spec fn flag_of(arg: Seq<char>) -> Flag {
    if arg == "-h"@ || arg == "--help"@ {
        Flag::Help
    } else if arg == "--image"@ || arg == "-i"@ {
        Flag::Image
    } else if arg == "--port"@ || arg == "-p"@ {
        Flag::Port
    } else if arg == "--bind"@ || arg == "-b"@ {
        Flag::Bind
    } else {
        Flag::Unknown
    }
}

/// The first thing that is wrong with the digits `d` from index `i` on, when
/// those before denote `value`.
pub open spec fn digits_error(d: Seq<char>, i: int, value: nat) -> Result<nat, PortError>
    decreases d.len() - i,
{
    if i < 0 || i >= d.len() {
        Ok(value)
    } else if !strings::is_digit(d[i]) {
        Err(PortError::InvalidDigit)
    } else if value * 10 + (d[i] as u32 - 48) > 65535 {
        Err(PortError::TooLarge)
    } else {
        digits_error(d, i + 1, (value * 10 + (d[i] as u32 - 48)) as nat)
    }
}

/// The port that a text denotes: an optional `+` and at least one digit.
pub open spec fn port_in(s: Seq<char>) -> Result<nat, PortError> {
    if s.len() == 0 {
        Err(PortError::Empty)
    } else if s.len() == 1 && s[0] == '+' {
        Err(PortError::InvalidDigit)
    } else if s[0] == '+' {
        digits_error(s, 1, 0)
    } else {
        digits_error(s, 0, 0)
    }
}

/// Parses a port.
pub fn parse_port(s: &str) -> (r: Result<u16, PortError>)
    ensures
        match r {
            Ok(p) => port_in(s@) == Ok::<nat, PortError>(p as nat),
            Err(e) => port_in(s@) == Err::<nat, PortError>(e),
        },
{
    let c: Vec<char> = chars_of(s);
    if c.len() == 0 {
        return Err(PortError::Empty);
    }
    if c.len() == 1 && c[0] == '+' {
        return Err(PortError::InvalidDigit);
    }
    let mut i: usize = if c[0] == '+' {
        1
    } else {
        0
    };
    let mut value: u32 = 0;
    while i < c.len()
        invariant
            c@ == s@,
            i <= c@.len(),
            value <= 65535,
            port_in(s@) == digits_error(s@, i as int, value as nat),
        decreases c@.len() - i,
    {
        let code: u32 = c[i] as u32;
        if code < 48 || code > 57 {
            return Err(PortError::InvalidDigit);
        }
        let next: u32 = value * 10 + (code - 48);
        if next > 65535 {
            return Err(PortError::TooLarge);
        }
        value = next;
        i = i + 1;
    }
    Ok(value as u16)
}

/// What was read of the arguments so far.
pub struct ArgsView {
    pub image: Option<Seq<char>>,
    pub port: u16,
    pub bind: Option<Seq<char>>,
}

/// What the arguments from index `i` on add to `seen`, or why they are refused
/// (`Err(None)` asks for help). `is_ip[k]` says whether argument `k` is the
/// text of an IP address.
pub open spec fn args_from(
    args: Seq<Seq<char>>,
    is_ip: Seq<bool>,
    i: int,
    seen: ArgsView,
) -> Result<ArgsView, Option<ArgErrorView>>
    decreases args.len() - i,
{
    if i < 0 || i >= args.len() {
        Ok(seen)
    } else {
        match flag_of(args[i]) {
            Flag::Help => Err(None),
            Flag::Image => if i + 1 >= args.len() {
                Err(Some(ArgErrorView::ImageWithoutPath))
            } else {
                args_from(args, is_ip, i + 2, ArgsView { image: Some(args[i + 1]), ..seen })
            },
            Flag::Port => if i + 1 >= args.len() {
                Err(Some(ArgErrorView::PortWithoutValue))
            } else {
                match port_in(args[i + 1]) {
                    Ok(p) => args_from(args, is_ip, i + 2, ArgsView { port: p as u16, ..seen }),
                    Err(e) => Err(Some(ArgErrorView::InvalidPort(e))),
                }
            },
            Flag::Bind => if i + 1 >= args.len() {
                Err(Some(ArgErrorView::BindWithoutIp))
            } else if !is_ip[i + 1] {
                Err(Some(ArgErrorView::InvalidBind))
            } else {
                args_from(args, is_ip, i + 2, ArgsView { bind: Some(args[i + 1]), ..seen })
            },
            Flag::Unknown => Err(Some(ArgErrorView::Unknown(args[i]))),
        }
    }
}

/// An [`ArgError`], with the text behind it.
pub enum ArgErrorView {
    ImageWithoutPath,
    PortWithoutValue,
    InvalidPort(PortError),
    BindWithoutIp,
    InvalidBind,
    Unknown(Seq<char>),
}

impl View for ArgError {
    type V = ArgErrorView;

    open spec fn view(&self) -> ArgErrorView {
        match *self {
            ArgError::ImageWithoutPath => ArgErrorView::ImageWithoutPath,
            ArgError::PortWithoutValue => ArgErrorView::PortWithoutValue,
            ArgError::InvalidPort(e) => ArgErrorView::InvalidPort(e),
            ArgError::BindWithoutIp => ArgErrorView::BindWithoutIp,
            ArgError::InvalidBind => ArgErrorView::InvalidBind,
            ArgError::Unknown(s) => ArgErrorView::Unknown(s@),
        }
    }
}

/// The texts of the arguments.
pub open spec fn texts(args: Seq<String>) -> Seq<Seq<char>> {
    Seq::new(args.len(), |i: int| args[i]@)
}

/// What is known before any argument was read.
pub open spec fn no_args() -> ArgsView {
    ArgsView { image: None, port: DEFAULT_PORT, bind: None }
}

fn read_flag(arg: &str) -> (r: Flag)
    ensures
        r == flag_of(arg@),
{
    if str_eq(arg, "-h") || str_eq(arg, "--help") {
        Flag::Help
    } else if str_eq(arg, "--image") || str_eq(arg, "-i") {
        Flag::Image
    } else if str_eq(arg, "--port") || str_eq(arg, "-p") {
        Flag::Port
    } else if str_eq(arg, "--bind") || str_eq(arg, "-b") {
        Flag::Bind
    } else {
        Flag::Unknown
    }
}

fn opt_string(o: &Option<String>, none: &str) -> (r: String)
    ensures
        r@ == (match *o {
            Some(s) => s@,
            None => none@,
        }),
{
    match o {
        Some(s) => s.clone(),
        None => none.to_owned(),
    }
}

impl Args {
    /// Reads the arguments, from left to right. `is_ip[k]` says whether
    /// argument `k` is the text of an IP address.
    pub fn parse(args: &[String], is_ip: &[bool]) -> (r: ArgsOutcome)
        requires
            is_ip@.len() == args@.len(),
        ensures
            match r {
                ArgsOutcome::Help => args_from(texts(args@), is_ip@, 0, no_args()) == Err::<
                    ArgsView,
                    Option<ArgErrorView>,
                >(None),
                ArgsOutcome::Refused(e) => args_from(texts(args@), is_ip@, 0, no_args()) == Err::<
                    ArgsView,
                    Option<ArgErrorView>,
                >(Some(e@)),
                ArgsOutcome::Serve(a) => args_from(texts(args@), is_ip@, 0, no_args()) matches Ok(
                    v,
                ) && {
                    &&& a.image@ == (match v.image {
                        Some(s) => s,
                        None => DEFAULT_IMAGE@,
                    })
                    &&& a.port == v.port
                    &&& match (a.bind, v.bind) {
                        (Some(x), Some(y)) => x@ == y,
                        (None, None) => true,
                        _ => false,
                    }
                },
            },
    {
        let ghost all = texts(args@);
        let mut image: Option<String> = None;
        let mut port: u16 = DEFAULT_PORT;
        let mut bind: Option<String> = None;
        let mut i: usize = 0;
        let ghost mut seen: ArgsView = no_args();
        while i < args.len()
            invariant
                i <= args@.len(),
                is_ip@.len() == args@.len(),
                all == texts(args@),
                seen.port == port,
                match (image, seen.image) {
                    (Some(x), Some(y)) => x@ == y,
                    (None, None) => true,
                    _ => false,
                },
                match (bind, seen.bind) {
                    (Some(x), Some(y)) => x@ == y,
                    (None, None) => true,
                    _ => false,
                },
                args_from(all, is_ip@, 0, no_args()) == args_from(all, is_ip@, i as int, seen),
            decreases args@.len() - i,
        {
            assert(all[i as int] == args@[i as int]@);
            match read_flag(args[i].as_str()) {
                Flag::Help => {
                    return ArgsOutcome::Help;
                },
                Flag::Image => {
                    if args.len() - i < 2 {
                        return ArgsOutcome::Refused(ArgError::ImageWithoutPath);
                    }
                    image = Some(args[i + 1].clone());
                    proof {
                        seen = ArgsView { image: Some(all[i + 1]), ..seen };
                    }
                },
                Flag::Port => {
                    if args.len() - i < 2 {
                        return ArgsOutcome::Refused(ArgError::PortWithoutValue);
                    }
                    match parse_port(args[i + 1].as_str()) {
                        Ok(p) => {
                            port = p;
                            proof {
                                seen = ArgsView { port: p, ..seen };
                            }
                        },
                        Err(e) => {
                            return ArgsOutcome::Refused(ArgError::InvalidPort(e));
                        },
                    }
                },
                Flag::Bind => {
                    if args.len() - i < 2 {
                        return ArgsOutcome::Refused(ArgError::BindWithoutIp);
                    }
                    if !is_ip[i + 1] {
                        return ArgsOutcome::Refused(ArgError::InvalidBind);
                    }
                    bind = Some(args[i + 1].clone());
                    proof {
                        seen = ArgsView { bind: Some(all[i + 1]), ..seen };
                    }
                },
                Flag::Unknown => {
                    return ArgsOutcome::Refused(ArgError::Unknown(args[i].clone()));
                },
            }
            i = i + 2;
        }
        ArgsOutcome::Serve(Args { image: opt_string(&image, DEFAULT_IMAGE), port, bind })
    }
}

impl ArgErrorView {
    /// The error in words.
    pub open spec fn text(self) -> Seq<char> {
        match self {
            ArgErrorView::ImageWithoutPath => "--image requires a path"@,
            ArgErrorView::PortWithoutValue => "--port requires a value"@,
            ArgErrorView::InvalidPort(
                PortError::Empty,
            ) => "invalid --port: cannot parse integer from empty string"@,
            ArgErrorView::InvalidPort(
                PortError::InvalidDigit,
            ) => "invalid --port: invalid digit found in string"@,
            ArgErrorView::InvalidPort(
                PortError::TooLarge,
            ) => "invalid --port: number too large to fit in target type"@,
            ArgErrorView::BindWithoutIp => "--bind requires an IP"@,
            ArgErrorView::InvalidBind => "invalid --bind: invalid IP address syntax"@,
            ArgErrorView::Unknown(arg) => "unknown argument: "@ + arg,
        }
    }
}

impl ArgError {
    /// The error in words.
    pub fn message(&self) -> (r: String)
        ensures
            r@ == self@.text(),
    {
        match self {
            ArgError::ImageWithoutPath => "--image requires a path".to_owned(),
            ArgError::PortWithoutValue => "--port requires a value".to_owned(),
            ArgError::InvalidPort(
                PortError::Empty,
            ) => "invalid --port: cannot parse integer from empty string".to_owned(),
            ArgError::InvalidPort(
                PortError::InvalidDigit,
            ) => "invalid --port: invalid digit found in string".to_owned(),
            ArgError::InvalidPort(
                PortError::TooLarge,
            ) => "invalid --port: number too large to fit in target type".to_owned(),
            ArgError::BindWithoutIp => "--bind requires an IP".to_owned(),
            ArgError::InvalidBind => "invalid --bind: invalid IP address syntax".to_owned(),
            ArgError::Unknown(arg) => {
                let mut s: String = "unknown argument: ".to_owned();
                push_text(&mut s, arg.as_str());
                s
            },
        }
    }
}

// ---------------------------------------------------------------------------
// Requests
// ---------------------------------------------------------------------------

/// Method of a request.
#[derive(Clone, Copy, Debug, PartialEq, Eq, Structural)]
pub enum ServeMethod {
    Get,
    Head,
    Other,
}

/// What a request is answered.
#[derive(Clone, Copy, Debug, PartialEq, Eq, Structural)]
pub enum ServeAnswer {
    /// The image.
    Firmware,
    /// The image's type and length, without the image.
    FirmwareHead,
    Index,
    NotFound,
}

/// What a request is answered.
pub open spec fn answer_to(method: ServeMethod, url: Seq<char>) -> ServeAnswer {
    match method {
        ServeMethod::Get => if url == FIRMWARE_PATH@ {
            ServeAnswer::Firmware
        } else if url == "/"@ {
            ServeAnswer::Index
        } else {
            ServeAnswer::NotFound
        },
        ServeMethod::Head => if url == FIRMWARE_PATH@ {
            ServeAnswer::FirmwareHead
        } else {
            ServeAnswer::NotFound
        },
        ServeMethod::Other => ServeAnswer::NotFound,
    }
}

/// Decides what a request is answered.
pub fn handle(method: ServeMethod, url: &str) -> (r: ServeAnswer)
    ensures
        r == answer_to(method, url@),
{
    match method {
        ServeMethod::Get => {
            proof {
                reveal_strlit("/firmware.bin");
                reveal_strlit("/");
            }
            if str_eq(url, FIRMWARE_PATH) {
                ServeAnswer::Firmware
            } else if str_eq(url, "/") {
                ServeAnswer::Index
            } else {
                ServeAnswer::NotFound
            }
        },
        ServeMethod::Head => if str_eq(url, FIRMWARE_PATH) {
            ServeAnswer::FirmwareHead
        } else {
            ServeAnswer::NotFound
        },
        ServeMethod::Other => ServeAnswer::NotFound,
    }
}

/// Status code of an answer.
pub fn answer_status(answer: ServeAnswer) -> (r: u16)
    ensures
        r == (if answer == ServeAnswer::NotFound { 404u16 } else { 200 }),
{
    match answer {
        ServeAnswer::NotFound => 404,
        _ => 200,
    }
}

/// The start page.
pub open spec fn index_shown() -> Seq<char> {
    "esp-radio OTA dev server\n\nGET "@ + FIRMWARE_PATH@
        + " → firmware image\n\nPaste the printed URL into the device's web console.\n"@
}

/// The start page.
pub fn index_body() -> (r: String)
    ensures
        r@ == index_shown(),
{
    let mut s: String = "esp-radio OTA dev server\n\nGET ".to_owned();
    push_text(&mut s, FIRMWARE_PATH);
    push_text(
        &mut s,
        " → firmware image\n\nPaste the printed URL into the device's web console.\n",
    );
    s
}

/// The page for anything else.
pub open spec fn not_found_shown() -> Seq<char> {
    "404 — only GET "@ + FIRMWARE_PATH@ + " is served\n"@
}

/// The page for anything else.
pub fn not_found_body() -> (r: String)
    ensures
        r@ == not_found_shown(),
{
    let mut s: String = "404 — only GET ".to_owned();
    push_text(&mut s, FIRMWARE_PATH);
    push_text(&mut s, " is served\n");
    s
}

// ---------------------------------------------------------------------------
// Addresses
// ---------------------------------------------------------------------------

/// A network interface.
#[derive(Clone, Debug)]
pub struct Interface {
    pub name: String,
    /// Its address, `None` where that is not an IPv4 address.
    pub ipv4: Option<[u8; 4]>,
}

/// Whether the device can reach an address: no loopback, no link-local and no
/// unspecified one.
pub open spec fn reachable(ip: Seq<u8>) -> bool {
    !(ip[0] == 127) && !(ip[0] == 169 && ip[1] == 254) && !(ip[0] == 0 && ip[1] == 0 && ip[2] == 0
        && ip[3] == 0)
}

/// Where the device finds the image.
pub open spec fn firmware_url(ip: Seq<u8>, port: u16) -> Seq<char> {
    "http://"@ + http_download::dotted(ip) + ":"@ + strings::decimal(port as nat) + FIRMWARE_PATH@
}

/// The line that is printed for an interface.
pub open spec fn url_line(ip: Seq<u8>, port: u16, name: Seq<char>) -> Seq<char> {
    "  "@ + firmware_url(ip, port) + "  ("@ + name + ")"@
}

/// The lines for the first `n` interfaces.
pub open spec fn url_lines(list: Seq<Interface>, port: u16, n: int) -> Seq<Seq<char>>
    decreases n,
{
    if n <= 0 {
        Seq::empty()
    } else {
        let before = url_lines(list, port, n - 1);
        match list[n - 1].ipv4 {
            Some(ip) => if reachable(ip@) {
                before.push(url_line(ip@, port, list[n - 1].name@))
            } else {
                before
            },
            None => before,
        }
    }
}

/// The URL of the first interface of the first `n` that the device can reach.
pub open spec fn first_url(list: Seq<Interface>, port: u16, n: int) -> Option<Seq<char>>
    decreases n,
{
    if n <= 0 {
        None
    } else {
        match (first_url(list, port, n - 1), list[n - 1].ipv4) {
            (Some(u), _) => Some(u),
            (None, Some(ip)) => if reachable(ip@) {
                Some(firmware_url(ip@, port))
            } else {
                None
            },
            (None, None) => None,
        }
    }
}

fn make_url(ip: [u8; 4], port: u16) -> (r: String)
    ensures
        r@ == firmware_url(ip@, port),
{
    let mut s: String = "http://".to_owned();
    push_dotted(&mut s, ip);
    push_text(&mut s, ":");
    push_decimal(&mut s, port as u64);
    push_text(&mut s, FIRMWARE_PATH);
    s
}

proof fn lemma_ascii_add(a: Seq<char>, b: Seq<char>)
    requires
        is_ascii_chars(a),
        is_ascii_chars(b),
    ensures
        is_ascii_chars(a + b),
{
}

proof fn lemma_url_is_short(ip: Seq<u8>, port: u16)
    requires
        ip.len() == 4,
    ensures
        encode_utf8(firmware_url(ip, port)).len() <= MAX_QR_LEN,
{
    reveal_strlit("http://");
    reveal_strlit(":");
    reveal_strlit(".");
    reveal_strlit("/firmware.bin");
    let d = strings::decimal(ip[0] as nat);
    let p = strings::decimal(port as nat);
    strings::lemma_decimal_ascii(ip[0] as nat);
    strings::lemma_decimal_ascii(ip[1] as nat);
    strings::lemma_decimal_ascii(ip[2] as nat);
    strings::lemma_decimal_ascii(ip[3] as nat);
    strings::lemma_decimal_ascii(port as nat);
    lemma_ascii_add(d, "."@);
    let d1 = d + "."@ + strings::decimal(ip[1] as nat);
    lemma_ascii_add(d + "."@, strings::decimal(ip[1] as nat));
    lemma_ascii_add(d1, "."@);
    let d2 = d1 + "."@ + strings::decimal(ip[2] as nat);
    lemma_ascii_add(d1 + "."@, strings::decimal(ip[2] as nat));
    lemma_ascii_add(d2, "."@);
    lemma_ascii_add(d2 + "."@, strings::decimal(ip[3] as nat));
    let dotted = http_download::dotted(ip);
    assert(is_ascii_chars(dotted));
    lemma_ascii_add("http://"@, dotted);
    lemma_ascii_add("http://"@ + dotted, ":"@);
    lemma_ascii_add("http://"@ + dotted + ":"@, p);
    lemma_ascii_add("http://"@ + dotted + ":"@ + p, FIRMWARE_PATH@);
    is_ascii_chars_encode_utf8(firmware_url(ip, port));
}

/// What is printed of the addresses.
pub struct LanUrls {
    /// One line for each address that the device can reach.
    pub lines: Vec<String>,
    /// The URL to show as a QR code.
    pub qr_target: Option<String>,
}

/// What is printed of the addresses of these interfaces.
pub fn lan_urls(list: &[Interface], port: u16) -> (r: LanUrls)
    ensures
        r.lines@.len() == url_lines(list@, port, list@.len() as int).len(),
        forall|i: int|
            0 <= i < r.lines@.len() ==> (#[trigger] r.lines@[i])@ == url_lines(
                list@,
                port,
                list@.len() as int,
            )[i],
        match r.qr_target {
            Some(u) => first_url(list@, port, list@.len() as int) == Some(u@),
            None => first_url(list@, port, list@.len() as int) is None,
        },
        r.qr_target is None <==> r.lines@.len() == 0,
        r.qr_target matches Some(u) ==> encode_utf8(u@).len() <= MAX_QR_LEN,
{
    let mut lines: Vec<String> = Vec::new();
    let mut qr_target: Option<String> = None;
    let mut i: usize = 0;
    while i < list.len()
        invariant
            i <= list@.len(),
            lines@.len() == url_lines(list@, port, i as int).len(),
            forall|k: int|
                0 <= k < lines@.len() ==> (#[trigger] lines@[k])@ == url_lines(
                    list@,
                    port,
                    i as int,
                )[k],
            match qr_target {
                Some(u) => first_url(list@, port, i as int) == Some(u@),
                None => first_url(list@, port, i as int) is None,
            },
            qr_target is None <==> lines@.len() == 0,
            qr_target matches Some(u) ==> encode_utf8(u@).len() <= MAX_QR_LEN,
        decreases list@.len() - i,
    {
        if let Some(ip) = list[i].ipv4 {
            let hidden: bool = ip[0] == 127 || (ip[0] == 169 && ip[1] == 254) || (ip[0] == 0
                && ip[1] == 0 && ip[2] == 0 && ip[3] == 0);
            if !hidden {
                let url: String = make_url(ip, port);
                proof {
                    lemma_url_is_short(ip@, port);
                }
                let mut line: String = "  ".to_owned();
                push_text(&mut line, url.as_str());
                push_text(&mut line, "  (");
                push_text(&mut line, list[i].name.as_str());
                push_text(&mut line, ")");
                lines.push(line);
                if qr_target.is_none() {
                    qr_target = Some(url);
                }
            }
        }
        i = i + 1;
    }
    LanUrls { lines, qr_target }
}

/// The example request that is printed.
pub open spec fn curl_shown(port: u16) -> Seq<char> {
    "Trigger from a shell:\n  curl -X POST http://esp-radio.local/api/ota \\\n      -H 'Content-Type: application/json' \\\n      -d '{\"url\":\"http://<your-ip>:"@
        + strings::decimal(port as nat) + FIRMWARE_PATH@ + "\"}'"@
}

/// The example request that is printed.
pub fn curl_hint(port: u16) -> (r: String)
    ensures
        r@ == curl_shown(port),
{
    let mut s: String =
        "Trigger from a shell:\n  curl -X POST http://esp-radio.local/api/ota \\\n      -H 'Content-Type: application/json' \\\n      -d '{\"url\":\"http://<your-ip>:".to_owned();
    push_decimal(&mut s, port as u64);
    push_text(&mut s, FIRMWARE_PATH);
    push_text(&mut s, "\"}'");
    s
}

proof fn lemma_no_separator(n: nat)
    ensures
        !strings::decimal(n).contains('.'),
        !strings::decimal(n).contains(':'),
        !strings::decimal(n).contains('/'),
{
    strings::lemma_decimal(n);
}

proof fn lemma_dotted_parses(ip: Seq<u8>)
    requires
        ip.len() == 4,
    ensures
        url_parser::ipv4_of(http_download::dotted(ip)) == Some(ip),
        !http_download::dotted(ip).contains(':'),
        !http_download::dotted(ip).contains('/'),
{
    reveal_strlit(".");
    assert("."@ =~= seq!['.']);
    let a = strings::decimal(ip[0] as nat);
    let b = strings::decimal(ip[1] as nat);
    let c = strings::decimal(ip[2] as nat);
    let d = strings::decimal(ip[3] as nat);
    lemma_no_separator(ip[0] as nat);
    lemma_no_separator(ip[1] as nat);
    lemma_no_separator(ip[2] as nat);
    lemma_no_separator(ip[3] as nat);
    strings::lemma_parse_decimal(ip[0] as nat, 255);
    strings::lemma_parse_decimal(ip[1] as nat, 255);
    strings::lemma_parse_decimal(ip[2] as nat, 255);
    strings::lemma_parse_decimal(ip[3] as nat, 255);
    let dot = seq!['.'];
    let cd = c + dot + d;
    let bcd = b + dot + cd;
    let all = http_download::dotted(ip);
    assert(all =~= a + dot + bcd);
    strings::lemma_split_first(a, '.', bcd);
    strings::lemma_split_first(b, '.', cd);
    strings::lemma_split_first(c, '.', d);
    strings::lemma_split_first(d, '.', d);
    let p = strings::split(all, dot);
    assert(p =~= seq![a, b, c, d]);
    assert(url_parser::ipv4_of(all)->0 =~= ip);
    assert forall|i: int| 0 <= i < all.len() implies #[trigger] all[i] != ':' && all[i] != '/' by {
        if i < a.len() {
            assert(a.contains(all[i]));
        } else if i > a.len() && i < a.len() + 1 + b.len() {
            assert(b[i - a.len() - 1] == all[i]);
            assert(b.contains(all[i]));
        } else if i > a.len() + 1 + b.len() && i < a.len() + 2 + b.len() + c.len() {
            assert(c[i - a.len() - b.len() - 2] == all[i]);
            assert(c.contains(all[i]));
        } else if i > a.len() + 2 + b.len() + c.len() {
            assert(d[i - a.len() - b.len() - c.len() - 3] == all[i]);
            assert(d.contains(all[i]));
        }
    }
}

/// The device understands the URL that is printed for an address: it fetches
/// the image's path from that address and port.
pub proof fn law_printed_url_reaches_the_server(ip: Seq<u8>, port: u16)
    requires
        ip.len() == 4,
    ensures
        url_parser::url_parts(firmware_url(ip, port)) == Some(
            (url_parser::UrlParts { ip, port: port as nat, path: FIRMWARE_PATH@ }),
        ),
{
    reveal_strlit("http://");
    reveal_strlit(":");
    reveal_strlit("/firmware.bin");
    let host = http_download::dotted(ip);
    let p = strings::decimal(port as nat);
    lemma_dotted_parses(ip);
    lemma_no_separator(port as nat);
    strings::lemma_parse_decimal(port as nat, 65535);
    strings::lemma_decimal(port as nat);
    let url = firmware_url(ip, port);
    let authority = host + seq![':'] + p;
    let rest = url.skip(7);
    let file = FIRMWARE_PATH@.skip(1);
    assert(rest =~= authority + seq!['/'] + file);
    assert(url.subrange(0, 7) =~= "http://"@);
    assert(!authority.contains('/')) by {
        assert forall|i: int| 0 <= i < authority.len() implies #[trigger] authority[i] != '/' by {
            if i < host.len() {
                assert(host.contains(authority[i]));
            } else if i > host.len() {
                assert(p[i - host.len() - 1] == authority[i]);
                assert(p.contains(authority[i]));
            }
        }
    }
    strings::lemma_find_behind(authority, '/', file);
    strings::lemma_find_behind(host, ':', p);
    assert(rest.take(authority.len() as int) =~= authority);
    assert(authority.take(host.len() as int) =~= host);
    assert(authority.skip((host.len() + 1) as int) =~= p);
    assert(rest.skip(authority.len() as int) =~= FIRMWARE_PATH@);
}

// ---------------------------------------------------------------------------
// QR code
// ---------------------------------------------------------------------------

/// The error type of the crate `qrcode`.
#[verifier::external_type_specification]
#[verifier::external_body]
pub struct ExQrError(QrError);

/// What the crate `qrcode` draws for `data` with two modules to a character,
/// light and dark exchanged and with a quiet zone; `None` where it cannot
/// encode `data`.
pub uninterp spec fn qr_drawing(data: Seq<u8>) -> Option<Seq<char>>;

/// `QrCode::new`, then `render` with `Dense1x2`: the drawing is a function of
/// the data alone, and there is none exactly where an error comes back. Which
/// error that is, is left unsaid. The crate counts bits in `usize`; data of a
/// few hundred bytes stays far below any overflow.
#[verifier::external_body]
fn draw_qr(data: &[u8]) -> (r: Result<String, QrError>)
    requires
        data@.len() <= MAX_QR_LEN,
    ensures
        match r {
            Ok(s) => qr_drawing(data@) == Some(s@),
            Err(_) => qr_drawing(data@) is None,
        },
{
    let code: QrCode = QrCode::new(data)?;
    Ok(code.render::<Dense1x2>()
        .dark_color(Dense1x2::Light)
        .light_color(Dense1x2::Dark)
        .quiet_zone(true)
        .build())
}

/// What is printed of a QR code: an empty line, then the drawing.
pub open spec fn qr_block_shown(drawing: Seq<char>) -> Seq<char> {
    seq!['\n'] + drawing
}

/// What is printed of a drawing.
pub fn qr_block(drawing: &str) -> (r: String)
    ensures
        r@ == qr_block_shown(drawing@),
{
    let mut s: String = String::new();
    s.push('\n');
    push_text(&mut s, drawing);
    assert(s@ =~= qr_block_shown(drawing@));
    s
}

/// The QR code of a URL, as it is printed.
pub fn render_qr(url: &str) -> (r: Result<String, QrError>)
    requires
        encode_utf8(url@).len() <= MAX_QR_LEN,
    ensures
        match r {
            Ok(s) => qr_drawing(encode_utf8(url@)) matches Some(d) && s@ == qr_block_shown(d),
            Err(_) => qr_drawing(encode_utf8(url@)) is None,
        },
{
    match draw_qr(url.as_bytes()) {
        Ok(d) => Ok(qr_block(d.as_str())),
        Err(e) => Err(e),
    }
}

/// The lines that are printed of the addresses: a heading, then each address
/// that the device can reach, or that there is none.
pub open spec fn lines_shown(list: Seq<Interface>, port: u16) -> Seq<Seq<char>> {
    let urls = url_lines(list, port, list.len() as int);
    seq!["\nReachable URLs:"@] + (if urls.len() == 0 {
        seq!["  (no non-loopback IPv4 found — check Wi-Fi/Ethernet)"@]
    } else {
        urls
    })
}

/// What is printed of the addresses, and the QR code of the first.
pub struct LanReport {
    pub lines: Vec<String>,
    /// The QR code, where there is an address.
    pub qr: Option<Result<String, QrError>>,
}

/// What is printed of the addresses of these interfaces, with the QR code of
/// the first that the device can reach.
pub fn print_lan_urls(list: &[Interface], port: u16) -> (r: LanReport)
    ensures
        r.lines@.len() == lines_shown(list@, port).len(),
        forall|i: int|
            0 <= i < r.lines@.len() ==> (#[trigger] r.lines@[i])@ == lines_shown(list@, port)[i],
        match (r.qr, first_url(list@, port, list@.len() as int)) {
            (Some(Ok(s)), Some(u)) => qr_drawing(encode_utf8(u)) matches Some(d) && s@
                == qr_block_shown(d),
            (Some(Err(_)), Some(u)) => qr_drawing(encode_utf8(u)) is None,
            (None, None) => true,
            _ => false,
        },
{
    let urls: LanUrls = lan_urls(list, port);
    let qr: Option<Result<String, QrError>> = match &urls.qr_target {
        Some(url) => Some(render_qr(url.as_str())),
        None => None,
    };
    let mut lines: Vec<String> = Vec::new();
    lines.push("\nReachable URLs:".to_owned());
    let mut found: Vec<String> = urls.lines;
    if found.len() == 0 {
        lines.push("  (no non-loopback IPv4 found — check Wi-Fi/Ethernet)".to_owned());
    } else {
        lines.append(&mut found);
    }
    LanReport { lines, qr }
}

/// The help text.
pub open spec fn help_shown() -> Seq<char> {
    "ota-serve — serve a single firmware image for esp-radio OTA\n\nUSAGE:\n    ota-serve [--image PATH] [--port N] [--bind IP]\n\nOPTIONS:\n    -i, --image PATH   Firmware .bin to serve (default: "@
        + DEFAULT_IMAGE@ + ")\n    -p, --port  N      TCP port (default: "@ + strings::decimal(
        DEFAULT_PORT as nat,
    )
        + ")\n    -b, --bind  IP     Listen address (default: 0.0.0.0)\n    -h, --help         Show this help and exit\n\nThe image is exposed under "@
        + FIRMWARE_PATH@
        + ". Paste the printed URL into\nthe esp-radio web console (`http://esp-radio.local/`) → OTA card.\n"@
}

/// The help text.
pub fn help_text() -> (r: String)
    ensures
        r@ == help_shown(),
{
    let mut s: String =
        "ota-serve — serve a single firmware image for esp-radio OTA\n\nUSAGE:\n    ota-serve [--image PATH] [--port N] [--bind IP]\n\nOPTIONS:\n    -i, --image PATH   Firmware .bin to serve (default: ".to_owned();
    push_text(&mut s, DEFAULT_IMAGE);
    push_text(&mut s, ")\n    -p, --port  N      TCP port (default: ");
    push_decimal(&mut s, DEFAULT_PORT as u64);
    push_text(
        &mut s,
        ")\n    -b, --bind  IP     Listen address (default: 0.0.0.0)\n    -h, --help         Show this help and exit\n\nThe image is exposed under ",
    );
    push_text(&mut s, FIRMWARE_PATH);
    push_text(
        &mut s,
        ". Paste the printed URL into\nthe esp-radio web console (`http://esp-radio.local/`) → OTA card.\n",
    );
    s
}

proof fn lemma_digits_read(d: Seq<char>, from: int, i: int)
    requires
        0 <= from <= i <= d.len(),
        forall|k: int| from <= k < d.len() ==> strings::is_digit(#[trigger] d[k]),
        strings::digits_value(d.skip(from)) <= 65535,
    ensures
        digits_error(d, i, strings::digits_value(d.skip(from).take(i - from))) == Ok::<
            nat,
            PortError,
        >(strings::digits_value(d.skip(from))),
    decreases d.len() - i,
{
    let t = d.skip(from);
    if i < d.len() {
        assert(strings::is_digit(d[i]));
        assert(t.take(i + 1 - from).drop_last() =~= t.take(i - from));
        assert(t.take(i + 1 - from).last() == d[i]);
        assert forall|k: int| 0 <= k < t.len() implies strings::is_digit(#[trigger] t[k]) by {
            assert(t[k] == d[k + from]);
        }
        strings::lemma_digits_value_prefix_le(t, i + 1 - from);
        lemma_digits_read(d, from, i + 1);
    } else {
        assert(t.take(i - from) =~= t);
    }
}

proof fn lemma_digits_too_large(d: Seq<char>, i: int)
    requires
        0 <= i <= d.len(),
        forall|k: int| 0 <= k < d.len() ==> strings::is_digit(#[trigger] d[k]),
        strings::digits_value(d) > 65535,
    ensures
        digits_error(d, i, strings::digits_value(d.take(i))) == Err::<nat, PortError>(
            PortError::TooLarge,
        ) || strings::digits_value(d.take(i)) > 65535,
    decreases d.len() - i,
{
    if i < d.len() {
        assert(strings::is_digit(d[i]));
        assert(d.take(i + 1).drop_last() =~= d.take(i));
        assert(d.take(i + 1).last() == d[i]);
        lemma_digits_too_large(d, i + 1);
    } else {
        assert(d.take(i) =~= d);
    }
}

/// A port is read as the number that it is written as, with or without a plus
/// sign; a number that does not fit a port is refused as too large, and no
/// number at all as empty.
pub proof fn law_port_is_read(n: nat)
    ensures
        n <= 65535 ==> port_in(strings::decimal(n)) == Ok::<nat, PortError>(n),
        n <= 65535 ==> port_in(seq!['+'] + strings::decimal(n)) == Ok::<nat, PortError>(n),
        n > 65535 ==> port_in(strings::decimal(n)) == Err::<nat, PortError>(PortError::TooLarge),
        port_in(Seq::empty()) == Err::<nat, PortError>(PortError::Empty),
{
    let d = strings::decimal(n);
    strings::lemma_decimal(n);
    assert(strings::is_digit(d[0]));
    let none = Seq::<char>::empty();
    assert(strings::digits_value(none) == 0);
    if n <= 65535 {
        assert(d.skip(0) =~= d);
        assert(d.skip(0).take(0) =~= none);
        lemma_digits_read(d, 0, 0);
        let p = seq!['+'] + d;
        assert(p.skip(1) =~= d);
        assert(p.skip(1).take(0) =~= none);
        assert forall|k: int| 1 <= k < p.len() implies strings::is_digit(#[trigger] p[k]) by {
            assert(p[k] == d[k - 1]);
        }
        lemma_digits_read(p, 1, 1);
    } else {
        assert(d.take(0) =~= none);
        lemma_digits_too_large(d, 0);
    }
}

/// A text with something else than digits before it grows too large is refused
/// for that.
pub proof fn law_port_is_digits(c: char, rest: Seq<char>)
    requires
        !strings::is_digit(c),
        c != '+',
    ensures
        port_in(seq![c] + rest) == Err::<nat, PortError>(PortError::InvalidDigit),
        port_in(seq!['+']) == Err::<nat, PortError>(PortError::InvalidDigit),
{
    let s = seq![c] + rest;
    assert(s[0] == c);
}

proof fn lemma_args_go_on(
    args: Seq<Seq<char>>,
    more: Seq<Seq<char>>,
    is_ip: Seq<bool>,
    ips: Seq<bool>,
    i: int,
    seen: ArgsView,
)
    requires
        0 <= i <= args.len(),
        is_ip.len() == args.len(),
        ips.len() == args.len() + more.len(),
        forall|k: int| 0 <= k < args.len() ==> #[trigger] ips[k] == is_ip[k],
        args_from(args, is_ip, i, seen) is Ok,
    ensures
        args_from(args + more, ips, i, seen) == args_from(
            args + more,
            ips,
            args.len() as int,
            args_from(args, is_ip, i, seen)->Ok_0,
        ),
    decreases args.len() - i,
{
    let all = args + more;
    if i < args.len() {
        assert(all[i] == args[i]);
        if i + 1 < args.len() {
            assert(all[i + 1] == args[i + 1]);
            assert(ips[i + 1] == is_ip[i + 1]);
            match flag_of(args[i]) {
                Flag::Image => {
                    lemma_args_go_on(
                        args,
                        more,
                        is_ip,
                        ips,
                        i + 2,
                        ArgsView { image: Some(args[i + 1]), ..seen },
                    );
                },
                Flag::Port => {
                    lemma_args_go_on(
                        args,
                        more,
                        is_ip,
                        ips,
                        i + 2,
                        ArgsView { port: port_in(args[i + 1])->Ok_0 as u16, ..seen },
                    );
                },
                Flag::Bind => {
                    lemma_args_go_on(
                        args,
                        more,
                        is_ip,
                        ips,
                        i + 2,
                        ArgsView { bind: Some(args[i + 1]), ..seen },
                    );
                },
                _ => {},
            }
        }
    }
}

/// Options stand in any order, and each adds its value: a further one behind any
/// arguments that were accepted replaces its own value and leaves the others. A
/// further argument that is no option is refused, and one that asks for help
/// gets it.
pub proof fn law_every_option_adds_its_value(
    args: Seq<Seq<char>>,
    is_ip: Seq<bool>,
    flag: Seq<char>,
    value: Seq<char>,
    n: nat,
    ip: bool,
)
    requires
        is_ip.len() == args.len(),
        args_from(args, is_ip, 0, no_args()) is Ok,
        n <= 65535,
    ensures
        ({
            let v = args_from(args, is_ip, 0, no_args())->Ok_0;
            let ips = is_ip + seq![false, ip];
            let with = args_from(args + seq![flag, value], ips, 0, no_args());
            let number = args_from(args + seq![flag, strings::decimal(n)], ips, 0, no_args());
            let alone = args_from(args + seq![flag], is_ip + seq![false], 0, no_args());
            let none = Option::<ArgErrorView>::None;
            &&& flag == "--port"@ || flag == "-p"@ ==> number == Ok::<
                ArgsView,
                Option<ArgErrorView>,
            >(ArgsView { port: n as u16, ..v })
            &&& flag == "--image"@ || flag == "-i"@ ==> with == Ok::<
                ArgsView,
                Option<ArgErrorView>,
            >(ArgsView { image: Some(value), ..v })
            &&& (flag == "--bind"@ || flag == "-b"@) && ip ==> with == Ok::<
                ArgsView,
                Option<ArgErrorView>,
            >(ArgsView { bind: Some(value), ..v })
            &&& (flag == "--bind"@ || flag == "-b"@) && !ip ==> with == Err::<
                ArgsView,
                Option<ArgErrorView>,
            >(Some(ArgErrorView::InvalidBind))
            &&& flag == "-h"@ || flag == "--help"@ ==> alone == Err::<
                ArgsView,
                Option<ArgErrorView>,
            >(none)
            &&& flag == "--port"@ || flag == "-p"@ ==> alone == Err::<
                ArgsView,
                Option<ArgErrorView>,
            >(Some(ArgErrorView::PortWithoutValue))
            &&& flag == "--image"@ || flag == "-i"@ ==> alone == Err::<
                ArgsView,
                Option<ArgErrorView>,
            >(Some(ArgErrorView::ImageWithoutPath))
            &&& flag == "--bind"@ || flag == "-b"@ ==> alone == Err::<
                ArgsView,
                Option<ArgErrorView>,
            >(Some(ArgErrorView::BindWithoutIp))
            &&& flag.len() == 0 ==> alone == Err::<ArgsView, Option<ArgErrorView>>(
                Some(ArgErrorView::Unknown(flag)),
            )
        }),
{
    lemma_flags(flag);
    law_port_is_read(n);
    lemma_with_option(args, is_ip, flag, value, ip);
    lemma_with_option(args, is_ip, flag, strings::decimal(n), ip);
    lemma_lone_option(args, is_ip, flag);
}

proof fn lemma_with_option(
    args: Seq<Seq<char>>,
    is_ip: Seq<bool>,
    flag: Seq<char>,
    value: Seq<char>,
    ip: bool,
)
    requires
        is_ip.len() == args.len(),
        args_from(args, is_ip, 0, no_args()) is Ok,
    ensures
        ({
            let v = args_from(args, is_ip, 0, no_args())->Ok_0;
            let r = args_from(args + seq![flag, value], is_ip + seq![false, ip], 0, no_args());
            &&& flag_of(flag) is Image ==> r == Ok::<ArgsView, Option<ArgErrorView>>(
                ArgsView { image: Some(value), ..v },
            )
            &&& flag_of(flag) is Port && port_in(value) is Ok ==> r == Ok::<
                ArgsView,
                Option<ArgErrorView>,
            >(ArgsView { port: port_in(value)->Ok_0 as u16, ..v })
            &&& flag_of(flag) is Bind && ip ==> r == Ok::<ArgsView, Option<ArgErrorView>>(
                ArgsView { bind: Some(value), ..v },
            )
            &&& flag_of(flag) is Bind && !ip ==> r == Err::<ArgsView, Option<ArgErrorView>>(
                Some(ArgErrorView::InvalidBind),
            )
        }),
{
    let m = args.len() as int;
    let more = seq![flag, value];
    let all = args + more;
    let ips = is_ip + seq![false, ip];
    lemma_args_go_on(args, more, is_ip, ips, 0, no_args());
    assert(all[m] == flag && all[m + 1] == value && ips[m + 1] == ip);
    let v = args_from(args, is_ip, 0, no_args())->Ok_0;
    let with_image = ArgsView { image: Some(value), ..v };
    let with_port = ArgsView { port: port_in(value)->Ok_0 as u16, ..v };
    let with_bind = ArgsView { bind: Some(value), ..v };
    lemma_end_of_args(all, ips, m + 2, with_image);
    lemma_end_of_args(all, ips, m + 2, with_port);
    lemma_end_of_args(all, ips, m + 2, with_bind);
    match flag_of(flag) {
        Flag::Image => {
            assert(args_from(all, ips, m, v) == args_from(all, ips, m + 2, with_image));
        },
        Flag::Port => {
            if port_in(value) is Ok {
                assert(args_from(all, ips, m, v) == args_from(all, ips, m + 2, with_port));
            }
        },
        Flag::Bind => {
            if ip {
                assert(args_from(all, ips, m, v) == args_from(all, ips, m + 2, with_bind));
            }
        },
        _ => {},
    }
}

proof fn lemma_lone_option(args: Seq<Seq<char>>, is_ip: Seq<bool>, flag: Seq<char>)
    requires
        is_ip.len() == args.len(),
        args_from(args, is_ip, 0, no_args()) is Ok,
    ensures
        ({
            let r = args_from(args + seq![flag], is_ip + seq![false], 0, no_args());
            r == Err::<ArgsView, Option<ArgErrorView>>(
                match flag_of(flag) {
                    Flag::Help => None,
                    Flag::Image => Some(ArgErrorView::ImageWithoutPath),
                    Flag::Port => Some(ArgErrorView::PortWithoutValue),
                    Flag::Bind => Some(ArgErrorView::BindWithoutIp),
                    Flag::Unknown => Some(ArgErrorView::Unknown(flag)),
                },
            )
        }),
{
    let all = args + seq![flag];
    lemma_args_go_on(args, seq![flag], is_ip, is_ip + seq![false], 0, no_args());
    assert(all[args.len() as int] == flag);
}

proof fn lemma_flags(flag: Seq<char>)
    ensures
        flag == "-h"@ || flag == "--help"@ ==> flag_of(flag) is Help,
        flag == "--image"@ || flag == "-i"@ ==> flag_of(flag) is Image,
        flag == "--port"@ || flag == "-p"@ ==> flag_of(flag) is Port,
        flag == "--bind"@ || flag == "-b"@ ==> flag_of(flag) is Bind,
        flag.len() == 0 ==> flag_of(flag) is Unknown,
{
    reveal_strlit("-h");
    reveal_strlit("--help");
    reveal_strlit("--image");
    reveal_strlit("-i");
    reveal_strlit("--port");
    reveal_strlit("-p");
    reveal_strlit("--bind");
    reveal_strlit("-b");
    assert("--help"@[2] == 'h' && "--port"@[2] == 'p' && "--bind"@[2] == 'b');
    assert("-h"@[1] == 'h' && "-i"@[1] == 'i' && "-p"@[1] == 'p' && "-b"@[1] == 'b');
    assert("--help"@.len() == 6 && "--image"@.len() == 7 && "--port"@.len() == 6 && "--bind"@.len()
        == 6);
    assert("-h"@.len() == 2 && "-i"@.len() == 2 && "-p"@.len() == 2 && "-b"@.len() == 2);
}

proof fn lemma_end_of_args(args: Seq<Seq<char>>, is_ip: Seq<bool>, i: int, seen: ArgsView)
    requires
        i >= args.len(),
    ensures
        args_from(args, is_ip, i, seen) == Ok::<ArgsView, Option<ArgErrorView>>(seen),
{
}

/// The URLs that are printed are those of the interfaces that the device can
/// reach: one line for each, and none for any other. The first of them is the
/// one that is offered.
pub proof fn law_reachable_interfaces_are_listed(list: Seq<Interface>, port: u16, n: int)
    requires
        0 <= n <= list.len(),
    ensures
        forall|i: int|
            0 <= i < n && (#[trigger] list[i]).ipv4 is Some && reachable((list[i].ipv4->0)@)
                ==> url_lines(list, port, n).contains(
                url_line((list[i].ipv4->0)@, port, list[i].name@),
            ),
        forall|k: int|
            0 <= k < url_lines(list, port, n).len() ==> exists|i: int|
                0 <= i < n && (#[trigger] list[i]).ipv4 is Some && reachable((list[i].ipv4->0)@)
                    && #[trigger] url_lines(list, port, n)[k] == url_line(
                    (list[i].ipv4->0)@,
                    port,
                    list[i].name@,
                ),
        url_lines(list, port, n).len() <= n,
        match first_url(list, port, n) {
            Some(u) => exists|i: int|
                0 <= i < n && (#[trigger] list[i]).ipv4 is Some && reachable((list[i].ipv4->0)@) && u
                    == firmware_url((list[i].ipv4->0)@, port) && forall|j: int|
                    0 <= j < i ==> !((#[trigger] list[j]).ipv4 is Some && reachable(
                        (list[j].ipv4->0)@,
                    )),
            None => forall|j: int|
                0 <= j < n ==> !((#[trigger] list[j]).ipv4 is Some && reachable((list[j].ipv4->0)@)),
        },
    decreases n,
{
    if n > 0 {
        law_reachable_interfaces_are_listed(list, port, n - 1);
        let before = url_lines(list, port, n - 1);
        let lines = url_lines(list, port, n);
        assert forall|i: int|
            0 <= i < n && (#[trigger] list[i]).ipv4 is Some && reachable(
                (list[i].ipv4->0)@,
            ) implies lines.contains(url_line((list[i].ipv4->0)@, port, list[i].name@)) by {
            let line = url_line((list[i].ipv4->0)@, port, list[i].name@);
            if i < n - 1 {
                assert(before.contains(line));
                let k = choose|k: int| 0 <= k < before.len() && before[k] == line;
                assert(lines[k] == line);
            } else {
                assert(lines[lines.len() - 1] == line);
            }
        }
        assert forall|k: int| 0 <= k < lines.len() implies exists|i: int|
            0 <= i < n && (#[trigger] list[i]).ipv4 is Some && reachable((list[i].ipv4->0)@)
                && #[trigger] lines[k] == url_line((list[i].ipv4->0)@, port, list[i].name@) by {
            if k < before.len() {
                let i = choose|i: int|
                    0 <= i < n - 1 && (#[trigger] list[i]).ipv4 is Some && reachable(
                        (list[i].ipv4->0)@,
                    ) && before[k] == url_line((list[i].ipv4->0)@, port, list[i].name@);
                assert(before[k] == lines[k]);
                assert(list[i].ipv4 is Some);
            } else {
                assert(list[n - 1].ipv4 is Some);
            }
        }
    }
}

/// An address can be reached unless it is a loopback, a link-local or the
/// unspecified one.
pub proof fn law_special_addresses_are_not_reachable(ip: Seq<u8>)
    requires
        ip.len() == 4,
    ensures
        ip[0] == 127 ==> !reachable(ip),
        ip[0] == 169 && ip[1] == 254 ==> !reachable(ip),
        ip[0] == 0 && ip[1] == 0 && ip[2] == 0 && ip[3] == 0 ==> !reachable(ip),
        ip[0] != 127 && ip[0] != 169 && ip[0] != 0 ==> reachable(ip),
        ip[0] == 169 && ip[1] != 254 ==> reachable(ip),
        ip[0] == 0 && ip[3] != 0 ==> reachable(ip),
{
}

/// The image is served under its path and nowhere else, and only its head to who
/// asks for that; the front page explains, and everything else is not found.
pub proof fn law_image_is_served_under_its_path(url: Seq<char>)
    ensures
        answer_to(ServeMethod::Get, "/firmware.bin"@) == ServeAnswer::Firmware,
        answer_to(ServeMethod::Head, "/firmware.bin"@) == ServeAnswer::FirmwareHead,
        answer_to(ServeMethod::Get, "/"@) == ServeAnswer::Index,
        url != "/firmware.bin"@ && url != "/"@ ==> answer_to(ServeMethod::Get, url)
            == ServeAnswer::NotFound,
        url != "/firmware.bin"@ ==> answer_to(ServeMethod::Head, url) == ServeAnswer::NotFound,
        answer_to(ServeMethod::Other, url) == ServeAnswer::NotFound,
{
    reveal_strlit("/firmware.bin");
    reveal_strlit("/");
    assert("/firmware.bin"@.len() != "/"@.len());
}

} // verus!
