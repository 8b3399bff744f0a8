use radio::ota_serve::{
    answer_status, curl_hint, handle, help_text, index_body, lan_urls, not_found_body, parse_port,
    print_lan_urls, qr_block, render_qr, Args, ArgsOutcome, Interface, PortError, ServeAnswer,
    ServeMethod, DEFAULT_IMAGE,
};
use radio::url_parser::parse_url;

fn parse(args: &[&str]) -> ArgsOutcome {
    let args: Vec<String> = args.iter().map(|s| s.to_string()).collect();
    let is_ip: Vec<bool> = args.iter().map(|s| s == "::1" || s == "0.0.0.0").collect();
    Args::parse(&args, &is_ip)
}

fn refused(args: &[&str]) -> String {
    match parse(args) {
        ArgsOutcome::Refused(e) => e.message(),
        _ => panic!("not refused"),
    }
}

fn interface(name: &str, ipv4: Option<[u8; 4]>) -> Interface {
    Interface { name: name.to_string(), ipv4 }
}

#[test]
fn arguments_have_defaults() {
    match parse(&[]) {
        ArgsOutcome::Serve(a) => {
            assert_eq!(a.image, DEFAULT_IMAGE);
            assert_eq!(a.port, 8000);
            assert_eq!(a.bind, None);
        }
        _ => panic!("not served"),
    }
    match parse(&["-p", "+80", "--image", "a.bin", "-b", "::1", "--port", "9000"]) {
        ArgsOutcome::Serve(a) => {
            assert_eq!((a.image.as_str(), a.port, a.bind.as_deref()), ("a.bin", 9000, Some("::1")));
        }
        _ => panic!("not served"),
    }
    assert!(matches!(parse(&["-i", "x", "--help", "bad"]), ArgsOutcome::Help));
}

#[test]
fn bad_arguments_are_named() {
    assert_eq!(refused(&["--image"]), "--image requires a path");
    assert_eq!(refused(&["-p"]), "--port requires a value");
    assert_eq!(refused(&["--bind"]), "--bind requires an IP");
    assert_eq!(refused(&["--bind", "here"]), "invalid --bind: invalid IP address syntax");
    assert_eq!(refused(&["--verbose"]), "unknown argument: --verbose");
    assert_eq!(
        refused(&["--port", ""]),
        "invalid --port: cannot parse integer from empty string"
    );
    assert_eq!(refused(&["--port", "8x"]), "invalid --port: invalid digit found in string");
    assert_eq!(
        refused(&["--port", "65536"]),
        "invalid --port: number too large to fit in target type"
    );
}

#[test]
fn ports_are_parsed_as_the_standard_library_does() {
    for s in ["0", "65535", "+1", "-1", "", "+", "1 ", "65536", "70000x", "7000x0", "00080"] {
        match s.parse::<u16>() {
            Ok(p) => assert_eq!(parse_port(s), Ok(p)),
            Err(e) => {
                let mine = match parse_port(s).unwrap_err() {
                    PortError::Empty => "cannot parse integer from empty string",
                    PortError::InvalidDigit => "invalid digit found in string",
                    PortError::TooLarge => "number too large to fit in target type",
                };
                assert_eq!(mine, e.to_string());
            }
        }
    }
}

#[test]
fn only_the_image_and_the_start_page_are_served() {
    assert_eq!(handle(ServeMethod::Get, "/firmware.bin"), ServeAnswer::Firmware);
    assert_eq!(handle(ServeMethod::Head, "/firmware.bin"), ServeAnswer::FirmwareHead);
    assert_eq!(handle(ServeMethod::Get, "/"), ServeAnswer::Index);
    assert_eq!(handle(ServeMethod::Head, "/"), ServeAnswer::NotFound);
    assert_eq!(handle(ServeMethod::Get, "/firmware.bin?x"), ServeAnswer::NotFound);
    assert_eq!(handle(ServeMethod::Other, "/firmware.bin"), ServeAnswer::NotFound);
    assert_eq!(answer_status(ServeAnswer::NotFound), 404);
    assert_eq!(answer_status(ServeAnswer::Index), 200);
    assert!(index_body().contains("GET /firmware.bin → firmware image"));
    assert_eq!(not_found_body(), "404 — only GET /firmware.bin is served\n");
    assert!(help_text().contains("(default: 8000)"));
    assert!(curl_hint(9000).ends_with("-d '{\"url\":\"http://<your-ip>:9000/firmware.bin\"}'"));
}

#[test]
fn addresses_that_the_device_cannot_reach_are_left_out() {
    let list = [
        interface("lo", Some([127, 0, 0, 1])),
        interface("v6", None),
        interface("ll", Some([169, 254, 3, 4])),
        interface("any", Some([0, 0, 0, 0])),
        interface("en0", Some([192, 168, 1, 7])),
        interface("en1", Some([10, 0, 0, 2])),
    ];
    let urls = lan_urls(&list, 8000);
    assert_eq!(
        urls.lines,
        vec![
            "  http://192.168.1.7:8000/firmware.bin  (en0)".to_string(),
            "  http://10.0.0.2:8000/firmware.bin  (en1)".to_string(),
        ]
    );
    let target = urls.qr_target.unwrap();
    let parts = parse_url(&target).unwrap();
    assert_eq!((parts.ip, parts.port, parts.path), ([192, 168, 1, 7], 8000, "/firmware.bin"));
    let some = print_lan_urls(&list, 8000);
    assert_eq!(some.lines[0], "\nReachable URLs:");
    assert_eq!(&some.lines[1..], &urls.lines[..]);
    let none = print_lan_urls(&list[..4], 8000);
    assert_eq!(none.lines[1..], ["  (no non-loopback IPv4 found — check Wi-Fi/Ethernet)"]);
    assert!(none.qr.is_none());
}

#[test]
fn first_address_is_drawn_as_a_code() {
    let list = [interface("en0", Some([192, 168, 1, 7]))];
    let drawn = print_lan_urls(&list, 8000).qr.unwrap().unwrap();
    let again = render_qr("http://192.168.1.7:8000/firmware.bin").unwrap();
    assert_eq!(drawn, again);
    let lines: Vec<&str> = drawn.split('\n').collect();
    assert_eq!(lines[0], "");
    // 37 bytes need 29 modules a side, with a quiet zone of four around them.
    assert_eq!(lines.len(), 1 + (29 + 8 + 1) / 2);
    assert!(lines[1..].iter().all(|l| l.chars().count() == 29 + 8));
    assert!(drawn.chars().all(|c| "█▀▄ \n".contains(c)));
    // Light and dark are exchanged, so the quiet zone is drawn full.
    assert!(lines[1].chars().all(|c| c == '█'));
    assert_ne!(drawn, render_qr("http://192.168.1.8:8000/firmware.bin").unwrap());
    assert_eq!(qr_block("x"), "\nx");
}
