use radio::url_parser::{parse_url, UrlError};

#[test]
fn url_parser_parses_typical_url() {
    let p = parse_url("http://192.168.1.10:8000/firmware.bin").unwrap();
    assert_eq!(p.ip, [192, 168, 1, 10]);
    assert_eq!(p.port, 8000);
    assert_eq!(p.path, "/firmware.bin");
}

#[test]
fn url_parser_defaults_port_to_80() {
    let p = parse_url("http://10.0.0.1/img").unwrap();
    assert_eq!(p.port, 80);
    assert_eq!(p.path, "/img");
}

#[test]
fn url_parser_empty_path_becomes_slash() {
    let p = parse_url("http://10.0.0.1").unwrap();
    assert_eq!(p.path, "/");
}

#[test]
fn url_parser_rejects_https() {
    assert_eq!(parse_url("https://10.0.0.1/x"), Err(UrlError::BadUrl));
}

#[test]
fn url_parser_rejects_dns_hostname() {
    assert_eq!(parse_url("http://example.com/x"), Err(UrlError::BadUrl));
}

#[test]
fn rejects_empty_authority() {
    assert_eq!(parse_url("http:///x"), Err(UrlError::BadUrl));
}

#[test]
fn rejects_bad_port() {
    assert_eq!(
        parse_url("http://10.0.0.1:99999/x"),
        Err(UrlError::BadUrl)
    );
}

#[test]
fn rejects_truncated_ipv4() {
    assert_eq!(parse_url("http://10.0.0/x"), Err(UrlError::BadUrl));
}

#[test]
fn parses_query_string_in_path() {
    let p = parse_url("http://10.0.0.1/img?v=1&t=abc").unwrap();
    assert_eq!(p.path, "/img?v=1&t=abc");
}
