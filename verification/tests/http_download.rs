use radio::ota::http_download::{parse_response_head, parse_status_line, parse_url, HttpError};

#[test]
fn http_download_parses_typical_url() {
    let p = parse_url("http://192.168.1.10:8000/firmware.bin").unwrap();
    assert_eq!(p.ip, [192, 168, 1, 10]);
    assert_eq!(p.port, 8000);
    assert_eq!(p.path, "/firmware.bin");
}

#[test]
fn http_download_defaults_port_to_80() {
    let p = parse_url("http://10.0.0.1/img").unwrap();
    assert_eq!(p.port, 80);
    assert_eq!(p.path, "/img");
}

#[test]
fn http_download_empty_path_becomes_slash() {
    let p = parse_url("http://10.0.0.1").unwrap();
    assert_eq!(p.path, "/");
}

#[test]
fn http_download_rejects_https() {
    assert!(matches!(
        parse_url("https://10.0.0.1/x"),
        Err(HttpError::BadUrl)
    ));
}

#[test]
fn http_download_rejects_dns_hostname() {
    assert!(matches!(
        parse_url("http://example.com/x"),
        Err(HttpError::BadUrl)
    ));
}

#[test]
fn parses_status_line_ok() {
    assert_eq!(parse_status_line("HTTP/1.1 200 OK").unwrap(), 200);
    assert_eq!(parse_status_line("HTTP/1.0 204 No Content").unwrap(), 204);
}

#[test]
fn rejects_non_2xx_status() {
    let head = b"HTTP/1.1 404 Not Found\r\nContent-Length: 9\r\n\r\nnot found";
    assert!(matches!(
        parse_response_head(head),
        Err(HttpError::BadStatus(404))
    ));
}

#[test]
fn extracts_content_length_case_insensitive() {
    let head = b"HTTP/1.1 200 OK\r\ncontent-length: 1234\r\n\r\nbody";
    let parsed = parse_response_head(head).unwrap().unwrap();
    assert_eq!(parsed.content_length, Some(1234));
    assert_eq!(parsed.body_start, head.len() - "body".len());
}

#[test]
fn waits_for_full_terminator() {
    let head = b"HTTP/1.1 200 OK\r\nContent-Length: 5\r\n";
    assert!(parse_response_head(head).unwrap().is_none());
}
