use radio::wifi_provision::{
    connect_station, format_http_response, format_redirect_response, parse_form_data,
    parse_http_request, provision_page, success_page, url_decode, ConnectRetry, ConnectionError,
    HttpMethod, PortalSession, PortalStep, ProvisioningConfig, ProvisioningError, RetryStep,
    StationEvent, StationStep,
};

#[test]
fn form_data_is_decoded() {
    let c = parse_form_data("ssid=My+Net%21&password=p%26w%3D1").unwrap();
    assert_eq!(c.ssid, "My Net!");
    assert_eq!(c.password, "p&w=1");
}

#[test]
fn last_field_of_a_name_counts() {
    let c = parse_form_data("ssid=a&x=y&ssid=b&password").unwrap();
    assert_eq!(c.ssid, "b");
    assert_eq!(c.password, "");
}

#[test]
fn form_without_network_is_refused() {
    assert!(parse_form_data("password=x").is_none());
    assert!(parse_form_data("ssid=&password=x").is_none());
    assert!(parse_form_data("").is_none());
}

#[test]
fn malformed_escapes_are_dropped() {
    assert_eq!(url_decode("a%zzb"), "ab");
    assert_eq!(url_decode("a%4"), "a");
    assert_eq!(url_decode("a%"), "a");
    assert_eq!(url_decode("%e9"), "é");
}

#[test]
fn request_is_taken_apart() {
    let raw = b"POST /connect HTTP/1.1\r\nHost: x\r\nCONTENT-LENGTH: 6\r\n\r\nssid=a";
    let r = parse_http_request(raw, raw.len()).unwrap();
    assert_eq!(r.method, HttpMethod::Post);
    assert_eq!(r.path, "/connect");
    assert_eq!(r.content_length, 6);
    assert_eq!(r.body, "ssid=a");
}

#[test]
fn request_without_path_is_refused() {
    assert!(parse_http_request(b"GET\r\n\r\n", 7).is_none());
    assert!(parse_http_request(b"", 0).is_none());
    assert!(parse_http_request(&[0xFF, 0xFE], 2).is_none());
    let other = parse_http_request(b"PUT / HTTP/1.1\r\n\r\n", 18).unwrap();
    assert_eq!(other.method, HttpMethod::Other);
    assert_eq!(other.content_length, 0);
}

#[test]
fn response_has_the_length_of_its_body() {
    let mut buf = [0u8; 256];
    let n = format_http_response(&mut buf, 200, "OK", "text/plain", "grüße");
    assert_eq!(
        std::str::from_utf8(&buf[..n]).unwrap(),
        "HTTP/1.1 200 OK\r\nContent-Type: text/plain\r\nContent-Length: 7\r\n\
         Connection: close\r\n\r\ngrüße"
    );
}

#[test]
fn response_that_does_not_fit_has_no_length() {
    let mut buf = [0u8; 40];
    assert_eq!(format_http_response(&mut buf, 200, "OK", "text/plain", "hello"), 0);
    let mut small = [0u8; 10];
    assert_eq!(format_redirect_response(&mut small, "/"), 0);
}

#[test]
fn redirect_names_the_location() {
    let mut buf = [0u8; 128];
    let n = format_redirect_response(&mut buf, "/");
    assert_eq!(
        &buf[..n],
        b"HTTP/1.1 302 Found\r\nLocation: /\r\nContent-Length: 0\r\nConnection: close\r\n\r\n"
    );
}

#[test]
fn portal_reads_until_the_body_is_there() {
    let mut s = PortalSession::new();
    assert_eq!(s.on_end(), PortalStep::Close);
    let head = b"POST /connect HTTP/1.1\r\nContent-Length: 18\r\n\r\n";
    assert_eq!(s.on_data(head), PortalStep::Read);
    assert_eq!(s.on_data(b"ssid=net"), PortalStep::Read);
    assert_eq!(s.on_end(), PortalStep::Answer);
    assert_eq!(s.on_data(b"&password="), PortalStep::Answer);
    let reply = s.reply();
    let creds = reply.credentials.unwrap();
    assert_eq!(creds.ssid, "net");
    assert_eq!(creds.password, "");
    let text = String::from_utf8(reply.response).unwrap();
    assert!(text.starts_with("HTTP/1.1 200 OK\r\n"));
    assert!(text.ends_with(success_page()));
}

#[test]
fn portal_serves_its_page() {
    let mut s = PortalSession::new();
    assert_eq!(s.on_data(b"GET / HTTP/1.1\r\n\r\n"), PortalStep::Answer);
    let reply = s.reply();
    assert!(reply.credentials.is_none());
    let text = String::from_utf8(reply.response).unwrap();
    assert!(text.ends_with(provision_page()));
    assert!(text.contains("action=\"/connect\""));
}

#[test]
fn portal_redirects_everything_else() {
    for request in [
        "GET /generate_204 HTTP/1.1\r\n\r\n",
        "POST /other HTTP/1.1\r\n\r\n",
        "POST /connect HTTP/1.1\r\n\r\npassword=x",
    ] {
        let mut s = PortalSession::new();
        assert_eq!(s.on_data(request.as_bytes()), PortalStep::Answer);
        let reply = s.reply();
        assert!(reply.credentials.is_none());
        assert!(reply.response.starts_with(b"HTTP/1.1 302 Found\r\nLocation: /\r\n"));
    }
}

#[test]
fn portal_refuses_what_is_no_request() {
    let mut s = PortalSession::new();
    assert_eq!(s.on_data(b"\xFF\r\n\r\n"), PortalStep::Answer);
    assert!(s.reply().response.starts_with(b"HTTP/1.1 400 Bad Request\r\n"));
}

#[test]
fn portal_stops_reading_at_its_limit() {
    let mut s = PortalSession::new();
    assert_eq!(s.on_data(&vec![b'a'; 2047]), PortalStep::Read);
    assert_eq!(s.on_data(b"a"), PortalStep::Answer);
}

#[test]
fn connection_is_tried_as_often_as_allowed() {
    let mut r = ConnectRetry::new(3, 7);
    assert_eq!(connect_station(&mut r, StationEvent::Started), StationStep::Attempt);
    let failed = StationEvent::Attempted(false);
    assert_eq!(connect_station(&mut r, failed), StationStep::WaitThenAttempt(7));
    assert_eq!(connect_station(&mut r, failed), StationStep::WaitThenAttempt(7));
    assert_eq!(
        connect_station(&mut r, failed),
        StationStep::Failed(ConnectionError::ConnectionFailed)
    );
}

#[test]
fn connection_waits_for_an_address() {
    let mut r = ConnectRetry::new(2, 1);
    assert_eq!(connect_station(&mut r, StationEvent::Started), StationStep::Attempt);
    assert_eq!(
        connect_station(&mut r, StationEvent::Attempted(true)),
        StationStep::WaitForAddress
    );
    let mut none = ConnectRetry::new(0, 1);
    assert_eq!(none.begin(), RetryStep::GiveUp);
    assert_eq!(
        connect_station(&mut none, StationEvent::Started),
        StationStep::Failed(ConnectionError::ConnectionFailed)
    );
    assert_eq!(
        connect_station(&mut none, StationEvent::InitFailed),
        StationStep::Failed(ConnectionError::WifiInit)
    );
}

#[test]
fn errors_and_defaults_read_as_documented() {
    assert_eq!(ConnectionError::WifiInit.message(), "WiFi initialization failed");
    assert_eq!(ConnectionError::DhcpTimeout.message(), "DHCP timeout");
    assert_eq!(
        ConnectionError::CredentialsCleared.message(),
        "credentials cleared after connection failure"
    );
    assert_eq!(ProvisioningError::Network.message(), "network stack error");
    assert_eq!(ProvisioningError::InvalidCredentials.message(), "invalid credentials received");
    let c = ProvisioningConfig::default();
    assert_eq!(c.ap_ssid, "ESP-Radio-Setup");
    assert_eq!(c.gateway, [192, 168, 4, 1]);
}
