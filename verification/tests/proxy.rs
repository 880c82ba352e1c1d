use ms_mqtt_client::io::proxy::{
    connect_request_bytes, decimal_bytes, proxy_connect_request, proxy_status_accepted,
    ProxyAuthorization, ProxyError, ProxyLine, ProxyResponse, MAX_PROXY_RESPONSE_HEADER_BYTES,
};

/// Feeds `response` to a `ProxyResponse` line by line, reading each line as a buffered reader
/// limited to `line_limit` bytes would.
fn exchange_response(response: &[u8]) -> Result<(), ProxyError> {
    let mut state = ProxyResponse::new();
    let mut rest = response;
    loop {
        let limit = state.line_limit();
        let window = &rest[..rest.len().min(limit)];
        let take = match window.iter().position(|&b| b == b'\n') {
            Some(i) => i + 1,
            None => window.len(),
        };
        let line = std::str::from_utf8(&rest[..take]).unwrap();
        rest = &rest[take..];
        if state.take_line(line)? == ProxyLine::Tunnel {
            return Ok(());
        }
    }
}

#[test]
fn rejects_oversized_proxy_status_line() {
    let mut response = b"HTTP/1.1 200 ".to_vec();
    response.resize(MAX_PROXY_RESPONSE_HEADER_BYTES + 1, b'x');

    let err = exchange_response(&response).unwrap_err();

    assert_eq!(err, ProxyError::HeadersTooLarge);
}

#[test]
fn rejects_proxy_headers_over_cumulative_limit() {
    let mut response = b"HTTP/1.1 200 OK\r\n".to_vec();
    let header = b"X-Test: value\r\n";
    while response.len() <= MAX_PROXY_RESPONSE_HEADER_BYTES {
        response.extend_from_slice(header);
    }

    let err = exchange_response(&response).unwrap_err();

    assert_eq!(err, ProxyError::HeadersTooLarge);
}

#[test]
fn formats_ipv6_proxy_authority() {
    let response = b"HTTP/1.1 200 OK\r\n\r\n";
    let expected_request = b"CONNECT [2001:db8::1]:443 HTTP/1.1\r\n\
                             Host: [2001:db8::1]:443\r\n\r\n";

    let request = connect_request_bytes("2001:db8::1", 443, None).unwrap();

    assert_eq!(request, expected_request.to_vec());
    exchange_response(response).unwrap();
}

#[test]
fn rejects_non_2xx_or_malformed_status_codes() {
    for status in ["199", "300", "2000"] {
        let response = format!("HTTP/1.1 {status} Not Successful\r\n\r\n").into_bytes();
        let err = exchange_response(&response).unwrap_err();

        assert!(matches!(err, ProxyError::ConnectFailed { .. }));
    }
}

#[test]
fn accepts_any_2xx_status_code() {
    for status in [201, 250, 299] {
        let response = format!("HTTP/1.1 {status} Success\r\n\r\n").into_bytes();

        exchange_response(&response).unwrap();
    }
}

#[test]
fn proxy_request_for_a_host_name_with_basic_credentials() {
    let auth = ProxyAuthorization::Basic { username: "user".to_string(), password: "pass".to_string() };
    let request = proxy_connect_request("example.com", 8883, &auth).unwrap();
    assert_eq!(
        request,
        b"CONNECT example.com:8883 HTTP/1.1\r\nHost: example.com:8883\r\n\
          Proxy-Authorization: Basic dXNlcjpwYXNz\r\n\r\n"
            .to_vec()
    );
    let request = proxy_connect_request("example.com", 1883, &ProxyAuthorization::Unauthenticated).unwrap();
    assert_eq!(request, b"CONNECT example.com:1883 HTTP/1.1\r\nHost: example.com:1883\r\n\r\n".to_vec());
}

#[test]
fn proxy_target_with_control_characters_or_spaces_is_refused() {
    for host in ["", "exa mple.com", "example.com\r\nX-Injected: 1", "tab\there"] {
        assert_eq!(connect_request_bytes(host, 80, None), Err(ProxyError::InvalidTarget));
    }
}

#[test]
fn proxy_status_line_words() {
    assert!(proxy_status_accepted("HTTP/1.0 204 No Content\r\n"));
    assert!(proxy_status_accepted("  HTTP/1.1\t200\r\n"));
    assert!(!proxy_status_accepted("HTTP/2 200 OK\r\n"));
    assert!(!proxy_status_accepted("HTTP/1.1 +20 OK\r\n"));
    assert!(!proxy_status_accepted("HTTP/1.1\r\n"));
    assert!(!proxy_status_accepted(""));
    // Unicode white space separates words too.
    assert!(proxy_status_accepted("HTTP/1.1\u{3000}200"));
}

#[test]
fn proxy_failed_status_line_is_reported_whole() {
    let mut state = ProxyResponse::new();
    let err = state.take_line("HTTP/1.1 407 Proxy Authentication Required\r\n").unwrap_err();
    assert_eq!(
        err,
        ProxyError::ConnectFailed { status_line: "HTTP/1.1 407 Proxy Authentication Required\r\n".to_string() }
    );
}

#[test]
fn decimal_bytes_of_ports() {
    assert_eq!(decimal_bytes(0), b"0".to_vec());
    assert_eq!(decimal_bytes(9), b"9".to_vec());
    assert_eq!(decimal_bytes(10), b"10".to_vec());
    assert_eq!(decimal_bytes(65535), b"65535".to_vec());
}

#[test]
fn basic_credentials_are_padded_base64() {
    let auth = ProxyAuthorization::Basic { username: "ab".to_string(), password: "c".to_string() };
    let request = proxy_connect_request("h", 1, &auth).unwrap();
    assert_eq!(request, b"CONNECT h:1 HTTP/1.1\r\nHost: h:1\r\nProxy-Authorization: Basic YWI6Yw==\r\n\r\n".to_vec());

    let auth = ProxyAuthorization::Basic { username: "a".to_string(), password: "bcd>".to_string() };
    let request = proxy_connect_request("h", 1, &auth).unwrap();
    assert_eq!(request, b"CONNECT h:1 HTTP/1.1\r\nHost: h:1\r\nProxy-Authorization: Basic YTpiY2Q+\r\n\r\n".to_vec());
}
