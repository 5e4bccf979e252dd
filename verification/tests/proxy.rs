use ncrs::proxy::{
    check_http_connect_response, check_http_connect_status, check_socks4_reply,
    check_socks5_method_reply, check_socks5_reply, http_connect_request, http_response_progress,
    parse_proxy_address, proxy_kind, proxy_plan, socks4_connect_request, socks4_target,
    socks5_connect_request, socks5_greeting, status_line, HttpResponseProgress, ProxyError,
    ProxyKind, Socks5BoundAddress,
};

#[test]
fn proxy_protocols() {
    assert_eq!(proxy_kind("4"), Ok(ProxyKind::Socks4));
    assert_eq!(proxy_kind("5"), Ok(ProxyKind::Socks5));
    assert_eq!(proxy_kind("connect"), Ok(ProxyKind::HttpConnect));
    assert_eq!(proxy_kind("http"), Err(ProxyError::UnsupportedProtocol));
}

#[test]
fn proxy_addresses_with_and_without_ports() {
    assert_eq!(parse_proxy_address("10.2.3.4:1080", "5"), Ok(("10.2.3.4".to_string(), 1080)));
    assert_eq!(parse_proxy_address("10.2.3.4", "5"), Ok(("10.2.3.4".to_string(), 1080)));
    assert_eq!(parse_proxy_address("10.2.3.4", "4"), Ok(("10.2.3.4".to_string(), 1080)));
    assert_eq!(parse_proxy_address("proxy", "connect"), Ok(("proxy".to_string(), 3128)));
    assert_eq!(parse_proxy_address("proxy:8080", "connect"), Ok(("proxy".to_string(), 8080)));
    assert_eq!(parse_proxy_address("proxy:http", "connect"), Ok(("proxy:http".to_string(), 3128)));
    assert_eq!(parse_proxy_address("a", "x"), Err(ProxyError::UnsupportedProtocol));
}

#[test]
fn bracketed_proxy_addresses() {
    assert_eq!(parse_proxy_address("[::1]:1081", "5"), Ok(("::1".to_string(), 1081)));
    assert_eq!(parse_proxy_address("[::1]", "5"), Ok(("::1".to_string(), 1080)));
    assert_eq!(parse_proxy_address("[::1]:", "5"), Ok(("::1".to_string(), 1080)));
    assert_eq!(parse_proxy_address("[::1]:x", "5"), Err(ProxyError::InvalidPort));
    assert_eq!(parse_proxy_address("[::1", "5"), Ok(("[:".to_string(), 1)));
    assert_eq!(parse_proxy_address("::1", "5"), Ok((":".to_string(), 1)));
}

#[test]
fn proxy_plan_defaults_to_socks5() {
    assert_eq!(proxy_plan("h:9", None), Ok((ProxyKind::Socks5, "h".to_string(), 9)));
    assert_eq!(proxy_plan("h", Some("connect")), Ok((ProxyKind::HttpConnect, "h".to_string(), 3128)));
    assert_eq!(proxy_plan("h", Some("6")), Err(ProxyError::UnsupportedProtocol));
}

#[test]
fn socks5_handshake_bytes() {
    assert_eq!(socks5_greeting(), vec![5, 1, 0]);
    assert_eq!(check_socks5_method_reply(&[5, 0]), Ok(()));
    assert_eq!(check_socks5_method_reply(&[5, 2]), Err(ProxyError::Socks5AuthRejected));
    assert_eq!(check_socks5_method_reply(&[4, 0]), Err(ProxyError::Socks5AuthRejected));
}

#[test]
fn socks5_requests_by_address_kind() {
    assert_eq!(
        socks5_connect_request("127.0.0.1", None, 8080),
        Ok(vec![5, 1, 0, 1, 127, 0, 0, 1, 0x1f, 0x90])
    );
    assert_eq!(
        socks5_connect_request("example.com", None, 80),
        Ok(vec![5, 1, 0, 3, 11, b'e', b'x', b'a', b'm', b'p', b'l', b'e', b'.', b'c', b'o', b'm', 0, 80])
    );
    let mut v6 = [0u8; 16];
    v6[15] = 1;
    let mut want = vec![5, 1, 0, 4];
    want.extend_from_slice(&v6);
    want.extend_from_slice(&[1, 0]);
    assert_eq!(socks5_connect_request("::1", Some(v6), 256), Ok(want));
    let long = "a".repeat(256);
    assert_eq!(socks5_connect_request(&long, None, 1), Err(ProxyError::HostNameTooLong));
    let just = "b".repeat(255);
    assert_eq!(socks5_connect_request(&just, None, 1).unwrap().len(), 3 + 2 + 255 + 2);
}

#[test]
fn socks5_reply_headers() {
    assert_eq!(check_socks5_reply(&[5, 0, 0, 1]), Ok(Socks5BoundAddress::Ipv4));
    assert_eq!(check_socks5_reply(&[5, 0, 0, 3]), Ok(Socks5BoundAddress::Domain));
    assert_eq!(check_socks5_reply(&[5, 0, 0, 4]), Ok(Socks5BoundAddress::Ipv6));
    assert_eq!(check_socks5_reply(&[4, 0, 0, 1]), Err(ProxyError::Socks5BadVersion));
    assert_eq!(check_socks5_reply(&[5, 5, 0, 1]), Err(ProxyError::Socks5Failed(5)));
    assert_eq!(check_socks5_reply(&[5, 0, 0, 9]), Err(ProxyError::Socks5UnknownAddressType));
}

#[test]
fn socks4_handshake_bytes() {
    assert_eq!(socks4_target("10.0.0.2"), Some([10, 0, 0, 2]));
    assert_eq!(socks4_target("example.com"), None);
    assert_eq!(socks4_connect_request([10, 0, 0, 2], 80), vec![4, 1, 0, 80, 10, 0, 0, 2, 0]);
    assert_eq!(check_socks4_reply(&[0, 0x5A, 0, 0, 0, 0, 0, 0]), Ok(()));
    assert_eq!(check_socks4_reply(&[0, 0x5B, 0, 0, 0, 0, 0, 0]), Err(ProxyError::Socks4Failed(0x5B)));
    assert_eq!(check_socks4_reply(&[1, 0x5A, 0, 0, 0, 0, 0, 0]), Err(ProxyError::Socks4Failed(0x5A)));
}

#[test]
fn http_connect_requests() {
    assert_eq!(
        http_connect_request("example.com", 80, None),
        "CONNECT example.com:80 HTTP/1.1\r\nHost: example.com:80\r\n\r\n"
    );
    assert_eq!(
        http_connect_request("example.com", 443, Some("user:pass")),
        "CONNECT example.com:443 HTTP/1.1\r\nHost: example.com:443\r\nProxy-Authorization: Basic dXNlcjpwYXNz\r\n\r\n"
    );
    assert_eq!(
        http_connect_request("h", 1, Some("ab")),
        "CONNECT h:1 HTTP/1.1\r\nHost: h:1\r\nProxy-Authorization: Basic YWI=\r\n\r\n"
    );
}

#[test]
fn http_response_framing() {
    assert_eq!(http_response_progress(b"HTTP/1.1 200 OK\r\n"), HttpResponseProgress::Incomplete);
    assert_eq!(http_response_progress(b"HTTP/1.1 200 OK\r\n\r\n"), HttpResponseProgress::Complete);
    assert_eq!(http_response_progress(&vec![b'a'; 8192]), HttpResponseProgress::Incomplete);
    assert_eq!(http_response_progress(&vec![b'a'; 8193]), HttpResponseProgress::TooLarge);
}

#[test]
fn http_status_lines() {
    assert_eq!(check_http_connect_status("HTTP/1.1 200 Connection established\r\n\r\n"), Ok(()));
    assert_eq!(check_http_connect_status("HTTP/1.0 204\r\n\r\n"), Ok(()));
    assert_eq!(check_http_connect_status("HTTP/1.1 407 Proxy Authentication Required\r\n\r\n"), Err(ProxyError::HttpConnectFailed));
    assert_eq!(check_http_connect_status("HTTP/2 200\r\n\r\n"), Err(ProxyError::HttpInvalidResponse));
    assert_eq!(check_http_connect_status("HTTP/1.1\r\n\r\n"), Err(ProxyError::HttpInvalidStatusLine));
    assert_eq!(check_http_connect_status("HTTP/1.1   \t 200\r\n\r\n"), Ok(()));
    assert_eq!(check_http_connect_status("HTTP/1.1\u{a0}200\r\n"), Ok(()));
    assert_eq!(check_http_connect_status(""), Err(ProxyError::HttpEmptyResponse));
    assert_eq!(status_line("HTTP/1.1 200 OK\r\nX: y\r\n\r\n"), Some("HTTP/1.1 200 OK".to_string()));
    assert_eq!(status_line("abc"), Some("abc".to_string()));
    assert_eq!(status_line(""), None);
}

#[test]
fn http_response_bytes_are_read_as_text() {
    assert_eq!(check_http_connect_response(b"HTTP/1.1 200 OK\r\n\r\n"), Ok(()));
    assert_eq!(check_http_connect_response(b"HTTP/1.1 200 \xff\r\n\r\n"), Ok(()));
    assert_eq!(check_http_connect_response(b"\xffHTTP/1.1 200\r\n\r\n"), Err(ProxyError::HttpInvalidResponse));
    assert_eq!(check_http_connect_response(b"HTTP/1.1 502 Bad\r\n\r\n"), Err(ProxyError::HttpConnectFailed));
}
