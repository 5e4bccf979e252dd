//! Proxy support (`-x`, `-X`, `-P`): reading the proxy address, and the
//! bytes that the SOCKS4, SOCKS5 and HTTP CONNECT handshakes send and check.
use vstd::prelude::*;
use vstd::utf8::{decode_utf8, encode_utf8, valid_utf8};
use crate::address::endpoint_text;
use crate::ip::{ipv4_from_text, ipv4_of};
use crate::text::{
    chars_of, decimal_text, find_char, first_index_of, is_unicode_whitespace, is_whitespace,
    last_index_of, lemma_decimal_text, lemma_first_index_is, lemma_first_index_of,
    lemma_last_index_is, parse_u16, parse_unsigned_range, push_decimal, rfind_char,
    string_from_range, text_eq,
};

verus! {

/// Why a proxy could not be used.
#[derive(Clone, Copy, Debug, PartialEq, Eq)]
pub enum ProxyError {
    /// `-X` names no protocol that is supported.
    UnsupportedProtocol,
    /// The port of a bracketed proxy address is not a port number.
    InvalidPort,
    /// The SOCKS5 proxy refused the no-authentication method.
    Socks5AuthRejected,
    /// The target name is longer than the 255 bytes SOCKS5 can carry.
    HostNameTooLong,
    /// The SOCKS5 reply does not start with version 5.
    Socks5BadVersion,
    /// The SOCKS5 proxy could not connect; it gave this reply code.
    Socks5Failed(u8),
    /// The SOCKS5 reply names an unknown address type.
    Socks5UnknownAddressType,
    /// The SOCKS4 proxy refused the request; it gave this status.
    Socks4Failed(u8),
    /// The HTTP proxy's response headers exceed 8192 bytes.
    HttpResponseTooLarge,
    /// The HTTP proxy's response is empty.
    HttpEmptyResponse,
    /// The HTTP proxy's status line does not start with `HTTP/1.`.
    HttpInvalidResponse,
    /// The HTTP proxy's status line has no status code.
    HttpInvalidStatusLine,
    /// The HTTP proxy's status code is not 2xx.
    HttpConnectFailed,
}

/// The proxy protocols (`-X`).
#[derive(Clone, Copy, Debug, PartialEq, Eq)]
pub enum ProxyKind {
    Socks4,
    Socks5,
    HttpConnect,
}

/// The protocol that a `-X` value names: `4`, `5` or `connect`.
pub open spec fn proxy_kind_of(p_type: Seq<char>) -> Option<ProxyKind> {
    if p_type == "4"@ {
        Some(ProxyKind::Socks4)
    } else if p_type == "5"@ {
        Some(ProxyKind::Socks5)
    } else if p_type == "connect"@ {
        Some(ProxyKind::HttpConnect)
    } else {
        None
    }
}

/// Reads a `-X` value.
pub fn proxy_kind(p_type: &str) -> (r: Result<ProxyKind, ProxyError>)
    ensures
        match proxy_kind_of(p_type@) {
            Some(k) => r == Ok::<ProxyKind, ProxyError>(k),
            None => r == Err::<ProxyKind, ProxyError>(ProxyError::UnsupportedProtocol),
        },
{
    if text_eq(p_type, "4") {
        Ok(ProxyKind::Socks4)
    } else if text_eq(p_type, "5") {
        Ok(ProxyKind::Socks5)
    } else if text_eq(p_type, "connect") {
        Ok(ProxyKind::HttpConnect)
    } else {
        Err(ProxyError::UnsupportedProtocol)
    }
}

/// The port of a proxy when its address names none: 1080 for SOCKS, 3128
/// for HTTP.
pub open spec fn default_proxy_port(kind: ProxyKind) -> u16 {
    match kind {
        ProxyKind::HttpConnect => 3128,
        _ => 1080,
    }
}

/// What a proxy address `-x` stands for: `[host]` or `[host]:port` for a
/// bracketed host (a bad port there is an error), else `host:port` split at
/// the last `:` when what follows is a port, else the whole text as the
/// host; a missing port is the protocol's default.
pub open spec fn proxy_address_of(addr: Seq<char>, p_type: Seq<char>) -> Result<
    (Seq<char>, u16),
    ProxyError,
> {
    match proxy_kind_of(p_type) {
        None => Err(ProxyError::UnsupportedProtocol),
        Some(kind) => {
            let dp = default_proxy_port(kind);
            let bracket = if addr.len() > 0 && addr[0] == '[' {
                first_index_of(addr, ']')
            } else {
                None
            };
            match bracket {
                Some(e) => {
                    let host = addr.subrange(1, e);
                    let rest = addr.skip(e + 1);
                    if rest.len() > 1 && rest[0] == ':' {
                        match parse_u16(rest.skip(1)) {
                            Some(p) => Ok((host, p)),
                            None => Err(ProxyError::InvalidPort),
                        }
                    } else {
                        Ok((host, dp))
                    }
                },
                None => match last_index_of(addr, ':') {
                    Some(k) => match parse_u16(addr.skip(k + 1)) {
                        Some(p) => Ok((addr.take(k), p)),
                        None => Ok((addr, dp)),
                    },
                    None => Ok((addr, dp)),
                },
            }
        },
    }
}

/// The view of a `(host, port)` result.
pub open spec fn host_port_view(r: Result<(String, u16), ProxyError>) -> Result<
    (Seq<char>, u16),
    ProxyError,
> {
    match r {
        Ok((h, p)) => Ok((h@, p)),
        Err(e) => Err(e),
    }
}

/// Reads a proxy address (`-x`) for the protocol `p_type` (`-X`).
pub fn parse_proxy_address(addr: &str, p_type: &str) -> (r: Result<(String, u16), ProxyError>)
    ensures
        host_port_view(r) == proxy_address_of(addr@, p_type@),
{
    let kind = match proxy_kind(p_type) {
        Ok(k) => k,
        Err(e) => return Err(e),
    };
    let default_port: u16 = match kind {
        ProxyKind::HttpConnect => 3128,
        _ => 1080,
    };
    let s = chars_of(addr);
    if s.len() > 0 && s[0] == '[' {
        if let Some(end_idx) = find_char(&s, ']') {
            proof {
                lemma_first_index_of(s@, ']');
            }
            let host = string_from_range(&s, 1, end_idx);
            let ghost rest = s@.skip(end_idx + 1);
            if s.len() - end_idx > 2 && s[end_idx + 1] == ':' {
                assert(rest.len() > 1 && rest[0] == ':');
                assert(s@.subrange(end_idx + 2, s@.len() as int) == rest.skip(1));
                match parse_unsigned_range(&s, end_idx + 2, s.len(), 10, 65535) {
                    Some(p) => return Ok((host, p as u16)),
                    None => return Err(ProxyError::InvalidPort),
                }
            } else {
                assert(!(rest.len() > 1 && rest[0] == ':'));
                return Ok((host, default_port));
            }
        }
    }
    match rfind_char(&s, ':') {
        Some(k) => {
            assert(s@.subrange(k + 1, s@.len() as int) == s@.skip(k + 1));
            match parse_unsigned_range(&s, k + 1, s.len(), 10, 65535) {
                Some(p) => {
                    let host = string_from_range(&s, 0, k);
                    assert(s@.subrange(0, k as int) == s@.take(k as int));
                    Ok((host, p as u16))
                },
                None => {
                    let host = string_from_range(&s, 0, s.len());
                    assert(s@.subrange(0, s@.len() as int) == s@);
                    Ok((host, default_port))
                },
            }
        },
        None => {
            let host = string_from_range(&s, 0, s.len());
            assert(s@.subrange(0, s@.len() as int) == s@);
            Ok((host, default_port))
        },
    }
}

/// The SOCKS5 greeting: version 5, one method, "no authentication".
pub fn socks5_greeting() -> (r: Vec<u8>)
    ensures
        r@ == seq![5u8, 1u8, 0u8],
{
    let mut v: Vec<u8> = Vec::new();
    v.push(5);
    v.push(1);
    v.push(0);
    v
}

/// Checks the proxy's two-byte answer to the SOCKS5 greeting: it must be
/// version 5 with method 0 (no authentication).
pub fn check_socks5_method_reply(resp: &[u8]) -> (r: Result<(), ProxyError>)
    requires
        resp@.len() == 2,
    ensures
        r == (if resp@[0] == 5 && resp@[1] == 0 {
            Ok::<(), ProxyError>(())
        } else {
            Err::<(), ProxyError>(ProxyError::Socks5AuthRejected)
        }),
{
    if resp[0] != 5 || resp[1] != 0 {
        Err(ProxyError::Socks5AuthRejected)
    } else {
        Ok(())
    }
}

/// The two bytes of a port, most significant first.
pub open spec fn port_bytes(port: u16) -> Seq<u8> {
    seq![(port / 256) as u8, (port % 256) as u8]
}

/// The address part of a SOCKS5 connect request for the target `host`:
/// an IPv4 address (type 1), else an IPv6 address (type 4; `ipv6` is what
/// `std::net::Ipv6Addr` reads from `host`), else the host name as its
/// UTF-8 bytes after a length byte (type 3), refused beyond 255 bytes.
pub open spec fn socks5_address(host: Seq<char>, ipv6: Option<Seq<u8>>) -> Result<Seq<u8>, ProxyError> {
    match ipv4_of(host) {
        Some(o) => Ok(seq![1u8] + o),
        None => match ipv6 {
            Some(o) => Ok(seq![4u8] + o),
            None => {
                let b = encode_utf8(host);
                if b.len() > 255 {
                    Err(ProxyError::HostNameTooLong)
                } else {
                    Ok(seq![3u8, b.len() as u8] + b)
                }
            },
        },
    }
}

/// The SOCKS5 connect request: version 5, command CONNECT, a reserved zero,
/// the target address, and the port.
pub open spec fn socks5_request(host: Seq<char>, ipv6: Option<Seq<u8>>, port: u16) -> Result<
    Seq<u8>,
    ProxyError,
> {
    match socks5_address(host, ipv6) {
        Ok(a) => Ok(seq![5u8, 1u8, 0u8] + a + port_bytes(port)),
        Err(e) => Err(e),
    }
}

/// The view of a byte-vector result.
pub open spec fn bytes_result_view(r: Result<Vec<u8>, ProxyError>) -> Result<Seq<u8>, ProxyError> {
    match r {
        Ok(v) => Ok(v@),
        Err(e) => Err(e),
    }
}

/// Appends `b` to `v`.
fn push_all(v: &mut Vec<u8>, b: &[u8])
    ensures
        final(v)@ == old(v)@ + b@,
{
    let mut i: usize = 0;
    let ghost start = v@;
    while i < b.len()
        invariant
            i <= b.len(),
            v@ == start + b@.take(i as int),
        decreases b.len() - i,
    {
        v.push(b[i]);
        i = i + 1;
        assert(v@ == start + b@.take(i as int));
    }
    assert(b@.take(b@.len() as int) == b@);
}

/// Forms the SOCKS5 connect request for `target_host:target_port`, given
/// what `std::net::Ipv6Addr` reads from the host (`None` when it is no IPv6
/// address).
pub fn socks5_connect_request(target_host: &str, host_ipv6: Option<[u8; 16]>, target_port: u16)
    -> (r: Result<Vec<u8>, ProxyError>)
    ensures
        bytes_result_view(r) == socks5_request(
            target_host@,
            crate::ip::ipv6_view(host_ipv6),
            target_port,
        ),
{
    let mut req: Vec<u8> = Vec::new();
    req.push(5);
    req.push(1);
    req.push(0);
    match ipv4_from_text(target_host) {
        Some(o) => {
            req.push(1);
            push_all(&mut req, &o);
        },
        None => match host_ipv6 {
            Some(o) => {
                req.push(4);
                push_all(&mut req, &o);
            },
            None => {
                let host_bytes = target_host.as_bytes();
                if host_bytes.len() > 255 {
                    return Err(ProxyError::HostNameTooLong);
                }
                req.push(3);
                req.push(host_bytes.len() as u8);
                push_all(&mut req, host_bytes);
            },
        },
    }
    req.push((target_port / 256) as u8);
    req.push((target_port % 256) as u8);
    proof {
        let a = socks5_address(target_host@, crate::ip::ipv6_view(host_ipv6))->Ok_0;
        assert(req@ == seq![5u8, 1u8, 0u8] + a + port_bytes(target_port));
    }
    Ok(req)
}

/// A SOCKS5 request ends with the target port, most significant byte
/// first, and a host name goes out as its UTF-8 bytes after their count.
pub proof fn law_socks5_request_layout(host: Seq<char>, ipv6: Option<Seq<u8>>, port: u16)
    requires
        socks5_request(host, ipv6, port) is Ok,
    ensures
        ({
            let r = socks5_request(host, ipv6, port)->Ok_0;
            &&& r[r.len() - 2] as int * 256 + r[r.len() - 1] as int == port as int
            &&& r.take(3) == seq![5u8, 1u8, 0u8]
            &&& (ipv4_of(host) is None && ipv6 is None) ==> (r[3] == 3 && r[4] as int == encode_utf8(
                host,
            ).len() && r.subrange(5, r.len() - 2) == encode_utf8(host))
        }),
{
    let r = socks5_request(host, ipv6, port)->Ok_0;
    let a = socks5_address(host, ipv6)->Ok_0;
    assert(r == seq![5u8, 1u8, 0u8] + a + port_bytes(port));
    assert(r[r.len() - 2] == port_bytes(port)[0]);
    assert(r[r.len() - 1] == port_bytes(port)[1]);
    assert(r.take(3) == seq![5u8, 1u8, 0u8]);
    if ipv4_of(host) is None && ipv6 is None {
        let b = encode_utf8(host);
        assert(r.subrange(5, r.len() - 2) == b);
    }
}

/// The kind of bound address that follows a successful SOCKS5 reply
/// header, which the client reads and throws away before the two port bytes.
#[derive(Clone, Copy, Debug, PartialEq, Eq)]
pub enum Socks5BoundAddress {
    /// Four bytes.
    Ipv4,
    /// One length byte, then that many bytes.
    Domain,
    /// Sixteen bytes.
    Ipv6,
}

/// What the four-byte SOCKS5 reply header means: version 5 is required,
/// then reply code 0 (success), then a known address type.
pub open spec fn socks5_reply_of(h: Seq<u8>) -> Result<Socks5BoundAddress, ProxyError> {
    if h[0] != 5 {
        Err(ProxyError::Socks5BadVersion)
    } else if h[1] != 0 {
        Err(ProxyError::Socks5Failed(h[1]))
    } else if h[3] == 1 {
        Ok(Socks5BoundAddress::Ipv4)
    } else if h[3] == 3 {
        Ok(Socks5BoundAddress::Domain)
    } else if h[3] == 4 {
        Ok(Socks5BoundAddress::Ipv6)
    } else {
        Err(ProxyError::Socks5UnknownAddressType)
    }
}

/// Checks the four-byte header of the SOCKS5 reply.
pub fn check_socks5_reply(header: &[u8]) -> (r: Result<Socks5BoundAddress, ProxyError>)
    requires
        header@.len() == 4,
    ensures
        r == socks5_reply_of(header@),
{
    if header[0] != 5 {
        Err(ProxyError::Socks5BadVersion)
    } else if header[1] != 0 {
        Err(ProxyError::Socks5Failed(header[1]))
    } else if header[3] == 1 {
        Ok(Socks5BoundAddress::Ipv4)
    } else if header[3] == 3 {
        Ok(Socks5BoundAddress::Domain)
    } else if header[3] == 4 {
        Ok(Socks5BoundAddress::Ipv6)
    } else {
        Err(ProxyError::Socks5UnknownAddressType)
    }
}

/// The target address of a SOCKS4 request, when the host is written as an
/// IPv4 address; other names are resolved before the request.
pub fn socks4_target(target_host: &str) -> (r: Option<[u8; 4]>)
    ensures
        match r {
            Some(a) => ipv4_of(target_host@) == Some(a@),
            None => ipv4_of(target_host@) is None,
        },
{
    ipv4_from_text(target_host)
}

/// The SOCKS4 connect request: version 4, command CONNECT, the port, the
/// IPv4 address, and an empty user id.
pub fn socks4_connect_request(ip: [u8; 4], target_port: u16) -> (r: Vec<u8>)
    ensures
        r@ == seq![4u8, 1u8] + port_bytes(target_port) + ip@ + seq![0u8],
{
    let mut req: Vec<u8> = Vec::new();
    req.push(4);
    req.push(1);
    req.push((target_port / 256) as u8);
    req.push((target_port % 256) as u8);
    push_all(&mut req, &ip);
    req.push(0);
    req
}

/// Checks the eight-byte SOCKS4 reply: a zero byte, then status 0x5A
/// (granted).
pub fn check_socks4_reply(resp: &[u8]) -> (r: Result<(), ProxyError>)
    requires
        resp@.len() == 8,
    ensures
        r == (if resp@[0] == 0 && resp@[1] == 0x5A {
            Ok::<(), ProxyError>(())
        } else {
            Err::<(), ProxyError>(ProxyError::Socks4Failed(resp@[1]))
        }),
{
    if resp[0] != 0 || resp[1] != 0x5A {
        Err(ProxyError::Socks4Failed(resp[1]))
    } else {
        Ok(())
    }
}

/// The base64 digit of `v` (0 to 63) in the standard alphabet
/// `A`-`Z`, `a`-`z`, `0`-`9`, `+`, `/`.
pub open spec fn base64_digit(v: int) -> char {
    if v < 26 {
        (65 + v) as char
    } else if v < 52 {
        (97 + v - 26) as char
    } else if v < 62 {
        (48 + v - 52) as char
    } else if v == 62 {
        '+'
    } else {
        '/'
    }
}

/// Standard base64 with `=` padding (RFC 4648): each group of three bytes
/// becomes four digits of six bits each; a last group of one or two bytes
/// is padded.
pub open spec fn base64_standard(b: Seq<u8>) -> Seq<char>
    decreases b.len(),
{
    if b.len() == 0 {
        seq![]
    } else if b.len() == 1 {
        let x = b[0] as int;
        seq![base64_digit(x / 4), base64_digit((x % 4) * 16), '=', '=']
    } else if b.len() == 2 {
        let x = b[0] as int;
        let y = b[1] as int;
        seq![base64_digit(x / 4), base64_digit((x % 4) * 16 + y / 16), base64_digit((y % 16) * 4), '=']
    } else {
        let x = b[0] as int;
        let y = b[1] as int;
        let z = b[2] as int;
        seq![
            base64_digit(x / 4),
            base64_digit((x % 4) * 16 + y / 16),
            base64_digit((y % 16) * 4 + z / 64),
            base64_digit(z % 64),
        ] + base64_standard(b.skip(3))
    }
}

/// Encodes bytes with `base64::prelude::BASE64_STANDARD` (`Engine::encode`).
///
/// Trusted: the result is the standard padded base64 text of the bytes,
/// as the crate documents. The length bound keeps the crate's size
/// computation, which panics on overflow, in range.
#[verifier::external_body]
fn base64_encode(bytes: &[u8]) -> (r: String)
    requires
        bytes@.len() <= usize::MAX / 2,
    ensures
        r@ == base64_standard(bytes@),
{
    base64::Engine::encode(&base64::prelude::BASE64_STANDARD, bytes)
}

/// `host:port` as the HTTP CONNECT request names the target.
pub open spec fn authority(host: Seq<char>, port: u16) -> Seq<char> {
    host + seq![':'] + decimal_text(port as nat)
}

/// The HTTP CONNECT request for `host:port`, with a `Proxy-Authorization:
/// Basic` header carrying the base64 of the user name's UTF-8 bytes when
/// one is given (`-P`).
pub open spec fn http_connect_request_of(host: Seq<char>, port: u16, user: Option<Seq<char>>) -> Seq<
    char,
> {
    let a = authority(host, port);
    "CONNECT "@ + a + " HTTP/1.1\r\nHost: "@ + a + "\r\n"@ + (match user {
        Some(u) => "Proxy-Authorization: Basic "@ + base64_standard(encode_utf8(u)) + "\r\n"@,
        None => seq![],
    }) + "\r\n"@
}

/// Appends `host:port` to `s`.
fn push_authority(s: &mut String, host: &str, port: u16)
    ensures
        final(s)@ == old(s)@ + authority(host@, port),
{
    s.append(host);
    crate::text::push_char(s, ':');
    push_decimal(s, port as u64);
}

/// Forms the HTTP CONNECT request for `target_host:target_port`.
pub fn http_connect_request(target_host: &str, target_port: u16, proxy_username: Option<&str>) -> (r:
    String)
    requires
        match proxy_username {
            Some(u) => u@.len() <= usize::MAX / 8,
            None => true,
        },
    ensures
        r@ == http_connect_request_of(
            target_host@,
            target_port,
            match proxy_username {
                Some(u) => Some(u@),
                None => None,
            },
        ),
{
    let mut req = String::new();
    req.append("CONNECT ");
    push_authority(&mut req, target_host, target_port);
    req.append(" HTTP/1.1\r\nHost: ");
    push_authority(&mut req, target_host, target_port);
    req.append("\r\n");
    let ghost before = req@;
    match proxy_username {
        Some(user) => {
            let bytes = user.as_bytes();
            proof {
                lemma_utf8_len_bound(user@);
            }
            let auth = base64_encode(bytes);
            req.append("Proxy-Authorization: Basic ");
            req.append(auth.as_str());
            req.append("\r\n");
        },
        None => {},
    }
    req.append("\r\n");
    req
}

/// A UTF-8 encoding takes at most four bytes per character.
proof fn lemma_utf8_len_bound(s: Seq<char>)
    ensures
        encode_utf8(s).len() <= 4 * s.len(),
    decreases s.len(),
{
    if s.len() > 0 {
        lemma_utf8_len_bound(s.drop_first());
        assert(vstd::utf8::encode_scalar(s[0] as u32).len() <= 4);
    }
}

/// `a` is `host`, a `:`, and text that reads as the decimal `port`, split
/// at the last `:` of `a`.
pub open spec fn splits_at_port(a: Seq<char>, host: Seq<char>, port: u16) -> bool {
    &&& last_index_of(a, ':') == Some(host.len() as int)
    &&& a.take(host.len() as int) == host
    &&& parse_u16(a.skip(host.len() as int + 1)) == Some(port)
}

/// The CONNECT request names the target: it starts with the request line
/// `CONNECT a HTTP/1.1` and the header `Host: a`, where the authority `a`
/// is the target host and, after its last `:`, text that reads back as the
/// target port, for every host and port.
pub proof fn law_http_connect_names_target(host: Seq<char>, port: u16, user: Option<Seq<char>>)
    ensures
        splits_at_port(authority(host, port), host, port),
        ({
            let a = authority(host, port);
            let pre = "CONNECT "@ + a + " HTTP/1.1\r\nHost: "@ + a + "\r\n"@;
            let req = http_connect_request_of(host, port, user);
            pre.len() <= req.len() && req.take(pre.len() as int) == pre
        }),
{
    let d = decimal_text(port as nat);
    lemma_decimal_text(port as nat);
    crate::text::law_decimal_port_roundtrip(port);
    let a = authority(host, port);
    let n: int = host.len() as int;
    assert(a == host + seq![':'] + d);
    assert forall|i: int| 0 <= i < d.len() implies d[i] != ':' by {
        assert('0' <= d[i] <= '9');
    }
    assert(a[n] == ':');
    assert forall|j: int| n < j < a.len() implies a[j] != ':' by {
        assert(a[j] == d[j - n - 1]);
    }
    lemma_last_index_is(a, ':', n);
    assert(a.skip(n + 1) == d);
    assert(a.take(n) == host);
    let pre = "CONNECT "@ + a + " HTTP/1.1\r\nHost: "@ + a + "\r\n"@;
    let m = match user {
        Some(u) => "Proxy-Authorization: Basic "@ + base64_standard(encode_utf8(u)) + "\r\n"@,
        None => seq![],
    };
    let req = http_connect_request_of(host, port, user);
    assert(req == pre + m + "\r\n"@);
    assert((pre + m + "\r\n"@).take(pre.len() as int) == pre);
}

/// How far the HTTP proxy's response has come.
#[derive(Clone, Copy, Debug, PartialEq, Eq)]
pub enum HttpResponseProgress {
    /// The headers are complete (the bytes end with an empty line).
    Complete,
    /// More bytes are needed.
    Incomplete,
    /// Over 8192 bytes without the end of the headers.
    TooLarge,
}

/// The largest response header that is read from an HTTP proxy.
pub const MAX_HTTP_RESPONSE: usize = 8192;

/// Where a response read byte by byte stands: complete once it ends with
/// CR LF CR LF, too large past 8192 bytes.
pub open spec fn http_progress_of(resp: Seq<u8>) -> HttpResponseProgress {
    if resp.len() >= 4 && resp.skip(resp.len() - 4) == seq![13u8, 10u8, 13u8, 10u8] {
        HttpResponseProgress::Complete
    } else if resp.len() > 8192 {
        HttpResponseProgress::TooLarge
    } else {
        HttpResponseProgress::Incomplete
    }
}

/// The headers of the HTTP proxy's response are complete exactly when the
/// bytes read end with the empty line CR LF CR LF; short of that, more bytes
/// are read up to 8192, and past that the response is too large.
pub proof fn law_http_headers_end_at_empty_line(resp: Seq<u8>)
    ensures
        ({
            let n = resp.len() as int;
            let ends = n >= 4 && resp[n - 4] == 13u8 && resp[n - 3] == 10u8 && resp[n - 2] == 13u8
                && resp[n - 1] == 10u8;
            &&& (http_progress_of(resp) == HttpResponseProgress::Complete) == ends
            &&& (http_progress_of(resp) == HttpResponseProgress::Incomplete) == (!ends && n <= 8192)
            &&& (http_progress_of(resp) == HttpResponseProgress::TooLarge) == (!ends && n > 8192)
        }),
{
    let n = resp.len() as int;
    if n >= 4 {
        let t = resp.skip(n - 4);
        assert(t[0] == resp[n - 4]);
        assert(t[1] == resp[n - 3]);
        assert(t[2] == resp[n - 2]);
        assert(t[3] == resp[n - 1]);
        if resp[n - 4] == 13u8 && resp[n - 3] == 10u8 && resp[n - 2] == 13u8 && resp[n - 1] == 10u8 {
            assert(t == seq![13u8, 10u8, 13u8, 10u8]);
        }
        if t == seq![13u8, 10u8, 13u8, 10u8] {
            assert(seq![13u8, 10u8, 13u8, 10u8][0] == 13u8);
        }
    }
}

/// Judges the response read so far, after each byte.
pub fn http_response_progress(response: &[u8]) -> (r: HttpResponseProgress)
    ensures
        r == http_progress_of(response@),
{
    let n = response.len();
    if n >= 4 && response[n - 4] == 13 && response[n - 3] == 10 && response[n - 2] == 13
        && response[n - 1] == 10 {
        assert(response@.skip(n - 4) == seq![13u8, 10u8, 13u8, 10u8]);
        HttpResponseProgress::Complete
    } else {
        proof {
            if n >= 4 {
                let t = response@.skip(n - 4);
                if t == seq![13u8, 10u8, 13u8, 10u8] {
                    assert(t[0] == response@[n - 4]);
                    assert(t[1] == response@[n - 3]);
                    assert(t[2] == response@[n - 2]);
                    assert(t[3] == response@[n - 1]);
                }
            }
        }
        if n > MAX_HTTP_RESPONSE {
            HttpResponseProgress::TooLarge
        } else {
            HttpResponseProgress::Incomplete
        }
    }
}

/// The first line of `s` as `str::lines` gives it: the text before the
/// first LF, without a CR right before that LF; the whole text when there
/// is no LF; nothing for empty text.
pub open spec fn first_line(s: Seq<char>) -> Option<Seq<char>> {
    if s.len() == 0 {
        None
    } else {
        match first_index_of(s, '\n') {
            Some(k) => {
                let l = s.take(k);
                Some(
                    if l.len() > 0 && l.last() == '\r' {
                        l.drop_last()
                    } else {
                        l
                    },
                )
            },
            None => Some(s),
        }
    }
}

/// The end of the run of non-white-space characters of `s` from `i`.
pub open spec fn token_end(s: Seq<char>, i: int) -> int
    decreases s.len() - i,
{
    if i < 0 || i >= s.len() || is_unicode_whitespace(s[i]) {
        i
    } else {
        token_end(s, i + 1)
    }
}

/// The end of the run of white space of `s` from `i`.
pub open spec fn space_end(s: Seq<char>, i: int) -> int
    decreases s.len() - i,
{
    if i < 0 || i >= s.len() || !is_unicode_whitespace(s[i]) {
        i
    } else {
        space_end(s, i + 1)
    }
}

/// What the status line of an HTTP proxy's answer means: it must start
/// with `HTTP/1.` and have a second white-space-separated word (the status
/// code), which must start with `2`.
pub open spec fn http_status_of(text: Seq<char>) -> Result<(), ProxyError> {
    match first_line(text) {
        None => Err(ProxyError::HttpEmptyResponse),
        Some(line) => if !(line.len() >= 7 && line.take(7) == "HTTP/1."@) {
            Err(ProxyError::HttpInvalidResponse)
        } else {
            let u = space_end(line, token_end(line, 0));
            if u >= line.len() {
                Err(ProxyError::HttpInvalidStatusLine)
            } else if line[u] != '2' {
                Err(ProxyError::HttpConnectFailed)
            } else {
                Ok(())
            }
        },
    }
}

/// The status line (first line) of `text`, for messages.
pub fn status_line(text: &str) -> (r: Option<String>)
    ensures
        match r {
            Some(l) => first_line(text@) == Some(l@),
            None => first_line(text@) is None,
        },
{
    let s = chars_of(text);
    if s.len() == 0 {
        return None;
    }
    match find_char(&s, '\n') {
        Some(k) => {
            proof {
                lemma_first_index_of(s@, '\n');
            }
            if k > 0 && s[k - 1] == '\r' {
                assert(s@.take(k as int).drop_last() == s@.subrange(0, k - 1));
                Some(string_from_range(&s, 0, k - 1))
            } else {
                assert(s@.take(k as int) == s@.subrange(0, k as int));
                Some(string_from_range(&s, 0, k))
            }
        },
        None => {
            assert(s@.subrange(0, s@.len() as int) == s@);
            Some(string_from_range(&s, 0, s.len()))
        },
    }
}

/// Checks the status of an HTTP proxy's answer, given as text.
pub fn check_http_connect_status(text: &str) -> (r: Result<(), ProxyError>)
    ensures
        r == http_status_of(text@),
{
    let line = match status_line(text) {
        None => return Err(ProxyError::HttpEmptyResponse),
        Some(l) => chars_of(l.as_str()),
    };
    let prefix = chars_of("HTTP/1.");
    proof {
        reveal_strlit("HTTP/1.");
    }
    let ghost fl = first_line(text@);
    assert(fl == Some(line@));
    if line.len() < 7 {
        return Err(ProxyError::HttpInvalidResponse);
    }
    let mut i: usize = 0;
    while i < 7
        invariant
            prefix@ == "HTTP/1."@,
            prefix@.len() == 7,
            fl == Some(line@),
            fl == first_line(text@),
            line@.len() >= 7,
            i <= 7,
            forall|j: int| 0 <= j < i ==> line@[j] == prefix@[j],
        decreases 7 - i,
    {
        if i >= prefix.len() || line[i] != prefix[i] {
            proof {
                if i < prefix.len() {
                    assert(line@.take(7)[i as int] != prefix@[i as int]);
                }
            }
            return Err(ProxyError::HttpInvalidResponse);
        }
        i = i + 1;
    }
    assert(line@.take(7) =~= "HTTP/1."@);
    let mut t: usize = 0;
    while t < line.len() && !is_whitespace(line[t])
        invariant
            fl == Some(line@),
            fl == first_line(text@),
            line@.take(7) == "HTTP/1."@,
            t <= line.len(),
            token_end(line@, 0) == token_end(line@, t as int),
        decreases line.len() - t,
    {
        t = t + 1;
    }
    let mut u: usize = t;
    while u < line.len() && is_whitespace(line[u])
        invariant
            fl == Some(line@),
            fl == first_line(text@),
            line@.take(7) == "HTTP/1."@,
            t <= u <= line.len(),
            token_end(line@, 0) == t,
            space_end(line@, t as int) == space_end(line@, u as int),
        decreases line.len() - u,
    {
        u = u + 1;
    }
    if u >= line.len() {
        Err(ProxyError::HttpInvalidStatusLine)
    } else if line[u] != '2' {
        Err(ProxyError::HttpConnectFailed)
    } else {
        Ok(())
    }
}

/// The text that `String::from_utf8_lossy` makes of `bytes`.
pub uninterp spec fn utf8_lossy(bytes: Seq<u8>) -> Seq<char>;

/// Decodes bytes with `String::from_utf8_lossy`.
///
/// Trusted: the result is what `utf8_lossy` names for the bytes, and for
/// valid UTF-8 it is the decoded text, as the documentation states. How
/// invalid sequences are replaced is not written out.
#[verifier::external_body]
fn decode_lossy(bytes: &[u8]) -> (r: String)
    ensures
        r@ == utf8_lossy(bytes@),
        valid_utf8(bytes@) ==> r@ == decode_utf8(bytes@),
{
    String::from_utf8_lossy(bytes).into_owned()
}

/// Checks the status of an HTTP proxy's answer as received (the header
/// bytes), read as text the way `String::from_utf8_lossy` reads it.
pub fn check_http_connect_response(response: &[u8]) -> (r: Result<(), ProxyError>)
    ensures
        r == http_status_of(utf8_lossy(response@)),
{
    let text = decode_lossy(response);
    check_http_connect_status(text.as_str())
}

/// No character of `s` is `c`, so `first_index_of` finds nothing.
proof fn lemma_no_first_index(s: Seq<char>, c: char)
    requires
        forall|i: int| 0 <= i < s.len() ==> s[i] != c,
    ensures
        first_index_of(s, c) is None,
{
    lemma_first_index_of(s, c);
    if first_index_of(s, c) is Some {
        let k = first_index_of(s, c)->0;
        assert(s[k] == c);
    }
}

/// The `host:port` text that the client forms for a target is read
/// back as that host and port when given as a proxy address, for any host
/// without a `]` (a bare IPv6 literal is put in brackets and taken out
/// again).
pub proof fn law_endpoint_reads_back(target: Seq<char>, port: u16, p_type: Seq<char>)
    requires
        !target.contains(']'),
        proxy_kind_of(p_type) is Some,
    ensures
        proxy_address_of(endpoint_text(target, port), p_type) == Ok::<(Seq<char>, u16), ProxyError>(
            (target, port),
        ),
{
    let d = decimal_text(port as nat);
    lemma_decimal_text(port as nat);
    crate::text::law_decimal_port_roundtrip(port);
    let e = endpoint_text(target, port);
    let n: int = target.len() as int;
    assert forall|i: int| 0 <= i < n implies target[i] != ']' by {
        if target[i] == ']' {
            assert(target.contains(']'));
        }
    }
    assert forall|i: int| 0 <= i < d.len() implies d[i] != ':' && d[i] != ']' by {
        assert('0' <= d[i] <= '9');
    }
    if !target.contains('[') && target.contains(':') {
        assert(e == seq!['['] + target + seq![']', ':'] + d);
        assert(e[n + 1] == ']');
        assert forall|j: int| 0 <= j < n + 1 implies e[j] != ']' by {
            if j > 0 {
                assert(e[j] == target[j - 1]);
            }
        }
        lemma_first_index_is(e, ']', n + 1);
        assert(e.subrange(1, n + 1) == target);
        let rest = e.skip(n + 2);
        assert(rest == seq![':'] + d);
        assert(rest.skip(1) == d);
    } else {
        assert(e == target + seq![':'] + d);
        assert forall|j: int| 0 <= j < e.len() implies e[j] != ']' by {
            if j < n {
                assert(e[j] == target[j]);
            } else if j > n {
                assert(e[j] == d[j - n - 1]);
            }
        }
        lemma_no_first_index(e, ']');
        assert forall|j: int| n < j < e.len() implies e[j] != ':' by {
            assert(e[j] == d[j - n - 1]);
        }
        lemma_last_index_is(e, ':', n);
        assert(e.skip(n + 1) == d);
        assert(e.take(n) == target);
    }
}

/// The protocol and address of a proxy: `-X` defaults to `5` (SOCKS5).
pub open spec fn proxy_plan_of(proxy_addr: Seq<char>, proxy_type: Option<Seq<char>>) -> Result<
    (ProxyKind, Seq<char>, u16),
    ProxyError,
> {
    let t = match proxy_type {
        Some(t) => t,
        None => "5"@,
    };
    match proxy_address_of(proxy_addr, t) {
        Ok((h, p)) => Ok((proxy_kind_of(t)->0, h, p)),
        Err(e) => Err(e),
    }
}

/// Decides which proxy protocol to speak and where the proxy is.
pub fn proxy_plan(proxy_addr: &str, proxy_type: Option<&str>) -> (r: Result<
    (ProxyKind, String, u16),
    ProxyError,
>)
    ensures
        match proxy_plan_of(
            proxy_addr@,
            match proxy_type {
                Some(t) => Some(t@),
                None => None,
            },
        ) {
            Ok((k, h, p)) => (r matches Ok((k2, h2, p2)) && k2 == k && h2@ == h && p2 == p),
            Err(e) => (r matches Err(e2) && e2 == e),
        },
{
    let t = match proxy_type {
        Some(t) => t,
        None => "5",
    };
    let kind = match proxy_kind(t) {
        Ok(k) => k,
        Err(e) => return Err(e),
    };
    match parse_proxy_address(proxy_addr, t) {
        Ok((h, p)) => Ok((kind, h, p)),
        Err(e) => Err(e),
    }
}

} // verus!
