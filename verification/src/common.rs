//! Reading port lists and type-of-service values given on the command line.
use vstd::prelude::*;
use crate::text::{chars_of, find_char, first_index_of, lemma_first_index_of, parse_u16, parse_unsigned, parse_unsigned_range, rfind_char};

verus! {

/// The ports `start`, `start + 1`, ..., `end`.
pub open spec fn port_span(start: u16, end: u16) -> Seq<u16> {
    Seq::new((end - start + 1) as nat, |i: int| (start + i) as u16)
}

/// What a port argument stands for: a single port (`80`), an inclusive
/// range written with exactly one `-` (`20-100`), or nothing when the text
/// is neither or the range runs backwards.
pub open spec fn port_range_of(s: Seq<char>) -> Seq<u16> {
    match parse_u16(s) {
        Some(p) => seq![p],
        None => match first_index_of(s, '-') {
            Some(k) => if !s.skip(k + 1).contains('-') {
                match (parse_u16(s.take(k)), parse_u16(s.skip(k + 1))) {
                    (Some(a), Some(b)) => if a <= b {
                        port_span(a, b)
                    } else {
                        seq![]
                    },
                    _ => seq![],
                }
            } else {
                seq![]
            },
            None => seq![],
        },
    }
}

/// Parses a port argument: `80`, or a range such as `20-100`.
///
/// The ports of a range come out in ascending order, one apart.
pub fn parse_port_range(port_str: &str) -> (ports: Vec<u16>)
    ensures
        ports@ == port_range_of(port_str@),
        forall|i: int, j: int| 0 <= i <= j < ports@.len() ==> ports@[j] == ports@[i] + (j - i),
{
    let s = chars_of(port_str);
    let whole = parse_unsigned_range(&s, 0, s.len(), 10, 65535);
    assert(s@.subrange(0, s@.len() as int) == s@);
    if let Some(p) = whole {
        let mut v = Vec::new();
        v.push(p as u16);
        return v;
    }
    let first = find_char(&s, '-');
    let last = rfind_char(&s, '-');
    match (first, last) {
        (Some(k), Some(l)) => {
            proof {
                lemma_first_index_of(s@, '-');
            }
            if k != l {
                assert(s@.skip(k + 1)[l - k - 1] == '-');
                return Vec::new();
            }
            assert(!s@.skip(k + 1).contains('-')) by {
                assert forall|j: int| 0 <= j < s@.skip(k + 1).len() implies #[trigger] s@.skip(k + 1)[j] != '-' by {
                    assert(s@.skip(k + 1)[j] == s@[k + 1 + j]);
                }
            }
            let a = parse_unsigned_range(&s, 0, k, 10, 65535);
            let b = parse_unsigned_range(&s, k + 1, s.len(), 10, 65535);
            assert(s@.subrange(0, k as int) == s@.take(k as int));
            assert(s@.subrange(k + 1, s@.len() as int) == s@.skip(k + 1));
            match (a, b) {
                (Some(a), Some(b)) => {
                    let a = a as u16;
                    let b = b as u16;
                    if a <= b {
                        span(a, b)
                    } else {
                        Vec::new()
                    }
                },
                _ => Vec::new(),
            }
        },
        (None, _) => Vec::new(),
        (Some(k), None) => {
            proof {
                lemma_first_index_of(s@, '-');
                assert(s@.contains('-')) by {
                    assert(s@[k as int] == '-');
                }
            }
            Vec::new()
        },
    }
}

/// The ports from `a` to `b`, inclusive.
fn span(a: u16, b: u16) -> (r: Vec<u16>)
    requires
        a <= b,
    ensures
        r@ == port_span(a, b),
{
    let mut v: Vec<u16> = Vec::new();
    let mut p = a;
    loop
        invariant
            a <= p <= b,
            v@ == port_span(a, b).take(p - a),
        decreases b - p,
    {
        v.push(p);
        assert(v@ == port_span(a, b).take(p - a + 1));
        if p == b {
            assert(v@ == port_span(a, b));
            return v;
        }
        p = p + 1;
    }
}

/// The Unicode scalar value of `c`, with the ASCII capitals `A`-`Z` taken to
/// their small letters.
pub open spec fn ascii_lower_code(c: char) -> int {
    if 'A' <= c && c <= 'Z' {
        c as int + 32
    } else {
        c as int
    }
}

/// `s` spells `keyword` (a word of small ASCII letters) in any mix of
/// capital and small letters. For the words used here this is the same
/// as the Unicode lower-case form of `s` being `keyword`: no character
/// outside `A`-`Z` has a lower-case form among their letters.
pub open spec fn spells_keyword(s: Seq<char>, keyword: Seq<char>) -> bool {
    s.len() == keyword.len() && forall|i: int| 0 <= i < s.len() ==> ascii_lower_code(s[i]) == keyword[i] as int
}

/// The value of a type-of-service keyword of OpenBSD `nc`.
pub open spec fn tos_keyword_value(s: Seq<char>) -> Option<u8> {
    if spells_keyword(s, "critical"@) {
        Some(0xa0)
    } else if spells_keyword(s, "inetcontrol"@) {
        Some(0xc0)
    } else if spells_keyword(s, "lowcost"@) {
        Some(0x02)
    } else if spells_keyword(s, "lowdelay"@) {
        Some(0x10)
    } else if spells_keyword(s, "netcontrol"@) {
        Some(0xe0)
    } else if spells_keyword(s, "throughput"@) {
        Some(0x08)
    } else if spells_keyword(s, "reliability"@) {
        Some(0x04)
    } else {
        None
    }
}

/// What a `-T` argument stands for: a keyword, else `0x` followed by a
/// hexadecimal byte, else a decimal byte.
pub open spec fn tos_of(s: Seq<char>) -> Option<u8> {
    match tos_keyword_value(s) {
        Some(v) => Some(v),
        None => {
            let n = if s.len() >= 2 && s[0] == '0' && s[1] == 'x' {
                parse_unsigned(s.skip(2), 16, 255)
            } else {
                parse_unsigned(s, 10, 255)
            };
            match n {
                Some(v) => Some(v as u8),
                None => None,
            }
        },
    }
}

fn spells(s: &Vec<char>, keyword: &str) -> (r: bool)
    ensures
        r == spells_keyword(s@, keyword@),
{
    let k = chars_of(keyword);
    if s.len() != k.len() {
        return false;
    }
    let mut i: usize = 0;
    while i < s.len()
        invariant
            s@.len() == k@.len(),
            k@ == keyword@,
            i <= s.len(),
            forall|j: int| 0 <= j < i ==> ascii_lower_code(s@[j]) == k@[j] as int,
        decreases s.len() - i,
    {
        let c = s[i];
        let kc = k[i];
        let same = if 'A' <= c && c <= 'Z' {
            'a' <= kc && kc <= 'z' && (c as u32) + 32 == (kc as u32)
        } else {
            c == kc
        };
        if !same {
            return false;
        }
        i = i + 1;
    }
    true
}

/// Parses a type-of-service / traffic-class value: one of the keywords
/// `critical`, `inetcontrol`, `lowcost`, `lowdelay`, `netcontrol`,
/// `throughput`, `reliability` (in any case), a hexadecimal byte written
/// `0x..`, or a decimal byte.
pub fn parse_tos(tos: &str) -> (r: Option<u8>)
    ensures
        r == tos_of(tos@),
{
    let s = chars_of(tos);
    if spells(&s, "critical") {
        Some(0xa0)
    } else if spells(&s, "inetcontrol") {
        Some(0xc0)
    } else if spells(&s, "lowcost") {
        Some(0x02)
    } else if spells(&s, "lowdelay") {
        Some(0x10)
    } else if spells(&s, "netcontrol") {
        Some(0xe0)
    } else if spells(&s, "throughput") {
        Some(0x08)
    } else if spells(&s, "reliability") {
        Some(0x04)
    } else {
        let n = if s.len() >= 2 && s[0] == '0' && s[1] == 'x' {
            assert(s@.subrange(2, s@.len() as int) == s@.skip(2));
            parse_unsigned_range(&s, 2, s.len(), 16, 255)
        } else {
            assert(s@.subrange(0, s@.len() as int) == s@);
            parse_unsigned_range(&s, 0, s.len(), 10, 255)
        };
        match n {
            Some(v) => Some(v as u8),
            None => None,
        }
    }
}

/// A socket option that the command line asks for.
#[derive(Clone, Copy, Debug, PartialEq, Eq)]
pub enum SocketOption {
    /// `SOL_SOCKET` / `SO_DEBUG`.
    Debug,
    /// `IPPROTO_IP` / `IP_TTL`.
    IpTtl,
    /// `IPPROTO_IPV6` / `IPV6_UNICAST_HOPS`.
    Ipv6UnicastHops,
    /// `IPPROTO_IP` / `IP_TOS`.
    IpTos,
    /// `IPPROTO_IPV6` / `IPV6_TCLASS`.
    Ipv6TrafficClass,
    /// `IPPROTO_IP` / `IP_MINTTL`.
    MinTtl,
    /// `IPPROTO_TCP` / `TCP_MD5SIG`.
    TcpMd5Sig,
}

/// A socket option and the integer value it is set to.
#[derive(Clone, Copy, Debug, PartialEq, Eq)]
pub struct SocketOptionRequest {
    pub option: SocketOption,
    pub value: i32,
}

/// `-D`: the option that turning on socket debugging writes, `SO_DEBUG`
/// set to 1; the caller makes the `setsockopt(2)` call.
pub fn set_socket_debug() -> (r: SocketOptionRequest)
    ensures
        r == (SocketOptionRequest { option: SocketOption::Debug, value: 1 }),
{
    SocketOptionRequest { option: SocketOption::Debug, value: 1 }
}

/// `-M`: the option that setting the TTL writes: the TTL of an IPv4
/// socket, the unicast hop limit of an IPv6 socket, set to `ttl` taken as a
/// C `int` (wrapping above `i32::MAX`); the caller makes the `setsockopt(2)`
/// call.
pub fn set_socket_ttl(ttl: u32, is_ipv4: bool) -> (r: SocketOptionRequest)
    ensures
        r.option == (if is_ipv4 {
            SocketOption::IpTtl
        } else {
            SocketOption::Ipv6UnicastHops
        }),
        r.value == ttl as i32,
{
    let value = ttl as i32;
    if is_ipv4 {
        SocketOptionRequest { option: SocketOption::IpTtl, value }
    } else {
        SocketOptionRequest { option: SocketOption::Ipv6UnicastHops, value }
    }
}

/// `-T`: the option that setting the type of service writes: the type of
/// service of an IPv4 socket, the traffic class of an IPv6 socket; the
/// caller makes the `setsockopt(2)` call.
pub fn set_socket_tos(tos: u8, is_ipv4: bool) -> (r: SocketOptionRequest)
    ensures
        r.option == (if is_ipv4 {
            SocketOption::IpTos
        } else {
            SocketOption::Ipv6TrafficClass
        }),
        r.value == tos as i32,
{
    if is_ipv4 {
        SocketOptionRequest { option: SocketOption::IpTos, value: tos as i32 }
    } else {
        SocketOptionRequest { option: SocketOption::Ipv6TrafficClass, value: tos as i32 }
    }
}


/// `-m`: the option that setting the minimum TTL of incoming packets
/// writes, `IP_MINTTL` set to `minttl` taken as a C `int` (wrapping above
/// `i32::MAX`); the caller makes the `setsockopt(2)` call.
pub fn set_socket_minttl(minttl: u32) -> (r: SocketOptionRequest)
    ensures
        r.option == SocketOption::MinTtl,
        r.value == minttl as i32,
{
    SocketOptionRequest { option: SocketOption::MinTtl, value: minttl as i32 }
}

/// `-S`: the option that turning on TCP MD5 signatures writes,
/// `TCP_MD5SIG` set to 1; the caller makes the `setsockopt(2)` call.
pub fn set_socket_tcp_md5sig() -> (r: SocketOptionRequest)
    ensures
        r == (SocketOptionRequest { option: SocketOption::TcpMd5Sig, value: 1 }),
{
    SocketOptionRequest { option: SocketOption::TcpMd5Sig, value: 1 }
}

} // verus!
