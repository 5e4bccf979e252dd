//! IP addresses written as text, read the way `std::net` reads them.
use vstd::prelude::*;
use crate::text::{
    all_digits, chars_of, digits_value, find_char_from, first_index_of, lemma_first_index_of,
    parse_unsigned_range,
};

verus! {

/// The pieces of `s` between the occurrences of `c` (as `str::split`).
pub open spec fn split_on(s: Seq<char>, c: char) -> Seq<Seq<char>>
    decreases s.len(),
{
    match first_index_of(s, c) {
        None => seq![s],
        Some(k) => {
            proof {
                lemma_first_index_of(s, c);
            }
            seq![s.take(k)] + split_on(s.skip(k + 1), c)
        },
    }
}

/// One part of a dotted IPv4 address as `std::net::Ipv4Addr` reads it: one
/// to three decimal digits, without a leading zero unless the part is `0`,
/// with a value of at most 255.
pub open spec fn ipv4_part(s: Seq<char>) -> Option<u8> {
    if 1 <= s.len() <= 3 && all_digits(s, 10) && !(s.len() > 1 && s[0] == '0') && digits_value(s, 10)
        <= 255 {
        Some(digits_value(s, 10) as u8)
    } else {
        None
    }
}

/// The four octets of the IPv4 address written as `s` (four parts split by
/// dots), if `s` is one.
pub open spec fn ipv4_of(s: Seq<char>) -> Option<Seq<u8>> {
    let parts = split_on(s, '.');
    if parts.len() == 4 && ipv4_part(parts[0]) is Some && ipv4_part(parts[1]) is Some && ipv4_part(
        parts[2],
    ) is Some && ipv4_part(parts[3]) is Some {
        Some(
            seq![
                ipv4_part(parts[0])->0,
                ipv4_part(parts[1])->0,
                ipv4_part(parts[2])->0,
                ipv4_part(parts[3])->0,
            ],
        )
    } else {
        None
    }
}

/// Reads the part `s[from..to]` of a dotted IPv4 address.
fn ipv4_part_at(s: &Vec<char>, from: usize, to: usize) -> (r: Option<u8>)
    requires
        from <= to <= s.len(),
    ensures
        r == ipv4_part(s@.subrange(from as int, to as int)),
{
    let ghost p = s@.subrange(from as int, to as int);
    if to - from < 1 || to - from > 3 {
        return None;
    }
    if to - from > 1 && s[from] == '0' {
        assert(p[0] == '0');
        return None;
    }
    if s[from] == '+' {
        assert(p[0] == '+');
        assert(!all_digits(p, 10)) by {
            assert(crate::text::digit_value(p[0], 10) is None);
        }
        return None;
    }
    assert(p.len() > 0 && p[0] != '+');
    match parse_unsigned_range(s, from, to, 10, 255) {
        Some(v) => Some(v as u8),
        None => None,
    }
}

/// Where the next part of `s[from..]` ends, and whether a separator `c`
/// ends it.
fn next_part(s: &Vec<char>, from: usize, c: char) -> (r: (usize, bool))
    requires
        from <= s.len(),
    ensures
        from <= r.0 <= s.len(),
        r.1 ==> r.0 < s.len(),
        ({
            let t = s@.skip(from as int);
            &&& r.1 ==> split_on(t, c) == seq![s@.subrange(from as int, r.0 as int)] + split_on(
                s@.skip(r.0 + 1),
                c,
            )
            &&& !r.1 ==> r.0 == s.len() && split_on(t, c) == seq![t]
        }),
{
    let ghost t = s@.skip(from as int);
    match find_char_from(s, from, c) {
        Some(i) => {
            assert(t.take(i - from) == s@.subrange(from as int, i as int));
            assert(t.skip(i - from + 1) == s@.skip(i + 1));
            (i, true)
        },
        None => (s.len(), false),
    }
}

/// Reads an IPv4 address such as `127.0.0.1` (`std::net::Ipv4Addr` text).
pub fn parse_ipv4(s: &Vec<char>) -> (r: Option<[u8; 4]>)
    ensures
        match r {
            Some(a) => ipv4_of(s@) == Some(a@),
            None => ipv4_of(s@) is None,
        },
{
    assert(s@.skip(0) == s@);
    let (e0, d0) = next_part(s, 0, '.');
    if !d0 {
        return None;
    }
    let (e1, d1) = next_part(s, e0 + 1, '.');
    if !d1 {
        return None;
    }
    let (e2, d2) = next_part(s, e1 + 1, '.');
    if !d2 {
        return None;
    }
    let (e3, d3) = next_part(s, e2 + 1, '.');
    let ghost parts = split_on(s@, '.');
    if d3 {
        assert(parts.len() > 4) by {
            assert(parts == seq![s@.subrange(0, e0 as int)] + (seq![s@.subrange(e0 + 1, e1 as int)]
                + (seq![s@.subrange(e1 + 1, e2 as int)] + (seq![s@.subrange(e2 + 1, e3 as int)]
                + split_on(s@.skip(e3 + 1), '.')))));
        }
        return None;
    }
    assert(s@.skip(e2 + 1) == s@.subrange(e2 + 1, e3 as int));
    assert(parts =~= seq![
        s@.subrange(0, e0 as int),
        s@.subrange(e0 + 1, e1 as int),
        s@.subrange(e1 + 1, e2 as int),
        s@.subrange(e2 + 1, e3 as int),
    ]);
    let a = ipv4_part_at(s, 0, e0);
    let b = ipv4_part_at(s, e0 + 1, e1);
    let c = ipv4_part_at(s, e1 + 1, e2);
    let d = ipv4_part_at(s, e2 + 1, e3);
    match (a, b, c, d) {
        (Some(a), Some(b), Some(c), Some(d)) => {
            let r = [a, b, c, d];
            assert(r@ == seq![a, b, c, d]);
            Some(r)
        },
        _ => None,
    }
}

/// An IPv4 or IPv6 address.
#[derive(Clone, Copy, Debug, PartialEq, Eq)]
pub enum IpAddress {
    V4([u8; 4]),
    V6([u8; 16]),
}

/// An address as its family (`true` for IPv4) and octets.
pub open spec fn ip_view(a: IpAddress) -> (bool, Seq<u8>) {
    match a {
        IpAddress::V4(o) => (true, o@),
        IpAddress::V6(o) => (false, o@),
    }
}

/// The address written as `text` (as `std::net::IpAddr` reads it): IPv4
/// text first, else IPv6 text, where `ipv6` is what `std::net::Ipv6Addr`
/// reads from the same text.
pub open spec fn ip_of(text: Seq<char>, ipv6: Option<Seq<u8>>) -> Option<(bool, Seq<u8>)> {
    match ipv4_of(text) {
        Some(o) => Some((true, o)),
        None => match ipv6 {
            Some(o) => Some((false, o)),
            None => None,
        },
    }
}

/// The octets of an optional IPv6 address.
pub open spec fn ipv6_view(a: Option<[u8; 16]>) -> Option<Seq<u8>> {
    match a {
        Some(o) => Some(o@),
        None => None,
    }
}

/// Reads an IPv4 address from text.
pub fn ipv4_from_text(text: &str) -> (r: Option<[u8; 4]>)
    ensures
        match r {
            Some(a) => ipv4_of(text@) == Some(a@),
            None => ipv4_of(text@) is None,
        },
{
    let s = chars_of(text);
    parse_ipv4(&s)
}

/// Reads an IP address of either family from `text`, given what
/// `std::net::Ipv6Addr` reads from it (the IPv6 grammar is read outside the
/// library).
pub fn ip_from_text(text: &str, ipv6: Option<[u8; 16]>) -> (r: Option<IpAddress>)
    ensures
        match r {
            Some(a) => ip_of(text@, ipv6_view(ipv6)) == Some(ip_view(a)),
            None => ip_of(text@, ipv6_view(ipv6)) is None,
        },
{
    match ipv4_from_text(text) {
        Some(o) => Some(IpAddress::V4(o)),
        None => match ipv6 {
            Some(o) => Some(IpAddress::V6(o)),
            None => None,
        },
    }
}

/// An IP address and a port.
#[derive(Clone, Copy, Debug, PartialEq, Eq)]
pub struct SocketAddress {
    pub ip: IpAddress,
    pub port: u16,
}

} // verus!
