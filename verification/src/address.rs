//! Address families and the `host:port` text of an endpoint.
use vstd::prelude::*;
use crate::text::{
    chars_of, contains_char, decimal_text, last_index_of, lemma_decimal_text, lemma_last_index_is,
    parse_u16, push_decimal,
};

verus! {

/// Which IP address family a name may resolve to (`-4`, `-6`, or either).
#[derive(Clone, Copy, Debug, PartialEq, Eq)]
pub enum AddressFamily {
    Any,
    Ipv4,
    Ipv6,
}

impl AddressFamily {
    /// Whether an address of the given family (`is_ipv4`) is acceptable.
    pub open spec fn spec_accepts(self, is_ipv4: bool) -> bool {
        match self {
            AddressFamily::Any => true,
            AddressFamily::Ipv4 => is_ipv4,
            AddressFamily::Ipv6 => !is_ipv4,
        }
    }

    /// Whether an address of the given family (`is_ipv4`) is acceptable.
    pub fn accepts(self, is_ipv4: bool) -> (r: bool)
        ensures
            r == self.spec_accepts(is_ipv4),
    {
        match self {
            AddressFamily::Any => true,
            AddressFamily::Ipv4 => is_ipv4,
            AddressFamily::Ipv6 => !is_ipv4,
        }
    }

    /// The name of the family in messages.
    pub fn label(self) -> (r: &'static str)
        ensures
            r@ == (match self {
                AddressFamily::Any => "IPv4/IPv6/DNS"@,
                AddressFamily::Ipv4 => "IPv4"@,
                AddressFamily::Ipv6 => "IPv6"@,
            }),
    {
        match self {
            AddressFamily::Any => "IPv4/IPv6/DNS",
            AddressFamily::Ipv4 => "IPv4",
            AddressFamily::Ipv6 => "IPv6",
        }
    }
}

/// The index of the first address that the family accepts, given the
/// family of each resolved address in order (`true` for IPv4).
pub open spec fn first_accepted(is_ipv4: Seq<bool>, family: AddressFamily) -> Option<int>
    decreases is_ipv4.len(),
{
    if is_ipv4.len() == 0 {
        None
    } else if family.spec_accepts(is_ipv4[0]) {
        Some(0)
    } else {
        match first_accepted(is_ipv4.skip(1), family) {
            Some(k) => Some(k + 1),
            None => None,
        }
    }
}

/// Picks, among resolved addresses given by their families in order
/// (`true` for IPv4), the first one of the wanted family.
pub fn select_address(is_ipv4: &Vec<bool>, family: AddressFamily) -> (r: Option<usize>)
    ensures
        match r {
            Some(i) => first_accepted(is_ipv4@, family) == Some(i as int) && i < is_ipv4@.len()
                && family.spec_accepts(is_ipv4@[i as int]),
            None => first_accepted(is_ipv4@, family) is None,
        },
{
    let mut i: usize = 0;
    assert(is_ipv4@.skip(0) == is_ipv4@);
    while i < is_ipv4.len()
        invariant
            i <= is_ipv4.len(),
            first_accepted(is_ipv4@, family) == (match first_accepted(is_ipv4@.skip(i as int), family) {
                Some(k) => Some(k + i),
                None => None,
            }),
        decreases is_ipv4.len() - i,
    {
        let ghost t = is_ipv4@.skip(i as int);
        assert(t[0] == is_ipv4@[i as int]);
        if family.accepts(is_ipv4[i]) {
            return Some(i);
        }
        assert(t.skip(1) == is_ipv4@.skip(i + 1));
        i = i + 1;
    }
    None
}

/// The `host:port` text of an endpoint, with the host in brackets when it
/// is a bare IPv6 literal (holds `:` and no `[`).
pub open spec fn endpoint_text(target: Seq<char>, port: u16) -> Seq<char> {
    if !target.contains('[') && target.contains(':') {
        seq!['['] + target + seq![']', ':'] + decimal_text(port as nat)
    } else {
        target + seq![':'] + decimal_text(port as nat)
    }
}

/// Forms the `host:port` text that name resolution takes.
pub fn format_endpoint(target: &str, port: u16) -> (r: String)
    ensures
        r@ == endpoint_text(target@, port),
{
    let t = chars_of(target);
    let mut s = String::new();
    if !contains_char(&t, '[') && contains_char(&t, ':') {
        crate::text::push_char(&mut s, '[');
        s.append(target);
        crate::text::push_char(&mut s, ']');
        crate::text::push_char(&mut s, ':');
    } else {
        s.append(target);
        crate::text::push_char(&mut s, ':');
    }
    push_decimal(&mut s, port as u64);
    assert(s@ == endpoint_text(target@, port));
    s
}


/// The host of a `host:port` text with the brackets around a `[host]` taken
/// off.
pub open spec fn unbracketed(host: Seq<char>) -> Seq<char> {
    if host.len() >= 2 && host[0] == '[' && host[host.len() - 1] == ']' {
        host.subrange(1, host.len() - 1)
    } else {
        host
    }
}

/// The host and port that a `host:port` text names: split at the last `:`,
/// the port read as a decimal `u16`, and the brackets around the host
/// taken off; `None` when there is no `:` or no port after it.
pub open spec fn endpoint_parts(text: Seq<char>) -> Option<(Seq<char>, u16)> {
    match last_index_of(text, ':') {
        Some(k) => match parse_u16(text.skip(k + 1)) {
            Some(p) => Some((unbracketed(text.take(k)), p)),
            None => None,
        },
        None => None,
    }
}

/// The `host:port` text of an endpoint splits back into the target and the
/// port, for every target without a `[` (such as the text of an IPv4 or
/// IPv6 address, or a host name): a bare IPv6 literal is put in brackets
/// and taken out again.
pub proof fn law_endpoint_text_roundtrip(target: Seq<char>, port: u16)
    requires
        !target.contains('['),
    ensures
        endpoint_parts(endpoint_text(target, port)) == Some((target, port)),
{
    let d = decimal_text(port as nat);
    lemma_decimal_text(port as nat);
    crate::text::law_decimal_port_roundtrip(port);
    let e = endpoint_text(target, port);
    let n: int = target.len() as int;
    assert forall|i: int| 0 <= i < d.len() implies d[i] != ':' by {
        assert('0' <= d[i] <= '9');
    }
    if target.contains(':') {
        assert(e == seq!['['] + target + seq![']', ':'] + d);
        assert(e[n + 2] == ':');
        assert forall|j: int| n + 2 < j < e.len() implies e[j] != ':' by {
            assert(e[j] == d[j - n - 3]);
        }
        lemma_last_index_is(e, ':', n + 2);
        assert(e.skip(n + 3) == d);
        let h = e.take(n + 2);
        assert(h == seq!['['] + target + seq![']']);
        assert(h[0] == '[');
        assert(h[h.len() - 1] == ']');
        assert(h.subrange(1, h.len() - 1) == target);
    } else {
        assert(e == target + seq![':'] + d);
        assert(e[n] == ':');
        assert forall|j: int| n < j < e.len() implies e[j] != ':' by {
            assert(e[j] == d[j - n - 1]);
        }
        lemma_last_index_is(e, ':', n);
        assert(e.skip(n + 1) == d);
        assert(e.take(n) == target);
        if n >= 2 && target[0] == '[' {
            assert(target.contains('['));
        }
    }
}

} // verus!
