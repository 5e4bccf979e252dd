//! Characters, digits and decimal numbers: the text handling that the rest
//! of the library builds on.
use vstd::prelude::*;

verus! {

/// The characters of `s`, in order.
pub fn chars_of(s: &str) -> (r: Vec<char>)
    ensures
        r@ == s@,
{
    let mut v: Vec<char> = Vec::new();
    for c in it: s.chars()
        invariant
            v@ == it.seq().take(it.index() as int),
    {
        v.push(c);
    }
    assert(v@ == s@);
    v
}

/// Appends one character to a `String` (`String::push`).
#[verifier::external_body]
pub(crate) fn push_char(s: &mut String, c: char)
    ensures
        final(s)@ == old(s)@.push(c),
{
    s.push(c)
}

/// Whether `c` occurs in `s`.
pub fn contains_char(s: &Vec<char>, c: char) -> (r: bool)
    ensures
        r == s@.contains(c),
{
    let mut i: usize = 0;
    while i < s.len()
        invariant
            i <= s.len(),
            forall|j: int| 0 <= j < i ==> s@[j] != c,
        decreases s.len() - i,
    {
        if s[i] == c {
            assert(s@[i as int] == c);
            return true;
        }
        i = i + 1;
    }
    false
}

/// The index of the first `c` in `s`, if any.
pub open spec fn first_index_of(s: Seq<char>, c: char) -> Option<int>
    decreases s.len(),
{
    if s.len() == 0 {
        None
    } else if s[0] == c {
        Some(0)
    } else {
        match first_index_of(s.skip(1), c) {
            Some(k) => Some(k + 1),
            None => None,
        }
    }
}

/// `first_index_of` finds the first `c`, and only finds nothing when there
/// is none.
pub proof fn lemma_first_index_of(s: Seq<char>, c: char)
    ensures
        match first_index_of(s, c) {
            Some(k) => 0 <= k < s.len() && s[k] == c && forall|j: int| 0 <= j < k ==> s[j] != c,
            None => !s.contains(c),
        },
    decreases s.len(),
{
    if s.len() > 0 && s[0] != c {
        lemma_first_index_of(s.skip(1), c);
        match first_index_of(s.skip(1), c) {
            Some(k) => {
                assert forall|j: int| 0 <= j < k + 1 implies s[j] != c by {
                    if j > 0 {
                        assert(s[j] == s.skip(1)[j - 1]);
                    }
                }
            },
            None => {
                if s.contains(c) {
                    let j = choose|j: int| 0 <= j < s.len() && s[j] == c;
                    assert(s.skip(1)[j - 1] == c);
                }
            },
        }
    }
}

/// A position `k` that holds the first `c` is what `first_index_of` gives.
pub proof fn lemma_first_index_is(s: Seq<char>, c: char, k: int)
    requires
        0 <= k < s.len(),
        s[k] == c,
        forall|j: int| 0 <= j < k ==> s[j] != c,
    ensures
        first_index_of(s, c) == Some(k),
{
    lemma_first_index_of(s, c);
    match first_index_of(s, c) {
        Some(m) => {
            if m < k {
                assert(s[m] != c);
            }
            if k < m {
                assert(s[k] != c);
            }
        },
        None => {
            assert(s.contains(c)) by {
                assert(s[k] == c);
            }
        },
    }
}

/// Finds the first occurrence of `c` in `s[from..]`, as an index into `s`.
pub fn find_char_from(s: &Vec<char>, from: usize, c: char) -> (r: Option<usize>)
    requires
        from <= s.len(),
    ensures
        match r {
            Some(i) => from <= i < s@.len() && first_index_of(s@.skip(from as int), c) == Some(
                i - from,
            ),
            None => first_index_of(s@.skip(from as int), c) is None,
        },
{
    let ghost t = s@.skip(from as int);
    let mut i: usize = from;
    while i < s.len()
        invariant
            from <= i <= s.len(),
            t == s@.skip(from as int),
            forall|j: int| from <= j < i ==> s@[j] != c,
        decreases s.len() - i,
    {
        if s[i] == c {
            proof {
                assert forall|j: int| 0 <= j < i - from implies t[j] != c by {
                    assert(t[j] == s@[from + j]);
                }
                lemma_first_index_is(t, c, i - from);
            }
            return Some(i);
        }
        i = i + 1;
    }
    proof {
        lemma_first_index_of(t, c);
        if first_index_of(t, c) is Some {
            let k = first_index_of(t, c)->0;
            assert(t[k] == s@[from + k]);
        }
    }
    None
}

/// Finds the first occurrence of `c` in `s`.
pub fn find_char(s: &Vec<char>, c: char) -> (r: Option<usize>)
    ensures
        match r {
            Some(i) => first_index_of(s@, c) == Some(i as int),
            None => first_index_of(s@, c) is None,
        },
{
    assert(s@.skip(0) == s@);
    find_char_from(s, 0, c)
}

/// The index of the last `c` in `s`, if any.
pub open spec fn last_index_of(s: Seq<char>, c: char) -> Option<int>
    decreases s.len(),
{
    if s.len() == 0 {
        None
    } else if s.last() == c {
        Some(s.len() - 1)
    } else {
        last_index_of(s.drop_last(), c)
    }
}

/// A position `k` that holds the last `c` is what `last_index_of` gives.
pub proof fn lemma_last_index_is(s: Seq<char>, c: char, k: int)
    requires
        0 <= k < s.len(),
        s[k] == c,
        forall|j: int| k < j < s.len() ==> s[j] != c,
    ensures
        last_index_of(s, c) == Some(k),
    decreases s.len(),
{
    if k < s.len() - 1 {
        let p = s.drop_last();
        assert forall|j: int| k < j < p.len() implies p[j] != c by {
            assert(p[j] == s[j]);
        }
        lemma_last_index_is(p, c, k);
    }
}

/// `last_index_of` gives nothing when `c` does not occur.
pub proof fn lemma_last_index_none(s: Seq<char>, c: char)
    requires
        forall|j: int| 0 <= j < s.len() ==> s[j] != c,
    ensures
        last_index_of(s, c) is None,
    decreases s.len(),
{
    if s.len() > 0 {
        let p = s.drop_last();
        assert forall|j: int| 0 <= j < p.len() implies p[j] != c by {
            assert(p[j] == s[j]);
        }
        lemma_last_index_none(p, c);
    }
}

/// Finds the last occurrence of `c` in `s`.
pub fn rfind_char(s: &Vec<char>, c: char) -> (r: Option<usize>)
    ensures
        match r {
            Some(i) => i < s@.len() && s@[i as int] == c && forall|j: int| i < j < s@.len() ==> s@[j] != c,
            None => !s@.contains(c),
        },
        match r {
            Some(i) => last_index_of(s@, c) == Some(i as int),
            None => last_index_of(s@, c) is None,
        },
{
    let mut i: usize = s.len();
    while i > 0
        invariant
            i <= s.len(),
            forall|j: int| i <= j < s@.len() ==> s@[j] != c,
        decreases i,
    {
        if s[i - 1] == c {
            proof {
                lemma_last_index_is(s@, c, i - 1);
            }
            return Some(i - 1);
        }
        i = i - 1;
    }
    proof {
        lemma_last_index_none(s@, c);
    }
    None
}

/// A `String` holding `v[from..to]`.
pub fn string_from_range(v: &Vec<char>, from: usize, to: usize) -> (r: String)
    requires
        from <= to <= v.len(),
    ensures
        r@ == v@.subrange(from as int, to as int),
{
    let mut s = String::new();
    let mut i: usize = from;
    while i < to
        invariant
            from <= i <= to <= v.len(),
            s@ == v@.subrange(from as int, i as int),
        decreases to - i,
    {
        push_char(&mut s, v[i]);
        i = i + 1;
        assert(s@ == v@.subrange(from as int, i as int));
    }
    s
}

/// Whether the texts `a` and `b` are the same.
pub fn text_eq(a: &str, b: &str) -> (r: bool)
    ensures
        r == (a@ == b@),
{
    let x = chars_of(a);
    let y = chars_of(b);
    if x.len() != y.len() {
        return false;
    }
    let mut i: usize = 0;
    while i < x.len()
        invariant
            x@ == a@,
            y@ == b@,
            x@.len() == y@.len(),
            i <= x.len(),
            forall|j: int| 0 <= j < i ==> x@[j] == y@[j],
        decreases x.len() - i,
    {
        if x[i] != y[i] {
            assert(x@[i as int] != y@[i as int]);
            return false;
        }
        i = i + 1;
    }
    assert(x@ =~= y@);
    true
}

/// `char::is_whitespace`: the characters with the Unicode `White_Space`
/// property.
pub open spec fn is_unicode_whitespace(c: char) -> bool {
    ('\u{9}' <= c && c <= '\u{d}') || c == ' ' || c == '\u{85}' || c == '\u{a0}' || c == '\u{1680}'
        || ('\u{2000}' <= c && c <= '\u{200a}') || c == '\u{2028}' || c == '\u{2029}' || c
        == '\u{202f}' || c == '\u{205f}' || c == '\u{3000}'
}

/// Whether `c` is white space in the sense of `char::is_whitespace`.
pub fn is_whitespace(c: char) -> (r: bool)
    ensures
        r == is_unicode_whitespace(c),
{
    ('\u{9}' <= c && c <= '\u{d}') || c == ' ' || c == '\u{85}' || c == '\u{a0}' || c == '\u{1680}'
        || ('\u{2000}' <= c && c <= '\u{200a}') || c == '\u{2028}' || c == '\u{2029}' || c
        == '\u{202f}' || c == '\u{205f}' || c == '\u{3000}'
}

/// The value of `c` as a digit of base `radix` (10 or 16), in the way
/// `char::to_digit` reads it: `0`-`9`, and for base 16 also `a`-`f` and `A`-`F`.
pub open spec fn digit_value(c: char, radix: nat) -> Option<int> {
    if '0' <= c && c <= '9' {
        Some(c as int - '0' as int)
    } else if radix == 16 && 'a' <= c && c <= 'f' {
        Some(c as int - 'a' as int + 10)
    } else if radix == 16 && 'A' <= c && c <= 'F' {
        Some(c as int - 'A' as int + 10)
    } else {
        None
    }
}

/// Every character of `s` is a digit of base `radix`.
pub open spec fn all_digits(s: Seq<char>, radix: nat) -> bool {
    forall|i: int| 0 <= i < s.len() ==> #[trigger] digit_value(s[i], radix) is Some
}

/// The number that the digits `s` spell in base `radix`, most significant first.
pub open spec fn digits_value(s: Seq<char>, radix: nat) -> int
    decreases s.len(),
{
    if s.len() == 0 {
        0
    } else {
        digits_value(s.drop_last(), radix) * radix + digit_value(s.last(), radix)->0
    }
}

/// What `str::parse` / `from_str_radix` gives for an unsigned integer type
/// whose largest value is `max`: an optional leading `+`, then one or more
/// digits of base `radix`, whose value is at most `max`; anything else is
/// refused.
pub open spec fn parse_unsigned(s: Seq<char>, radix: nat, max: int) -> Option<int> {
    let d = if s.len() > 0 && s[0] == '+' { s.skip(1) } else { s };
    if d.len() > 0 && all_digits(d, radix) && digits_value(d, radix) <= max {
        Some(digits_value(d, radix))
    } else {
        None
    }
}

/// What `str::parse::<u16>` gives.
pub open spec fn parse_u16(s: Seq<char>) -> Option<u16> {
    match parse_unsigned(s, 10, 65535) {
        Some(v) => Some(v as u16),
        None => None,
    }
}

/// The value of a digit, if `c` is one in base `radix`.
pub fn digit_of(c: char, radix: u32) -> (r: Option<u32>)
    requires
        radix == 10 || radix == 16,
    ensures
        match r {
            Some(v) => digit_value(c, radix as nat) == Some(v as int) && v < radix,
            None => digit_value(c, radix as nat) is None,
        },
{
    if '0' <= c && c <= '9' {
        Some((c as u32) - ('0' as u32))
    } else if radix == 16 && 'a' <= c && c <= 'f' {
        Some((c as u32) - ('a' as u32) + 10)
    } else if radix == 16 && 'A' <= c && c <= 'F' {
        Some((c as u32) - ('A' as u32) + 10)
    } else {
        None
    }
}

proof fn lemma_digits_value_nonneg(s: Seq<char>, radix: nat)
    requires
        all_digits(s, radix),
        radix == 10 || radix == 16,
    ensures
        digits_value(s, radix) >= 0,
    decreases s.len(),
{
    if s.len() > 0 {
        assert(all_digits(s.drop_last(), radix)) by {
            assert forall|i: int| 0 <= i < s.drop_last().len() implies #[trigger] digit_value(
                s.drop_last()[i],
                radix,
            ) is Some by {
                assert(s.drop_last()[i] == s[i]);
            }
        }
        lemma_digits_value_nonneg(s.drop_last(), radix);
        assert(digit_value(s[s.len() - 1], radix) is Some);
        assert(digits_value(s.drop_last(), radix) * radix >= 0) by (nonlinear_arith)
            requires
                digits_value(s.drop_last(), radix) >= 0,
        ;
    }
}

/// Capping at `cap` commutes with one more digit step.
proof fn lemma_capped_step(v: int, r: int, d: int, cap: int)
    requires
        v >= 0,
        r >= 1,
        d >= 0,
        cap >= 1,
    ensures
        ({
            let c = if v < cap { v } else { cap };
            let x = c * r + d;
            let y = v * r + d;
            (if x < cap { x } else { cap }) == (if y < cap { y } else { cap })
        }),
{
    if v >= cap {
        assert(cap * r >= cap) by (nonlinear_arith)
            requires
                cap >= 1,
                r >= 1,
        ;
        assert(v * r >= cap * r) by (nonlinear_arith)
            requires
                v >= cap,
                r >= 1,
        ;
    }
}

/// Parses `s[from..to]` as an unsigned number of base `radix` no larger
/// than `max`, with the rules of `parse_unsigned`.
pub fn parse_unsigned_range(s: &Vec<char>, from: usize, to: usize, radix: u32, max: u32) -> (r:
    Option<u32>)
    requires
        from <= to <= s.len(),
        radix == 10 || radix == 16,
        max <= 65535,
    ensures
        match r {
            Some(v) => parse_unsigned(s@.subrange(from as int, to as int), radix as nat, max as int)
                == Some(v as int),
            None => parse_unsigned(s@.subrange(from as int, to as int), radix as nat, max as int) is None,
        },
{
    let ghost whole = s@.subrange(from as int, to as int);
    let mut start = from;
    if from < to && s[from] == '+' {
        start = from + 1;
    }
    let ghost d = s@.subrange(start as int, to as int);
    assert(d == (if whole.len() > 0 && whole[0] == '+' { whole.skip(1) } else { whole }));
    if start == to {
        return None;
    }
    let cap: u32 = max + 1;
    let mut acc: u32 = 0;
    let mut i = start;
    while i < to
        invariant
            start <= i <= to <= s.len(),
            d == s@.subrange(start as int, to as int),
            whole == s@.subrange(from as int, to as int),
            d == (if whole.len() > 0 && whole[0] == '+' { whole.skip(1) } else { whole }),
            radix == 10 || radix == 16,
            max <= 65535,
            cap == max + 1,
            all_digits(d.take(i - start), radix as nat),
            acc as int == (if digits_value(d.take(i - start), radix as nat) < cap {
                digits_value(d.take(i - start), radix as nat)
            } else {
                cap as int
            }),
        decreases to - i,
    {
        let k = i - start;
        let ghost pre = d.take(k as int);
        let ghost next = d.take(k + 1);
        assert(next.drop_last() == pre);
        assert(next.last() == s@[i as int]);
        match digit_of(s[i], radix) {
            None => {
                assert(!all_digits(d, radix as nat)) by {
                    assert(d[k as int] == s@[i as int]);
                    assert(digit_value(d[k as int], radix as nat) is None);
                }
                return None;
            },
            Some(dg) => {
                proof {
                    lemma_digits_value_nonneg(pre, radix as nat);
                    lemma_capped_step(
                        digits_value(pre, radix as nat),
                        radix as int,
                        dg as int,
                        cap as int,
                    );
                    assert forall|j: int| 0 <= j < next.len() implies #[trigger] digit_value(
                        next[j],
                        radix as nat,
                    ) is Some by {
                        if j < pre.len() {
                            assert(next[j] == pre[j]);
                        }
                    }
                }
                let step: u64 = (acc as u64) * (radix as u64) + (dg as u64);
                if step < cap as u64 {
                    acc = step as u32;
                } else {
                    acc = cap;
                }
            },
        }
        i = i + 1;
    }
    assert(d.take(to - start) == d);
    if acc < cap {
        Some(acc)
    } else {
        None
    }
}

/// The character of a decimal digit `0 <= n < 10`.
pub open spec fn decimal_digit_char(n: int) -> char {
    ('0' as int + n) as char
}

/// The decimal text of `n`, without sign or leading zeros (as `Display` writes it).
pub open spec fn decimal_text(n: nat) -> Seq<char>
    decreases n,
{
    if n < 10 {
        seq![decimal_digit_char(n as int)]
    } else {
        decimal_text(n / 10).push(decimal_digit_char((n % 10) as int))
    }
}

/// Appends the decimal text of `n` to `s`.
pub fn push_decimal(s: &mut String, n: u64)
    ensures
        final(s)@ == old(s)@ + decimal_text(n as nat),
    decreases n,
{
    if n >= 10 {
        push_decimal(s, n / 10);
    }
    push_char(s, decimal_digit(n % 10));
    proof {
        if n >= 10 {
            assert(decimal_text(n as nat) == decimal_text((n / 10) as nat).push(
                decimal_digit_char((n % 10) as int),
            ));
        }
    }
}

/// The character of the decimal digit `d`.
pub fn decimal_digit(d: u64) -> (c: char)
    requires
        d < 10,
    ensures
        c == decimal_digit_char(d as int),
{
    match d {
        0 => '0',
        1 => '1',
        2 => '2',
        3 => '3',
        4 => '4',
        5 => '5',
        6 => '6',
        7 => '7',
        8 => '8',
        _ => '9',
    }
}

/// The decimal text of a number is all digits, starts with no `+`, and
/// spells the number.
pub proof fn lemma_decimal_text(n: nat)
    ensures
        decimal_text(n).len() > 0,
        all_digits(decimal_text(n), 10),
        digits_value(decimal_text(n), 10) == n,
        decimal_text(n)[0] != '+',
        forall|i: int| 0 <= i < decimal_text(n).len() ==> '0' <= #[trigger] decimal_text(n)[i] <= '9',
    decreases n,
{
    let d = decimal_digit_char((n % 10) as int);
    assert(d as int == '0' as int + (n % 10) as int);
    assert(digit_value(d, 10) == Some((n % 10) as int));
    assert((n / 10) * 10 + n % 10 == n) by (nonlinear_arith);
    if n < 10 {
        let t = decimal_text(n);
        assert(t == seq![d]);
        assert(t.drop_last() == Seq::<char>::empty());
        assert(digits_value(Seq::<char>::empty(), 10) == 0);
        assert(t.last() == d);
        assert(n % 10 == n);
        assert(digits_value(t, 10) == digits_value(t.drop_last(), 10) * 10 + digit_value(t.last(), 10)->0);
    } else {
        lemma_decimal_text(n / 10);
        let p = decimal_text(n / 10);
        let t = decimal_text(n);
        assert(t == p.push(d));
        assert(t.drop_last() == p);
        assert(t.last() == d);
        assert(digits_value(t, 10) == digits_value(p, 10) * 10 + (n % 10) as int);
        assert(t[0] == p[0]);
        assert forall|i: int| 0 <= i < t.len() implies '0' <= #[trigger] t[i] <= '9' by {
            if i < p.len() {
                assert(t[i] == p[i]);
            }
        }
        assert forall|i: int| 0 <= i < t.len() implies #[trigger] digit_value(t[i], 10) is Some by {
            if i < p.len() {
                assert(t[i] == p[i]);
            }
        }
    }
}

/// The decimal text of a port reads back as that port.
pub proof fn law_decimal_port_roundtrip(port: u16)
    ensures
        parse_u16(decimal_text(port as nat)) == Some(port),
{
    lemma_decimal_text(port as nat);
}

} // verus!
