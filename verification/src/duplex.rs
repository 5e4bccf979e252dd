//! The byte-level work of a full-duplex session: line-ending conversion,
//! Telnet option refusal, and the decisions of the two copy loops.
use vstd::prelude::*;

verus! {

/// How a full-duplex session between the terminal and a stream behaves.
#[derive(Clone, Copy, Debug, Default)]
pub struct DuplexOptions {
    /// Send CRLF in place of a bare LF typed on standard input (`-C`).
    pub crlf: bool,
    /// Stop reading the stream after this many idle seconds (`-w`).
    pub read_timeout_secs: Option<u64>,
    /// Shut down the sending half once standard input ends (`-N`).
    pub shutdown_on_eof: bool,
    /// Do not read standard input (`-d`).
    pub no_stdin: bool,
    /// What to do once standard input ends (`-q`).
    pub quit_delay: Option<i32>,
    /// Seconds to wait before each chunk sent or received (`-i`).
    pub interval: Option<u64>,
    /// Stop after this many reads from the stream (`-W`).
    pub recv_limit: Option<u32>,
    /// Refuse Telnet option negotiations (`-t`).
    pub telnet: bool,
}

impl DuplexOptions {
    /// The same options for a session whose input comes from elsewhere
    /// than this process's standard input.
    pub fn with_input(self) -> (r: Self)
        ensures
            r == (DuplexOptions { no_stdin: true, ..self }),
    {
        DuplexOptions { no_stdin: true, ..self }
    }
}

/// Carriage return.
pub const CR: u8 = 13;

/// Line feed.
pub const LF: u8 = 10;

/// `s` with a CR put in front of every LF that does not already follow a CR.
pub open spec fn lf_to_crlf(s: Seq<u8>) -> Seq<u8>
    decreases s.len(),
{
    if s.len() == 0 {
        seq![]
    } else {
        lf_to_crlf(s.drop_last()) + crlf_tail(s)
    }
}

/// What the last byte of `s` turns into.
pub open spec fn crlf_tail(s: Seq<u8>) -> Seq<u8>
    recommends
        s.len() > 0,
{
    if s.last() == LF && !(s.len() >= 2 && s[s.len() - 2] == CR) {
        seq![CR, LF]
    } else {
        seq![s.last()]
    }
}

/// Every LF of `s` comes right after a CR.
pub open spec fn lf_follows_cr(s: Seq<u8>) -> bool {
    forall|j: int| 0 <= j < s.len() && #[trigger] s[j] == LF ==> j > 0 && s[j - 1] == CR
}

/// Converts bare LF line endings to CRLF (`-C`).
pub fn convert_lf_to_crlf(input: &[u8]) -> (data: Vec<u8>)
    ensures
        data@ == lf_to_crlf(input@),
        lf_follows_cr(data@),
{
    let mut data: Vec<u8> = Vec::new();
    let mut previous_was_cr = false;
    let mut i: usize = 0;
    while i < input.len()
        invariant
            i <= input.len(),
            data@ == lf_to_crlf(input@.take(i as int)),
            previous_was_cr == (i > 0 && input@[i - 1] == CR),
        decreases input.len() - i,
    {
        let byte = input[i];
        let ghost pre = input@.take(i as int);
        let ghost next = input@.take(i + 1);
        assert(next.drop_last() == pre);
        if byte == LF && !previous_was_cr {
            data.push(CR);
        }
        data.push(byte);
        previous_was_cr = byte == CR;
        i = i + 1;
        assert(data@ == lf_to_crlf(next));
    }
    assert(input@.take(input@.len() as int) == input@);
    proof {
        lemma_crlf_lf_follows_cr(input@);
    }
    data
}

/// The last byte of the conversion is the last byte of the input.
proof fn lemma_crlf_last(s: Seq<u8>)
    requires
        s.len() > 0,
    ensures
        lf_to_crlf(s).len() > 0,
        lf_to_crlf(s).last() == s.last(),
{
}

/// After conversion every LF follows a CR.
pub proof fn lemma_crlf_lf_follows_cr(s: Seq<u8>)
    ensures
        lf_follows_cr(lf_to_crlf(s)),
    decreases s.len(),
{
    if s.len() > 0 {
        let p = s.drop_last();
        lemma_crlf_lf_follows_cr(p);
        let o = lf_to_crlf(s);
        let op = lf_to_crlf(p);
        let t = crlf_tail(s);
        assert(o == op + t);
        assert forall|j: int| 0 <= j < o.len() && #[trigger] o[j] == LF implies j > 0 && o[j - 1]
            == CR by {
            if j < op.len() {
                assert(o[j] == op[j]);
                assert(op[j] == LF);
                assert(o[j - 1] == op[j - 1]);
            } else if t.len() == 2 {
                if j == op.len() {
                    assert(o[j] == CR);
                }
            } else {
                assert(s.len() >= 2 && s[s.len() - 2] == CR);
                assert(p.last() == CR);
                lemma_crlf_last(p);
                assert(o[j - 1] == op.last());
            }
        }
    }
}

/// Text whose LFs all follow CRs is left as it is.
pub proof fn lemma_crlf_fixpoint(s: Seq<u8>)
    requires
        lf_follows_cr(s),
    ensures
        lf_to_crlf(s) == s,
    decreases s.len(),
{
    if s.len() > 0 {
        let p = s.drop_last();
        assert(lf_follows_cr(p)) by {
            assert forall|j: int| 0 <= j < p.len() && #[trigger] p[j] == LF implies j > 0 && p[j - 1]
                == CR by {
                assert(s[j] == p[j]);
            }
        }
        lemma_crlf_fixpoint(p);
        if s.last() == LF {
            assert(s[s.len() - 1] == LF);
        }
        assert(s == p.push(s.last()));
    }
}

/// Converting twice is converting once.
pub proof fn law_crlf_idempotent(s: Seq<u8>)
    ensures
        lf_to_crlf(lf_to_crlf(s)) == lf_to_crlf(s),
{
    lemma_crlf_lf_follows_cr(s);
    lemma_crlf_fixpoint(lf_to_crlf(s));
}

/// The input is converted a chunk at a time (each read of standard
/// input on its own); that gives the same bytes as converting the whole,
/// wherever a chunk does not end in a CR.
pub proof fn law_crlf_chunks(a: Seq<u8>, b: Seq<u8>)
    requires
        a.len() == 0 || a.last() != CR,
    ensures
        lf_to_crlf(a + b) == lf_to_crlf(a) + lf_to_crlf(b),
    decreases b.len(),
{
    if b.len() == 0 {
        assert(a + b == a);
    } else {
        let bp = b.drop_last();
        law_crlf_chunks(a, bp);
        let ab = a + b;
        assert(ab.drop_last() == a + bp);
        assert(ab.last() == b.last());
        if b.len() >= 2 {
            assert(ab[ab.len() - 2] == b[b.len() - 2]);
        } else if a.len() > 0 {
            assert(ab[ab.len() - 2] == a.last());
        }
        assert(crlf_tail(ab) == crlf_tail(b));
    }
}

/// Telnet "interpret as command".
pub const IAC: u8 = 255;

/// Telnet DONT.
pub const DONT: u8 = 254;

/// Telnet DO.
pub const DO: u8 = 253;

/// Telnet WONT.
pub const WONT: u8 = 252;

/// Telnet WILL.
pub const WILL: u8 = 251;

/// An option negotiation command (`DO`, `WILL`, `DONT`, `WONT`).
pub open spec fn is_negotiation(cmd: u8) -> bool {
    cmd == DO || cmd == WILL || cmd == DONT || cmd == WONT
}

/// The answer to a negotiation: `DO` is refused with `WONT`, `WILL` with
/// `DONT`; `DONT` and `WONT` need no answer.
pub open spec fn negotiation_reply(cmd: u8, opt: u8) -> Seq<u8> {
    if cmd == DO {
        seq![IAC, WONT, opt]
    } else if cmd == WILL {
        seq![IAC, DONT, opt]
    } else {
        seq![]
    }
}

/// What the Telnet filter makes of `s`: the data to show, the replies to
/// send, and the tail that has to wait for more bytes (an `IAC` with fewer
/// than two bytes after it). Each `IAC` followed by a negotiation command and
/// an option byte is taken out and answered; any other byte, an `IAC` that
/// does not start a negotiation among them, is data.
pub open spec fn telnet_scan(s: Seq<u8>) -> (Seq<u8>, Seq<u8>, Seq<u8>)
    decreases s.len(),
{
    if s.len() == 0 {
        (seq![], seq![], seq![])
    } else if s[0] == IAC && s.len() < 3 {
        (seq![], seq![], s)
    } else if s[0] == IAC && is_negotiation(s[1]) {
        let (c, r, p) = telnet_scan(s.skip(3));
        (c, negotiation_reply(s[1], s[2]) + r, p)
    } else {
        let (c, r, p) = telnet_scan(s.skip(1));
        (seq![s[0]] + c, r, p)
    }
}

/// The tail that `telnet_scan` leaves waiting is a valid pending tail.
pub proof fn lemma_scan_pending_ok(s: Seq<u8>)
    ensures
        telnet_pending_ok(telnet_scan(s).2),
    decreases s.len(),
{
    if s.len() == 0 {
    } else if s[0] == IAC && s.len() < 3 {
    } else if s[0] == IAC && is_negotiation(s[1]) {
        lemma_scan_pending_ok(s.skip(3));
    } else {
        lemma_scan_pending_ok(s.skip(1));
    }
}

/// Scanning more bytes extends what was already scanned: the pending tail
/// is scanned again together with the new bytes.
pub proof fn lemma_scan_append(s: Seq<u8>, b: Seq<u8>)
    ensures
        ({
            let (c1, r1, p1) = telnet_scan(s);
            let (c2, r2, p2) = telnet_scan(p1 + b);
            telnet_scan(s + b) == (c1 + c2, r1 + r2, p2)
        }),
    decreases s.len(),
{
    let sb = s + b;
    if s.len() == 0 {
        assert(sb == b);
        let (c2, r2, p2) = telnet_scan(b);
        assert(Seq::<u8>::empty() + b == b);
        assert(Seq::<u8>::empty() + c2 == c2);
        assert(Seq::<u8>::empty() + r2 == r2);
    } else if s[0] == IAC && s.len() < 3 {
        let (c2, r2, p2) = telnet_scan(s + b);
        assert(Seq::<u8>::empty() + c2 == c2);
        assert(Seq::<u8>::empty() + r2 == r2);
    } else if s[0] == IAC && is_negotiation(s[1]) {
        lemma_scan_append(s.skip(3), b);
        assert(sb[0] == s[0] && sb[1] == s[1] && sb[2] == s[2]);
        assert(sb.skip(3) == s.skip(3) + b);
        let (c1, r1, p1) = telnet_scan(s.skip(3));
        let (c2, r2, p2) = telnet_scan(p1 + b);
        assert(negotiation_reply(s[1], s[2]) + (r1 + r2) == (negotiation_reply(s[1], s[2]) + r1)
            + r2);
    } else {
        lemma_scan_append(s.skip(1), b);
        assert(sb[0] == s[0]);
        if s[0] == IAC {
            assert(sb[1] == s[1]);
        }
        assert(sb.skip(1) == s.skip(1) + b);
        let (c1, r1, p1) = telnet_scan(s.skip(1));
        let (c2, r2, p2) = telnet_scan(p1 + b);
        assert(seq![s[0]] + (c1 + c2) == (seq![s[0]] + c1) + c2);
    }
}

/// Reading the stream in two pieces gives the same data and replies,
/// and leaves the same bytes waiting, as reading it in one: a negotiation
/// cut by a read boundary is answered once the rest arrives.
pub proof fn law_telnet_chunking(pending: Seq<u8>, a: Seq<u8>, b: Seq<u8>)
    ensures
        ({
            let (c1, r1, p1) = telnet_scan(pending + a);
            let (c2, r2, p2) = telnet_scan(p1 + b);
            telnet_scan(pending + (a + b)) == (c1 + c2, r1 + r2, p2)
        }),
{
    lemma_scan_append(pending + a, b);
    assert(pending + (a + b) == (pending + a) + b);
}

/// Bytes without any `IAC` pass through the filter unchanged, with
/// no reply and nothing left waiting.
pub proof fn law_telnet_plain_data(s: Seq<u8>)
    requires
        !s.contains(IAC),
    ensures
        telnet_scan(s) == (s, Seq::<u8>::empty(), Seq::<u8>::empty()),
    decreases s.len(),
{
    if s.len() > 0 {
        assert(s[0] != IAC);
        assert(!s.skip(1).contains(IAC)) by {
            if s.skip(1).contains(IAC) {
                let j = choose|j: int| 0 <= j < s.skip(1).len() && s.skip(1)[j] == IAC;
                assert(s[j + 1] == IAC);
            }
        }
        law_telnet_plain_data(s.skip(1));
        assert(seq![s[0]] + s.skip(1) == s);
    }
}

/// The replies are whole three-byte refusals: `IAC WONT x` or `IAC DONT x`.
pub open spec fn refusals_only(r: Seq<u8>) -> bool {
    &&& r.len() % 3 == 0
    &&& forall|k: int|
        0 <= k < r.len() / 3 ==> #[trigger] r[3 * k] == IAC && (r[3 * k + 1] == WONT || r[3 * k
            + 1] == DONT)
}

/// The filter never sends anything but refusals.
pub proof fn law_telnet_refusals_only(s: Seq<u8>)
    ensures
        refusals_only(telnet_scan(s).1),
    decreases s.len(),
{
    if s.len() == 0 {
    } else if s[0] == IAC && s.len() < 3 {
    } else if s[0] == IAC && is_negotiation(s[1]) {
        law_telnet_refusals_only(s.skip(3));
        let r = telnet_scan(s.skip(3)).1;
        let h = negotiation_reply(s[1], s[2]);
        let all = h + r;
        assert(all == telnet_scan(s).1);
        assert forall|k: int| 0 <= k < all.len() / 3 implies #[trigger] all[3 * k] == IAC && (all[3
            * k + 1] == WONT || all[3 * k + 1] == DONT) by {
            if h.len() == 3 {
                if k == 0 {
                } else {
                    assert(all[3 * k] == r[3 * (k - 1)]);
                    assert(all[3 * k + 1] == r[3 * (k - 1) + 1]);
                    assert(r[3 * (k - 1)] == IAC);
                }
            } else {
                assert(h.len() == 0);
                assert(all[3 * k] == r[3 * k]);
            }
        }
    } else {
        law_telnet_refusals_only(s.skip(1));
    }
}

/// RFC 854 refusals: `IAC DO o` is answered with `IAC WONT o` and
/// `IAC WILL o` with `IAC DONT o`, for every option byte `o`; `IAC DONT o`
/// and `IAC WONT o` get no answer; in each case the three bytes leave the
/// data, and what follows is filtered as it would be alone.
pub proof fn law_telnet_refusal_verbs(o: u8, s: Seq<u8>)
    ensures
        ({
            let (c, r, p) = telnet_scan(s);
            &&& telnet_scan(seq![255u8, 253u8, o] + s) == (c, seq![255u8, 252u8, o] + r, p)
            &&& telnet_scan(seq![255u8, 251u8, o] + s) == (c, seq![255u8, 254u8, o] + r, p)
            &&& telnet_scan(seq![255u8, 254u8, o] + s) == (c, r, p)
            &&& telnet_scan(seq![255u8, 252u8, o] + s) == (c, r, p)
        }),
{
    let x1 = seq![255u8, 253u8, o] + s;
    let x2 = seq![255u8, 251u8, o] + s;
    let x3 = seq![255u8, 254u8, o] + s;
    let x4 = seq![255u8, 252u8, o] + s;
    assert(x1.skip(3) == s);
    assert(x2.skip(3) == s);
    assert(x3.skip(3) == s);
    assert(x4.skip(3) == s);
    assert(x1[0] == 255u8 && x1[1] == 253u8 && x1[2] == o && x1.len() >= 3);
    assert(x2[0] == 255u8 && x2[1] == 251u8 && x2[2] == o && x2.len() >= 3);
    assert(x3[0] == 255u8 && x3[1] == 254u8 && x3[2] == o && x3.len() >= 3);
    assert(x4[0] == 255u8 && x4[1] == 252u8 && x4[2] == o && x4.len() >= 3);
    let (c, r, p) = telnet_scan(s);
    assert(seq![255u8, 254u8, o] + r == negotiation_reply(251u8, o) + r);
    assert(Seq::<u8>::empty() + r == r);
}

/// What may wait in a Telnet filter: nothing, or an `IAC` with at most one
/// byte after it.
pub open spec fn telnet_pending_ok(p: Seq<u8>) -> bool {
    p.len() < 3 && (p.len() > 0 ==> p[0] == IAC)
}

/// The Telnet filter of a session: it answers every `DO` with `WONT` and
/// every `WILL` with `DONT`, strips negotiations from the data, and keeps a
/// negotiation cut in two by a read until the rest arrives.
pub struct TelnetState {
    buf: Vec<u8>,
}

impl TelnetState {
    /// The bytes that wait for the rest of a negotiation.
    pub closed spec fn pending(&self) -> Seq<u8> {
        self.buf@
    }

    #[verifier::type_invariant]
    spec fn inv(&self) -> bool {
        telnet_pending_ok(self.buf@)
    }

    /// A filter with nothing pending.
    pub fn new() -> (r: Self)
        ensures
            r.pending() == Seq::<u8>::empty(),
    {
        TelnetState { buf: Vec::new() }
    }

    /// Filters the next bytes read from the stream: returns the data to show
    /// and the replies to send, and keeps an unfinished negotiation for the
    /// next call.
    pub fn process(&mut self, input: &[u8]) -> (r: (Vec<u8>, Vec<u8>))
        ensures
            ({
                let (c, rep, p) = telnet_scan(old(self).pending() + input@);
                &&& r.0@ == c
                &&& r.1@ == rep
                &&& final(self).pending() == p
            }),
            telnet_pending_ok(old(self).pending()),
            telnet_pending_ok(final(self).pending()),
    {
        proof {
            use_type_invariant(&*self);
        }
        let mut full_input: Vec<u8> = Vec::new();
        let mut k: usize = 0;
        while k < self.buf.len()
            invariant
                k <= self.buf.len(),
                full_input@ == self.buf@.take(k as int),
            decreases self.buf.len() - k,
        {
            full_input.push(self.buf[k]);
            k = k + 1;
            assert(full_input@ == self.buf@.take(k as int));
        }
        let mut j: usize = 0;
        while j < input.len()
            invariant
                k == self.buf.len(),
                j <= input.len(),
                full_input@ == self.buf@ + input@.take(j as int),
            decreases input.len() - j,
        {
            full_input.push(input[j]);
            j = j + 1;
            assert(full_input@ == self.buf@ + input@.take(j as int));
        }
        assert(self.buf@.take(k as int) == self.buf@);
        assert(input@.take(input@.len() as int) == input@);
        let ghost full = full_input@;
        let mut clean_data: Vec<u8> = Vec::new();
        let mut replies: Vec<u8> = Vec::new();
        let mut rest: Vec<u8> = Vec::new();
        let mut i: usize = 0;
        let mut waiting = false;
        assert(full.skip(0) == full);
        assert(clean_data@ + telnet_scan(full).0 == telnet_scan(full).0);
        assert(replies@ + telnet_scan(full).1 == telnet_scan(full).1);
        while i < full_input.len() && !waiting
            invariant
                full == full_input@,
                i <= full_input.len(),
                !waiting ==> rest@ == Seq::<u8>::empty(),
                !waiting ==> ({
                    let (c, r, p) = telnet_scan(full.skip(i as int));
                    telnet_scan(full) == (clean_data@ + c, replies@ + r, p)
                }),
                waiting ==> telnet_scan(full) == (clean_data@, replies@, rest@),
            decreases full_input.len() - i + (if waiting { 0int } else { 1int }),
        {
            let ghost s = full.skip(i as int);
            if full_input[i] == IAC && full_input.len() - i > 2 && (full_input[i + 1] == DO
                || full_input[i + 1] == WILL || full_input[i + 1] == DONT || full_input[i + 1]
                == WONT) {
                let cmd = full_input[i + 1];
                let opt = full_input[i + 2];
                if cmd == DO {
                    replies.push(IAC);
                    replies.push(WONT);
                    replies.push(opt);
                } else if cmd == WILL {
                    replies.push(IAC);
                    replies.push(DONT);
                    replies.push(opt);
                }
                assert(s.skip(3) == full.skip(i + 3));
                i = i + 3;
            } else if full_input[i] == IAC && full_input.len() - i <= 2 {
                let mut t = i;
                while t < full_input.len()
                    invariant
                        full == full_input@,
                        i <= t <= full_input.len(),
                        rest@ == full.subrange(i as int, t as int),
                    decreases full_input.len() - t,
                {
                    rest.push(full_input[t]);
                    t = t + 1;
                    assert(rest@ == full.subrange(i as int, t as int));
                }
                assert(rest@ == s);
                waiting = true;
            } else {
                clean_data.push(full_input[i]);
                assert(s.skip(1) == full.skip(i + 1));
                i = i + 1;
            }
        }
        proof {
            if !waiting {
                assert(full.skip(i as int).len() == 0);
            }
        }
        proof {
            lemma_scan_pending_ok(full);
        }
        self.buf = rest;
        (clean_data, replies)
    }
}

/// What the sending side of a session does once its input has ended
/// (`-q`).
#[derive(Clone, Copy, Debug, PartialEq, Eq)]
pub enum QuitAction {
    /// No `-q`: keep receiving until the peer closes the stream.
    WaitForPeer,
    /// `-q` with a positive delay: wait that many seconds, then end the session.
    Linger(u64),
    /// `-q 0`: end the session at once.
    StopNow,
    /// `-q` with a negative delay: the input side never ends the session.
    StayForever,
}

/// Chooses what happens after the end of input, from the `-q` value.
pub fn quit_action(quit_delay: Option<i32>) -> (r: QuitAction)
    ensures
        r == (match quit_delay {
            None => QuitAction::WaitForPeer,
            Some(d) => if d > 0 {
                QuitAction::Linger(d as u64)
            } else if d == 0 {
                QuitAction::StopNow
            } else {
                QuitAction::StayForever
            },
        }),
{
    match quit_delay {
        None => QuitAction::WaitForPeer,
        Some(d) => if d > 0 {
            QuitAction::Linger(d as u64)
        } else if d == 0 {
            QuitAction::StopNow
        } else {
            QuitAction::StayForever
        },
    }
}

/// What one read from the stream gives: the bytes to write to standard
/// output, the Telnet replies to send back, and whether the receive limit
/// has now been reached.
pub struct Received {
    pub output: Vec<u8>,
    pub replies: Vec<u8>,
    pub stop: bool,
}

/// The receiving side of a session: it passes what the stream sends to
/// standard output, through the Telnet filter when `-t` is on, and counts
/// reads against the `-W` limit.
pub struct ReceiveLoop {
    telnet: Option<TelnetState>,
    reads: u32,
    limit: Option<u32>,
}

impl ReceiveLoop {
    /// The number of reads seen so far (it stops growing at `u32::MAX`).
    pub closed spec fn reads(&self) -> nat {
        self.reads as nat
    }

    /// The `-W` limit.
    pub closed spec fn limit(&self) -> Option<u32> {
        self.limit
    }

    /// Whether the Telnet filter is on, and what it holds back.
    pub closed spec fn telnet_pending(&self) -> Option<Seq<u8>> {
        match self.telnet {
            Some(t) => Some(t.pending()),
            None => None,
        }
    }

    /// A receiving side that has read nothing yet.
    pub fn new(telnet: bool, recv_limit: Option<u32>) -> (r: Self)
        ensures
            r.reads() == 0,
            r.limit() == recv_limit,
            r.telnet_pending() == (if telnet {
                Some(Seq::<u8>::empty())
            } else {
                None
            }),
    {
        ReceiveLoop { telnet: if telnet { Some(TelnetState::new()) } else { None }, reads: 0, limit: recv_limit }
    }

    /// Takes the bytes of one read from the stream.
    pub fn on_data(&mut self, data: &[u8]) -> (r: Received)
        ensures
            final(self).limit() == old(self).limit(),
            final(self).reads() == (if old(self).reads() < u32::MAX {
                old(self).reads() + 1
            } else {
                old(self).reads()
            }),
            r.stop == (match old(self).limit() {
                Some(l) => final(self).reads() >= l,
                None => false,
            }),
            match old(self).telnet_pending() {
                Some(p) => {
                    let (c, rep, q) = telnet_scan(p + data@);
                    &&& r.output@ == c
                    &&& r.replies@ == rep
                    &&& final(self).telnet_pending() == Some(q)
                },
                None => {
                    &&& r.output@ == data@
                    &&& r.replies@ == Seq::<u8>::empty()
                    &&& final(self).telnet_pending() is None
                },
            },
    {
        let (output, replies) = match &mut self.telnet {
            Some(t) => t.process(data),
            None => {
                let mut v: Vec<u8> = Vec::new();
                let mut i: usize = 0;
                while i < data.len()
                    invariant
                        i <= data.len(),
                        v@ == data@.take(i as int),
                    decreases data.len() - i,
                {
                    v.push(data[i]);
                    i = i + 1;
                    assert(v@ == data@.take(i as int));
                }
                assert(data@.take(data@.len() as int) == data@);
                (v, Vec::new())
            },
        };
        if self.reads < u32::MAX {
            self.reads = self.reads + 1;
        }
        let stop = match self.limit {
            Some(l) => self.reads >= l,
            None => false,
        };
        Received { output, replies, stop }
    }
}

/// The sending side of a session: it forwards standard input (converted
/// to CRLF under `-C`) and the Telnet filter's replies, and runs until
/// input has ended and, with `-t`, the reply channel has closed.
pub struct SendLoop {
    stdin_eof: bool,
    telnet_alive: bool,
    crlf: bool,
}

impl SendLoop {
    /// Standard input has ended (or is not read, `-d`).
    pub closed spec fn input_done(&self) -> bool {
        self.stdin_eof
    }

    /// Telnet replies may still come.
    pub closed spec fn replies_open(&self) -> bool {
        self.telnet_alive
    }

    /// Input is sent with CRLF line endings.
    pub closed spec fn crlf(&self) -> bool {
        self.crlf
    }

    /// The sending side of a session with the given options.
    pub fn new(options: DuplexOptions) -> (r: Self)
        ensures
            r.input_done() == options.no_stdin,
            r.replies_open() == options.telnet,
            r.crlf() == options.crlf,
    {
        SendLoop { stdin_eof: options.no_stdin, telnet_alive: options.telnet, crlf: options.crlf }
    }

    /// Whether the side still has work: input to read or replies to pass on.
    pub fn running(&self) -> (r: bool)
        ensures
            r == (!self.input_done() || self.replies_open()),
    {
        !self.stdin_eof || self.telnet_alive
    }

    /// Whether standard input is still to be read.
    pub fn reads_input(&self) -> (r: bool)
        ensures
            r == !self.input_done(),
    {
        !self.stdin_eof
    }

    /// Whether Telnet replies are still to be passed on.
    pub fn takes_replies(&self) -> (r: bool)
        ensures
            r == self.replies_open(),
    {
        self.telnet_alive
    }

    /// Takes one read of standard input (empty at its end) and gives the
    /// bytes to send, if any.
    pub fn on_input(&mut self, data: &[u8]) -> (r: Option<Vec<u8>>)
        ensures
            final(self).crlf() == old(self).crlf(),
            final(self).replies_open() == old(self).replies_open(),
            final(self).input_done() == (old(self).input_done() || data@.len() == 0),
            match r {
                Some(out) => data@.len() > 0 && out@ == (if old(self).crlf() {
                    lf_to_crlf(data@)
                } else {
                    data@
                }),
                None => data@.len() == 0,
            },
    {
        if data.len() == 0 {
            self.stdin_eof = true;
            return None;
        }
        if self.crlf {
            Some(convert_lf_to_crlf(data))
        } else {
            let mut v: Vec<u8> = Vec::new();
            let mut i: usize = 0;
            while i < data.len()
                invariant
                    i <= data.len(),
                    v@ == data@.take(i as int),
                decreases data.len() - i,
            {
                v.push(data[i]);
                i = i + 1;
                assert(v@ == data@.take(i as int));
            }
            assert(data@.take(data@.len() as int) == data@);
            Some(v)
        }
    }

    /// Takes what the reply channel gave (`None` once it has closed) and
    /// gives the bytes to send, if any.
    pub fn on_reply(&mut self, reply: Option<Vec<u8>>) -> (r: Option<Vec<u8>>)
        ensures
            final(self).crlf() == old(self).crlf(),
            final(self).input_done() == old(self).input_done(),
            final(self).replies_open() == (old(self).replies_open() && reply is Some),
            r == (match reply {
                Some(d) => if d@.len() > 0 {
                    Some(d)
                } else {
                    None
                },
                None => None,
            }),
    {
        match reply {
            Some(d) => if d.len() > 0 {
                Some(d)
            } else {
                None
            },
            None => {
                self.telnet_alive = false;
                None
            },
        }
    }
}

} // verus!
