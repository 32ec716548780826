//! The wire protocol spoken with the in-guest agent: length-prefixed frames
//! out, newline-terminated lines in, and the handshake that joins them.
use vstd::prelude::*;
use vstd::string::*;
use vstd::utf8::encode_utf8;
use crate::vmm::Error;
use crate::text::{
    occurs_at, contains_seq,
    decimal, digit_value, digits_value, is_digit, lemma_decimal_digits, lemma_decimal_len,
    lemma_leading_zeros, pow10, push_decimal, zero_pad,
};

verus! {

/// Width of the decimal length prefix of a frame.
pub const PREFIX_WIDTH: usize = 8;

/// Payloads must be shorter than this many bytes: 10^8, the first length
/// that takes more than eight digits.
pub const MAX_PAYLOAD: usize = 100_000_000;

/// The frame of `payload`: its length in UTF-8 bytes, in decimal padded with
/// zeros to eight digits, then the payload itself.
pub open spec fn frame_spec(payload: Seq<char>) -> Seq<char> {
    zero_pad(decimal(encode_utf8(payload).len()), 8) + payload
}

/// The payload carried by `frame`, if it is one well-formed frame.
pub open spec fn unframe_spec(frame: Seq<char>) -> Option<Seq<char>> {
    if frame.len() >= 8 && (forall|i: int| 0 <= i < 8 ==> is_digit(#[trigger] frame[i]))
        && encode_utf8(frame.subrange(8, frame.len() as int)).len() == digits_value(
        frame.subrange(0, 8),
    ) {
        Some(frame.subrange(8, frame.len() as int))
    } else {
        None
    }
}

/// Frames `message` for the agent; its length must fit in the eight-digit
/// prefix.
pub fn format_message(message: &str) -> (r: String)
    requires
        encode_utf8(message@).len() < MAX_PAYLOAD,
    ensures
        r@ == frame_spec(message@),
{
    let n = message.as_bytes().len();
    let mut digits = String::new();
    push_decimal(&mut digits, n as u64);
    assert(digits@ =~= decimal(encode_utf8(message@).len()));
    let dlen = digits.as_str().unicode_len();
    let mut out = String::new();
    let mut k: usize = dlen;
    while k < PREFIX_WIDTH
        invariant
            dlen == digits@.len(),
            dlen <= k,
            k <= PREFIX_WIDTH || k == dlen,
            out@ == Seq::new((k - dlen) as nat, |i: int| '0'),
        decreases PREFIX_WIDTH - k,
    {
        proof {
            reveal_strlit("0");
        }
        out.append("0");
        assert(out@ =~= Seq::new((k + 1 - dlen) as nat, |i: int| '0'));
        k = k + 1;
    }
    let ghost zeros = out@;
    out.append(digits.as_str());
    assert(out@ =~= zero_pad(digits@, 8)) by {
        if dlen >= 8 {
            assert(zeros =~= Seq::<char>::empty());
        }
    }
    out.append(message);
    out
}

fn digit_of(c: char) -> (r: u64)
    ensures
        r == digit_value(c),
{
    if c == '1' { 1 }
    else if c == '2' { 2 }
    else if c == '3' { 3 }
    else if c == '4' { 4 }
    else if c == '5' { 5 }
    else if c == '6' { 6 }
    else if c == '7' { 7 }
    else if c == '8' { 8 }
    else if c == '9' { 9 }
    else { 0 }
}

/// Reads back the payload of one frame.
pub fn decode_message(frame: &str) -> (r: Option<String>)
    ensures
        r matches Some(p) ==> unframe_spec(frame@) == Some(p@),
        r is None ==> unframe_spec(frame@) is None,
{
    let n = frame.unicode_len();
    if n < PREFIX_WIDTH {
        return None;
    }
    let mut v: u64 = 0;
    let mut i: usize = 0;
    while i < PREFIX_WIDTH
        invariant
            n == frame@.len(),
            n >= PREFIX_WIDTH,
            i <= PREFIX_WIDTH,
            forall|j: int| 0 <= j < i ==> is_digit(#[trigger] frame@[j]),
            v == digits_value(frame@.subrange(0, i as int)),
            v < pow10(i as nat),
        decreases PREFIX_WIDTH - i,
    {
        let c = frame.get_char(i);
        if !('0' <= c && c <= '9') {
            return None;
        }
        let d = digit_of(c);
        assert(frame@.subrange(0, i + 1).drop_last() =~= frame@.subrange(0, i as int));
        assert(v * 10 + d < pow10((i + 1) as nat)) by (nonlinear_arith)
            requires v < pow10(i as nat), d <= 9, pow10((i + 1) as nat) == 10 * pow10(i as nat);
        assert(pow10(i as nat) <= 10000000) by {
            reveal_with_fuel(pow10, 8);
        }
        v = v * 10 + d;
        i = i + 1;
    }
    let rest = frame.substring_char(PREFIX_WIDTH, n);
    if rest.as_bytes().len() as u64 == v {
        Some(String::from_str(rest))
    } else {
        None
    }
}

/// Framing a payload shorter than 10^8 bytes and reading the frame back
/// gives the payload again, whatever characters it holds.
pub proof fn lemma_frame_round_trip(payload: Seq<char>)
    requires
        encode_utf8(payload).len() < MAX_PAYLOAD,
    ensures
        unframe_spec(frame_spec(payload)) == Some(payload),
{
    let len = encode_utf8(payload).len();
    let d = decimal(len);
    assert(pow10(8) == 100_000_000) by {
        reveal_with_fuel(pow10, 9);
    }
    lemma_decimal_len(len, 8);
    lemma_decimal_digits(len);
    let z = Seq::new((8 - d.len()) as nat, |i: int| '0');
    let padded = zero_pad(d, 8);
    assert(padded == z + d);
    lemma_leading_zeros((8 - d.len()) as nat, d);
    let f = frame_spec(payload);
    assert(f.subrange(0, 8) =~= padded);
    assert(f.subrange(8, f.len() as int) =~= payload);
    assert forall|i: int| 0 <= i < 8 implies is_digit(#[trigger] f[i]) by {
        assert(f[i] == padded[i]);
        if i >= z.len() {
            assert(padded[i] == d[i - z.len()]);
        }
    }
}

/// `i` is the first position at which `p` occurs in `s`.
pub open spec fn first_at<A>(s: Seq<A>, p: Seq<A>, i: int) -> bool {
    occurs_at(s, p, i) && forall|j: int| 0 <= j < i ==> !occurs_at(s, p, j)
}

/// The first position at which `p` occurs in `s`, if it occurs.
#[verifier::opaque]
pub open spec fn first_occurrence<A>(s: Seq<A>, p: Seq<A>) -> Option<int> {
    if contains_seq(s, p) {
        Some(choose|i: int| first_at(s, p, i))
    } else {
        None
    }
}

/// `"type":"status"`, the marker of a status line.
pub open spec fn status_marker() -> Seq<u8> {
    seq![34u8, 116, 121, 112, 101, 34, 58, 34, 115, 116, 97, 116, 117, 115, 34]
}

/// `"code":`, the key that precedes a status code.
pub open spec fn code_key() -> Seq<u8> {
    seq![34u8, 99, 111, 100, 101, 34, 58]
}

/// `ready`, the status code of an agent that waits for its request.
pub open spec fn ready_code() -> Seq<u8> {
    seq![114u8, 101, 97, 100, 121]
}

pub open spec fn quote() -> Seq<u8> {
    seq![34u8]
}

pub open spec fn close_brace() -> Seq<u8> {
    seq![125u8]
}

/// The status code of a line: the text between the first two quotes that
/// follow the first `"code":`, looking no further than the next `}` (up to
/// that bound if the second quote is missing).
pub open spec fn status_code(b: Seq<u8>) -> Option<Seq<u8>> {
    match first_occurrence(b, code_key()) {
        None => None,
        Some(k) => {
            let seg = b.subrange(k + code_key().len(), b.len() as int);
            let e = match first_occurrence(seg, close_brace()) {
                Some(x) => x,
                None => seg.len() as int,
            };
            let seg2 = seg.subrange(0, e);
            match first_occurrence(seg2, quote()) {
                None => None,
                Some(q1) => {
                    let rest = seg2.subrange(q1 + 1, seg2.len() as int);
                    match first_occurrence(rest, quote()) {
                        None => Some(rest),
                        Some(q2) => Some(rest.subrange(0, q2)),
                    }
                },
            }
        },
    }
}

/// How an inbound line is to be taken.
#[derive(Debug, PartialEq, Eq, Structural)]
pub enum LineKind {
    /// A status line whose code is `ready`.
    Ready,
    /// A status line with any other code, or none that can be read.
    BadStatus,
    /// Anything else: part of the response.
    Payload,
}

/// The kind of a line, given its UTF-8 bytes.
pub open spec fn line_kind(b: Seq<u8>) -> LineKind {
    if !contains_seq(b, status_marker()) {
        LineKind::Payload
    } else if status_code(b) == Some(ready_code()) {
        LineKind::Ready
    } else {
        LineKind::BadStatus
    }
}

fn marker_bytes() -> (r: Vec<u8>)
    ensures
        r@ == status_marker(),
{
    let r = vec![34u8, 116, 121, 112, 101, 34, 58, 34, 115, 116, 97, 116, 117, 115, 34];
    assert(r@ =~= status_marker());
    r
}

fn code_key_bytes() -> (r: Vec<u8>)
    ensures
        r@ == code_key(),
{
    let r = vec![34u8, 99, 111, 100, 101, 34, 58];
    assert(r@ =~= code_key());
    r
}

fn ready_bytes() -> (r: Vec<u8>)
    ensures
        r@ == ready_code(),
{
    let r = vec![114u8, 101, 97, 100, 121];
    assert(r@ =~= ready_code());
    r
}

/// Whether `p` occurs at `i` in `s[start..end]`.
fn matches_at(s: &[u8], start: usize, end: usize, p: &[u8], i: usize) -> (r: bool)
    requires
        start <= end <= s@.len(),
    ensures
        r == occurs_at(s@.subrange(start as int, end as int), p@, i as int),
{
    let ghost seg = s@.subrange(start as int, end as int);
    if i > end - start || p.len() > end - start - i {
        return false;
    }
    let mut j: usize = 0;
    while j < p.len()
        invariant
            start <= end <= s@.len(),
            seg == s@.subrange(start as int, end as int),
            i + p@.len() <= end - start,
            j <= p@.len(),
            forall|t: int| 0 <= t < j ==> seg[i + t] == p@[t],
        decreases p@.len() - j,
    {
        if s[start + i + j] != p[j] {
            assert(seg.subrange(i as int, i + p@.len())[j as int] != p@[j as int]);
            return false;
        }
        j = j + 1;
    }
    assert(seg.subrange(i as int, i + p@.len()) =~= p@);
    true
}

/// The first position of `p` in `s[start..end]`, counted from `start`.
fn find_in(s: &[u8], start: usize, end: usize, p: &[u8]) -> (r: Option<usize>)
    requires
        start <= end <= s@.len(),
    ensures
        r matches Some(i) ==> first_occurrence(s@.subrange(start as int, end as int), p@)
            == Some(i as int) && first_at(s@.subrange(start as int, end as int), p@, i as int),
        r is None ==> first_occurrence(s@.subrange(start as int, end as int), p@) is None,
        r is None <==> !contains_seq(s@.subrange(start as int, end as int), p@),
{
    let ghost seg = s@.subrange(start as int, end as int);
    if p.len() > end - start {
        assert forall|j: int| !occurs_at(seg, p@, j) by {}
        reveal(first_occurrence);
        return None;
    }
    let last = end - start - p.len();
    let mut i: usize = 0;
    while i <= last
        invariant
            start <= end <= s@.len(),
            seg == s@.subrange(start as int, end as int),
            last + p@.len() == end - start,
            i <= last,
            forall|j: int| 0 <= j < i ==> !occurs_at(seg, p@, j),
        decreases last - i,
    {
        if matches_at(s, start, end, p, i) {
            assert(first_at(seg, p@, i as int));
            assert(contains_seq(seg, p@));
            let ghost c = choose|k: int| first_at(seg, p@, k);
            assert(c == i) by {
                if c < i {
                    assert(!occurs_at(seg, p@, c));
                } else if c > i {
                    assert(!occurs_at(seg, p@, i as int));
                }
            }
            reveal(first_occurrence);
            return Some(i);
        }
        if i == last {
            assert forall|j: int| !occurs_at(seg, p@, j) by {
                if j > last {
                    assert(!occurs_at(seg, p@, j));
                }
            }
            reveal(first_occurrence);
            return None;
        }
        i = i + 1;
    }
    None
}

/// Where the status code of `b` stands in it, if it has one.
#[verifier::rlimit(40)]
fn status_code_range(b: &[u8]) -> (r: Option<(usize, usize)>)
    ensures
        r matches Some((s, e)) ==> s <= e <= b@.len() && status_code(b@) == Some(
            b@.subrange(s as int, e as int),
        ),
        r is None ==> status_code(b@) is None,
{
    let ghost bs = b@;
    assert(bs =~= bs.subrange(0, bs.len() as int));
    let n = b.len();
    let key = code_key_bytes();
    let k = match find_in(b, 0, n, key.as_slice()) {
        None => {
            return None;
        },
        Some(k) => k,
    };
    let a = k + key.len();
    let ghost seg = bs.subrange(a as int, n as int);
    let brace: [u8; 1] = [125u8];
    assert(brace@ =~= close_brace());
    let e = match find_in(b, a, n, brace.as_slice()) {
        Some(x) => a + x,
        None => n,
    };
    let ghost seg2 = seg.subrange(0, e - a);
    assert(seg2 =~= bs.subrange(a as int, e as int));
    let q: [u8; 1] = [34u8];
    assert(q@ =~= quote());
    let q1 = match find_in(b, a, e, q.as_slice()) {
        None => {
            return None;
        },
        Some(x) => a + x + 1,
    };
    let ghost rest = seg2.subrange(q1 - a, seg2.len() as int);
    assert(rest =~= bs.subrange(q1 as int, e as int));
    let c_end = match find_in(b, q1, e, q.as_slice()) {
        None => e,
        Some(x) => q1 + x,
    };
    assert(c_end < e ==> rest.subrange(0, c_end - q1) =~= bs.subrange(q1 as int, c_end as int));
    Some((q1, c_end))
}

/// Sorts an inbound line into a ready status, another status, or payload.
pub fn classify_line(line: &str) -> (r: LineKind)
    ensures
        r == line_kind(encode_utf8(line@)),
{
    let b = line.as_bytes();
    let ghost bs = b@;
    assert(bs =~= bs.subrange(0, bs.len() as int));
    let n = b.len();
    let marker = marker_bytes();
    if find_in(b, 0, n, marker.as_slice()).is_none() {
        return LineKind::Payload;
    }
    match status_code_range(b) {
        None => LineKind::BadStatus,
        Some((q1, c_end)) => {
            let ready = ready_bytes();
            if c_end - q1 == ready.len() && matches_at(b, q1, c_end, ready.as_slice(), 0) {
                assert(bs.subrange(q1 as int, c_end as int) =~= bs.subrange(
                    q1 as int,
                    c_end as int,
                ).subrange(0, 5));
                LineKind::Ready
            } else {
                assert(bs.subrange(q1 as int, c_end as int) != ready_code()) by {
                    if c_end - q1 == 5 {
                        assert(bs.subrange(q1 as int, c_end as int) =~= bs.subrange(
                            q1 as int,
                            c_end as int,
                        ).subrange(0, 5));
                    }
                }
                LineKind::BadStatus
            }
        },
    }
}

/// Where the handshake with the agent stands.
#[derive(Clone, Copy, Debug, PartialEq, Eq, Structural)]
pub enum Phase {
    /// The agent has not yet said that it is ready.
    WaitingForReady,
    /// The request was sent; the agent's output is being collected.
    Executing,
    /// The agent refused, or the attempt ran out of time.
    Rejected,
}

/// What the reader of the agent's stream is to do after a line.
#[derive(Debug)]
pub enum ChannelAction {
    /// Write these bytes to the agent.
    Send(String),
    /// The line was added to the response.
    Recorded,
    /// Nothing to do.
    Ignored,
    /// The attempt has failed.
    Fail(Error),
}

/// The handshake with one agent: the framed request waiting to be sent, and
/// the response text gathered so far.
#[derive(Debug)]
pub struct AgentChannel {
    pub phase: Phase,
    pub frame: String,
    pub response: String,
}

impl AgentChannel {
    /// A channel that will send `request_json` once the agent is ready.
    pub fn new(request_json: &str) -> (r: Self)
        requires
            encode_utf8(request_json@).len() < MAX_PAYLOAD,
        ensures
            r.phase == Phase::WaitingForReady,
            r.frame@ == frame_spec(request_json@),
            r.response@ == Seq::<char>::empty(),
    {
        AgentChannel {
            phase: Phase::WaitingForReady,
            frame: format_message(request_json),
            response: String::new(),
        }
    }

    /// Takes one inbound line: a `ready` status releases the request, once;
    /// any other status rejects the attempt; other non-empty lines are added
    /// to the response, each followed by a newline.
    pub fn on_line(&mut self, line: &str) -> (r: ChannelAction)
        ensures
            final(self).frame == old(self).frame,
            old(self).phase == Phase::Rejected ==> r is Ignored && *final(self) == *old(self),
            old(self).phase != Phase::Rejected ==> match line_kind(encode_utf8(line@)) {
                LineKind::Ready => {
                    &&& final(self).phase == Phase::Executing
                    &&& final(self).response == old(self).response
                    &&& old(self).phase == Phase::WaitingForReady ==> (r matches ChannelAction::Send(
                        f,
                    ) && f@ == old(self).frame@)
                    &&& old(self).phase == Phase::Executing ==> r is Ignored
                },
                LineKind::BadStatus => {
                    &&& final(self).phase == Phase::Rejected
                    &&& final(self).response == old(self).response
                    &&& r matches ChannelAction::Fail(e) && e == Error::BadAgentStatus
                },
                LineKind::Payload => {
                    &&& final(self).phase == old(self).phase
                    &&& line@.len() == 0 ==> r is Ignored && final(self).response
                        == old(self).response
                    &&& line@.len() > 0 ==> r is Recorded && final(self).response@ == old(
                        self,
                    ).response@ + line@ + seq!['\n']
                },
            },
    {
        if self.phase == Phase::Rejected {
            return ChannelAction::Ignored;
        }
        match classify_line(line) {
            LineKind::Ready => {
                if self.phase == Phase::WaitingForReady {
                    self.phase = Phase::Executing;
                    ChannelAction::Send(self.frame.clone())
                } else {
                    ChannelAction::Ignored
                }
            },
            LineKind::BadStatus => {
                self.phase = Phase::Rejected;
                ChannelAction::Fail(Error::BadAgentStatus)
            },
            LineKind::Payload => {
                if line.is_empty() {
                    ChannelAction::Ignored
                } else {
                    let newline = "\n";
                    proof {
                        reveal_strlit("\n");
                    }
                    self.response.append(line);
                    self.response.append(newline);
                    ChannelAction::Recorded
                }
            },
        }
    }

    /// The agent closed the stream: the response, if the request was sent
    /// and the attempt was not rejected.
    pub fn on_close(&self) -> (r: Result<String, Error>)
        ensures
            self.phase == Phase::Executing <==> r is Ok,
            r matches Ok(s) ==> s@ == self.response@,
            r matches Err(e) ==> e == Error::BadAgentStatus,
    {
        if self.phase == Phase::Executing {
            Ok(self.response.clone())
        } else {
            Err(Error::BadAgentStatus)
        }
    }

    /// The time allowed for the attempt is over: a live attempt fails.
    pub fn on_deadline(&mut self) -> (r: Option<Error>)
        ensures
            final(self).phase == Phase::Rejected,
            final(self).frame == old(self).frame,
            final(self).response == old(self).response,
            old(self).phase == Phase::Rejected <==> r is None,
            r matches Some(e) ==> e == Error::AgentTimeout,
    {
        if self.phase == Phase::Rejected {
            None
        } else {
            self.phase = Phase::Rejected;
            Some(Error::AgentTimeout)
        }
    }
}

} // verus!
