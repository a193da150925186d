//! Finding the end of a backend's response.
//!
//! A backend ends its response with a `ReadyForQuery` message. The scan
//! accumulates what it has not understood yet, so that a message that spans
//! two reads is still detected.

use super::protocol::{frame, READY_FOR_QUERY};
use crate::big_endian::{be_value, get_be, lemma_be_ranges, lemma_be_reads_back};
use vstd::prelude::*;

verus! {

/// What a scan over received bytes finds.
pub enum Scan {
    /// A `ReadyForQuery` with this transaction status.
    Ready(u8),
    /// No `ReadyForQuery`; the messages before this position are complete.
    Rest(int),
}

/// Scans the messages from `pos` on. A message that is not complete ends the
/// scan.
pub open spec fn scan_from(b: Seq<u8>, pos: int) -> Scan
    decreases b.len() - pos,
{
    let length = be_value(b.subrange(pos + 1, pos + 5));
    let next = pos + 1 + length;
    if pos + 5 > b.len() {
        Scan::Rest(pos)
    } else if b[pos] == READY_FOR_QUERY && length == 5 && pos + 6 <= b.len() {
        Scan::Ready(b[pos + 5])
    } else if next <= pos || next > b.len() {
        Scan::Rest(pos)
    } else {
        scan_from(b, next)
    }
}

/// Scans the responses of one backend for the end of the current response.
pub struct ReadyScan {
    acc: Vec<u8>,
}

impl View for ReadyScan {
    type V = Seq<u8>;

    /// The received bytes that belong to no complete message yet.
    closed spec fn view(&self) -> Seq<u8> {
        self.acc@
    }
}

impl ReadyScan {
    /// A scan that has received nothing.
    pub fn new() -> (r: Self)
        ensures
            r@ == Seq::<u8>::empty(),
    {
        ReadyScan { acc: Vec::new() }
    }

    /// Takes the next bytes of the response. Returns the transaction status
    /// once the response has ended; until then keeps only the tail that is
    /// not scanned.
    pub fn feed(&mut self, chunk: &[u8]) -> (r: Option<u8>)
        ensures
            match scan_from(old(self)@ + chunk@, 0) {
                Scan::Ready(status) => r == Some(status) && final(self)@ == old(self)@ + chunk@,
                Scan::Rest(p) => r is None && 0 <= p <= old(self)@.len() + chunk@.len()
                    && final(self)@ == (old(self)@ + chunk@).skip(p),
            },
    {
        let ghost whole = self.acc@ + chunk@;
        self.acc.extend_from_slice(chunk);
        assert(self.acc@ =~= whole);
        let n: usize = self.acc.len();
        let mut pos: usize = 0;
        // Scan for ReadyForQuery, properly advancing past complete messages.
        while n - pos >= 5
            invariant
                n == whole.len(),
                self.acc@ == whole,
                whole == old(self)@ + chunk@,
                pos <= n,
                scan_from(whole, 0) == scan_from(whole, pos as int),
            ensures
                scan_from(whole, 0) == Scan::Rest(pos as int),
                pos <= n,
            decreases n - pos,
        {
            let msg_type = self.acc[pos];
            proof {
                lemma_be_ranges();
            }
            let length: u64 = get_be(self.acc.as_slice(), pos + 1, 4);
            if msg_type == READY_FOR_QUERY && length == 5 && n - pos >= 6 {
                return Some(self.acc[pos + 5]);
            }
            if length > (n - pos - 1) as u64 {
                // Incomplete message — wait for more data.
                break;
            }
            pos = pos + 1 + length as usize;
        }
        // Discard fully-scanned bytes; keep only the unscanned tail so the
        // next call continues where we left off.
        if pos > 0 {
            let mut tail: Vec<u8> = Vec::new();
            tail.extend_from_slice(&self.acc.as_slice()[pos..n]);
            self.acc = tail;
        }
        assert(self.acc@ =~= whole.skip(pos as int));
        None
    }
}

// ── Passing a response on ────────────────────────────────────────────────────

/// What to do with what the backend sent.
#[derive(Debug)]
pub enum PipeStep {
    /// The backend closed the connection.
    Closed,
    /// Send the bytes to the client. If there is a status, the response has
    /// ended with it; otherwise read on.
    Forward { bytes: Vec<u8>, status: Option<u8> },
}

/// Passes one response of a backend on to the client.
pub struct ResponsePipe {
    scan: ReadyScan,
}

impl View for ResponsePipe {
    type V = Seq<u8>;

    /// The received bytes that belong to no complete message yet.
    closed spec fn view(&self) -> Seq<u8> {
        self.scan@
    }
}

impl ResponsePipe {
    /// A response that has not begun.
    pub fn new() -> (r: Self)
        ensures
            r@ == Seq::<u8>::empty(),
    {
        ResponsePipe { scan: ReadyScan::new() }
    }

    /// Takes what the backend sent: nothing if it closed the connection. All
    /// that it sent goes to the client.
    pub fn on_backend(&mut self, chunk: &[u8]) -> (r: PipeStep)
        ensures
            chunk@.len() == 0 ==> r is Closed && final(self)@ == old(self)@,
            chunk@.len() > 0 ==> (r matches PipeStep::Forward { bytes, status } && bytes@ == chunk@
                && match scan_from(old(self)@ + chunk@, 0) {
                Scan::Ready(s) => status == Some(s) && final(self)@ == old(self)@ + chunk@,
                Scan::Rest(p) => status is None && final(self)@ == (old(self)@ + chunk@).skip(p),
            }),
    {
        if chunk.len() == 0 {
            return PipeStep::Closed;
        }
        let mut bytes: Vec<u8> = Vec::new();
        bytes.extend_from_slice(chunk);
        assert(bytes@ =~= chunk@);
        let status = self.scan.feed(chunk);
        PipeStep::Forward { bytes, status }
    }
}

/// The text of the error when the backend closed the connection.
pub fn closed_message() -> (r: String)
    ensures
        r@ == "backend closed connection unexpectedly"@,
{
    "backend closed connection unexpectedly".to_owned()
}

// ── Laws ─────────────────────────────────────────────────────────────────────

/// A scan stops within the bytes, and not before where it started.
proof fn lemma_scan_bounds(b: Seq<u8>, pos: int)
    requires
        0 <= pos <= b.len(),
    ensures
        scan_from(b, pos) matches Scan::Rest(p) ==> pos <= p <= b.len(),
    decreases b.len() - pos,
{
    let length = be_value(b.subrange(pos + 1, pos + 5));
    let next = pos + 1 + length;
    if pos + 5 <= b.len() && !(b[pos] == READY_FOR_QUERY && length == 5 && pos + 6 <= b.len())
        && pos < next <= b.len() {
        lemma_scan_bounds(b, next);
    }
}

/// More bytes do not change what was found in those before them.
proof fn lemma_scan_extends(a: Seq<u8>, c: Seq<u8>, pos: int)
    requires
        0 <= pos <= a.len(),
    ensures
        match scan_from(a, pos) {
            Scan::Ready(s) => scan_from(a + c, pos) == Scan::Ready(s),
            Scan::Rest(p) => scan_from(a + c, pos) == scan_from(a + c, p),
        },
    decreases a.len() - pos,
{
    let b = a + c;
    let length = be_value(a.subrange(pos + 1, pos + 5));
    let next = pos + 1 + length;
    if pos + 5 <= a.len() {
        assert(b.subrange(pos + 1, pos + 5) =~= a.subrange(pos + 1, pos + 5));
        if a[pos] == READY_FOR_QUERY && length == 5 && pos + 6 <= a.len() {
        } else if pos < next <= a.len() {
            lemma_scan_extends(a, c, next);
        }
    }
}

/// A scan does not depend on what stands before its start.
proof fn lemma_scan_shift(b: Seq<u8>, p: int, pos: int)
    requires
        0 <= p,
        0 <= pos,
        p + pos <= b.len(),
    ensures
        match scan_from(b.skip(p), pos) {
            Scan::Ready(s) => scan_from(b, p + pos) == Scan::Ready(s),
            Scan::Rest(q) => scan_from(b, p + pos) == Scan::Rest(p + q),
        },
    decreases b.len() - pos,
{
    let t = b.skip(p);
    let length = be_value(t.subrange(pos + 1, pos + 5));
    let next = pos + 1 + length;
    if pos + 5 <= t.len() {
        assert(b.subrange(p + pos + 1, p + pos + 5) =~= t.subrange(pos + 1, pos + 5));
        if t[pos] == READY_FOR_QUERY && length == 5 && pos + 6 <= t.len() {
        } else if pos < next <= t.len() {
            lemma_scan_shift(b, p, next);
        }
    }
}

/// It does not matter how a response is cut into reads: taking two pieces one
/// after the other finds what taking them together finds.
pub proof fn lemma_chunks_do_not_matter(seen: Seq<u8>, first: Seq<u8>, second: Seq<u8>)
    ensures
        match scan_from(seen + first, 0) {
            Scan::Ready(s) => scan_from(seen + (first + second), 0) == Scan::Ready(s),
            Scan::Rest(p) => match scan_from((seen + first).skip(p) + second, 0) {
                Scan::Ready(s) => scan_from(seen + (first + second), 0) == Scan::Ready(s),
                Scan::Rest(q) => {
                    &&& scan_from(seen + (first + second), 0) == Scan::Rest(p + q)
                    &&& (seen + (first + second)).skip(p + q) == ((seen + first).skip(p)
                        + second).skip(q)
                },
            },
        },
{
    let a = seen + first;
    let b = seen + (first + second);
    assert(b =~= a + second);
    lemma_scan_extends(a, second, 0);
    lemma_scan_bounds(a, 0);
    match scan_from(a, 0) {
        Scan::Ready(s) => {},
        Scan::Rest(p) => {
            assert(b.skip(p) =~= a.skip(p) + second);
            lemma_scan_shift(b, p, 0);
            lemma_scan_bounds(b.skip(p), 0);
            if let Scan::Rest(q) = scan_from(a.skip(p) + second, 0) {
                assert(b.skip(p + q) =~= (a.skip(p) + second).skip(q));
            }
        },
    }
}

/// The wire bytes of a sequence of backend messages.
pub open spec fn frames(messages: Seq<(u8, Seq<u8>)>) -> Seq<u8>
    decreases messages.len(),
{
    if messages.len() == 0 {
        Seq::empty()
    } else {
        frame(messages[0].0, messages[0].1) + frames(messages.skip(1))
    }
}

/// Whether a message is a `ReadyForQuery`.
pub open spec fn is_ready(m: (u8, Seq<u8>)) -> bool {
    m.0 == READY_FOR_QUERY && m.1.len() == 1
}

/// The end of a response is found behind any messages that are no
/// `ReadyForQuery`, with its transaction status.
pub proof fn lemma_end_is_found(messages: Seq<(u8, Seq<u8>)>, status: u8, rest: Seq<u8>)
    requires
        forall|i: int|
            0 <= i < messages.len() ==> !is_ready(#[trigger] messages[i]) && 4
                + messages[i].1.len() <= u32::MAX,
    ensures
        scan_from(frames(messages) + frame(READY_FOR_QUERY, seq![status]) + rest, 0)
            == Scan::Ready(status),
    decreases messages.len(),
{
    let end = frame(READY_FOR_QUERY, seq![status]);
    lemma_be_ranges();
    if messages.len() == 0 {
        let b = Seq::<u8>::empty() + end + rest;
        lemma_be_reads_back(5, 4);
        assert(b.subrange(1, 5) =~= crate::big_endian::be_bytes(5, 4));
        assert(b[5] == status);
    } else {
        let (t, body) = messages[0];
        let first = frame(t, body);
        let others = messages.skip(1);
        assert forall|i: int| 0 <= i < others.len() implies !is_ready(#[trigger] others[i]) && 4
            + others[i].1.len() <= u32::MAX by {
            assert(others[i] == messages[i + 1]);
        }
        lemma_end_is_found(others, status, rest);
        let tail = frames(others) + end + rest;
        let b = frames(messages) + end + rest;
        assert(b =~= first + tail);
        let n = (4 + body.len()) as int;
        lemma_be_reads_back(n, 4);
        assert(b.subrange(1, 5) =~= crate::big_endian::be_bytes(n, 4));
        assert(!is_ready(messages[0]));
        assert(b.skip(first.len() as int) =~= tail);
        lemma_scan_shift(b, first.len() as int, 0);
    }
}

/// The bytes of the reads, one after the other.
pub open spec fn joined(reads: Seq<Seq<u8>>) -> Seq<u8>
    decreases reads.len(),
{
    if reads.len() == 0 {
        Seq::empty()
    } else {
        reads[0] + joined(reads.skip(1))
    }
}

/// The status with which a response ends that comes in the given reads, and how
/// many of them are taken; `None` if it does not end. `seen` is what was
/// received before and belongs to no complete message yet.
pub open spec fn piped(seen: Seq<u8>, reads: Seq<Seq<u8>>) -> Option<(u8, int)>
    decreases reads.len(),
{
    if reads.len() == 0 {
        None
    } else {
        match scan_from(seen + reads[0], 0) {
            Scan::Ready(status) => Some((status, 1)),
            Scan::Rest(p) => match piped((seen + reads[0]).skip(p), reads.skip(1)) {
                Some((status, n)) => Some((status, n + 1)),
                None => None,
            },
        }
    }
}

/// What the client gets of a response that comes in the given reads: each of
/// them, until the response ends.
pub open spec fn forwarded(seen: Seq<u8>, reads: Seq<Seq<u8>>) -> Seq<u8>
    decreases reads.len(),
{
    if reads.len() == 0 {
        Seq::empty()
    } else {
        match scan_from(seen + reads[0], 0) {
            Scan::Ready(_) => reads[0],
            Scan::Rest(p) => reads[0] + forwarded((seen + reads[0]).skip(p), reads.skip(1)),
        }
    }
}

proof fn lemma_forwarded(seen: Seq<u8>, reads: Seq<Seq<u8>>)
    ensures
        piped(seen, reads) matches Some((status, n)) ==> 1 <= n <= reads.len() && forwarded(
            seen,
            reads,
        ) == joined(reads.take(n)),
    decreases reads.len(),
{
    if reads.len() > 0 {
        let others = reads.skip(1);
        match scan_from(seen + reads[0], 0) {
            Scan::Ready(_) => {
                reveal_with_fuel(joined, 2);
                assert(reads.take(1).skip(1) =~= Seq::empty());
                assert(joined(reads.take(1)) =~= reads[0]);
            },
            Scan::Rest(p) => {
                lemma_forwarded((seen + reads[0]).skip(p), others);
                if let Some((_, n)) = piped(seen, reads) {
                    assert(reads.take(n).skip(1) =~= others.take(n - 1));
                }
            },
        }
    }
}

proof fn lemma_piped(seen: Seq<u8>, reads: Seq<Seq<u8>>)
    requires
        scan_from(seen, 0) == Scan::Rest(0),
    ensures
        match piped(seen, reads) {
            Some((status, n)) => scan_from(seen + joined(reads), 0) == Scan::Ready(status) && 1 <= n
                <= reads.len(),
            None => scan_from(seen + joined(reads), 0) is Rest,
        },
    decreases reads.len(),
{
    if reads.len() == 0 {
        assert(seen + joined(reads) =~= seen);
    } else {
        let a = seen + reads[0];
        let rest = joined(reads.skip(1));
        assert(seen + joined(reads) =~= a + rest);
        lemma_scan_extends(a, rest, 0);
        lemma_scan_bounds(a, 0);
        if let Scan::Rest(p) = scan_from(a, 0) {
            let tail = a.skip(p);
            lemma_scan_extends(a, Seq::empty(), 0);
            assert(a + Seq::empty() =~= a);
            lemma_scan_shift(a, p, 0);
            assert(scan_from(tail, 0) == Scan::Rest(0));
            lemma_piped(tail, reads.skip(1));
            assert((a + rest).skip(p) =~= tail + rest);
            lemma_scan_shift(a + rest, p, 0);
        }
    }
}

/// However the bytes of a backend are cut into reads, also within a message, the
/// response ends with the status of its first `ReadyForQuery`, whatever the
/// messages before it hold. The client gets every byte that was read until then,
/// in order.
pub proof fn lemma_response_ends_whatever_the_cuts(
    messages: Seq<(u8, Seq<u8>)>,
    status: u8,
    rest: Seq<u8>,
    reads: Seq<Seq<u8>>,
)
    requires
        forall|i: int|
            0 <= i < messages.len() ==> !is_ready(#[trigger] messages[i]) && 4
                + messages[i].1.len() <= u32::MAX,
        joined(reads) == frames(messages) + frame(READY_FOR_QUERY, seq![status]) + rest,
    ensures
        piped(Seq::empty(), reads) matches Some((s, n)) && s == status && 1 <= n <= reads.len()
            && forwarded(Seq::empty(), reads) == joined(reads.take(n)),
{
    lemma_forwarded(Seq::empty(), reads);
    lemma_end_is_found(messages, status, rest);
    lemma_piped(Seq::empty(), reads);
    assert(Seq::<u8>::empty() + joined(reads) =~= joined(reads));
}

/// Frames without a `ReadyForQuery` leave nothing behind: the scan asks for
/// more, and has nothing left over.
pub proof fn lemma_open_response_leaves_nothing(messages: Seq<(u8, Seq<u8>)>)
    requires
        forall|i: int|
            0 <= i < messages.len() ==> !is_ready(#[trigger] messages[i]) && 4
                + messages[i].1.len() <= u32::MAX,
    ensures
        scan_from(frames(messages), 0) == Scan::Rest(frames(messages).len() as int),
    decreases messages.len(),
{
    lemma_be_ranges();
    if messages.len() > 0 {
        let (t, body) = messages[0];
        let first = frame(t, body);
        let others = messages.skip(1);
        assert forall|i: int| 0 <= i < others.len() implies !is_ready(#[trigger] others[i]) && 4
            + others[i].1.len() <= u32::MAX by {
            assert(others[i] == messages[i + 1]);
        }
        lemma_open_response_leaves_nothing(others);
        let b = frames(messages);
        let n = (4 + body.len()) as int;
        lemma_be_reads_back(n, 4);
        assert(b.subrange(1, 5) =~= crate::big_endian::be_bytes(n, 4));
        assert(!is_ready(messages[0]));
        assert(b.skip(first.len() as int) =~= frames(others));
        lemma_scan_shift(b, first.len() as int, 0);
    }
}

} // verus!
