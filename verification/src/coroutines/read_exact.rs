//! I/O-free coroutine to read exactly N bytes from a socket.

use vstd::prelude::*;
use crate::io::{
    SocketInput, SocketInputView, SocketOutput, SocketOutputView, all_read_bytes, arg_view, is_data,
    is_eof, read_bytes, read_output_fits, zeros,
};
use crate::coroutines::read::{ReadSocket, ReadSocketError, ReadSocketErrorView, ReadSocketResult};

verus! {

/// Errors that can occur during the coroutine progression.
#[derive(Clone, Debug, Eq, PartialEq)]
pub enum ReadSocketExactError {
    /// The socket reached EOF before `max` bytes could be read.
    ///
    /// Carries the number of bytes still missing, the total target, and
    /// the bytes that were accumulated before EOF.
    UnexpectedEof(usize, usize, Vec<u8>),
    /// Error from the inner [`ReadSocket`] coroutine.
    Read(ReadSocketError),
}

/// Output emitted after the coroutine finishes its progression.
#[derive(Clone, Debug, Eq, PartialEq)]
pub enum ReadSocketExactResult {
    /// The coroutine has read the requested number of bytes.
    Done { buf: Vec<u8> },
    /// A socket I/O needs to be performed to make the coroutine progress.
    Io { input: SocketInput },
    /// An error occurred during the coroutine progression.
    Failed { err: ReadSocketExactError },
}

/// Mathematical model of a [`ReadSocketExactError`].
pub enum ReadSocketExactErrorView {
    UnexpectedEof(nat, nat, Seq<u8>),
    Read(ReadSocketErrorView),
}

/// Mathematical model of a [`ReadSocketExactResult`].
pub enum ReadSocketExactResultView {
    Done { buf: Seq<u8> },
    Io { input: SocketInputView },
    Failed { err: ReadSocketExactErrorView },
}

impl View for ReadSocketExactError {
    type V = ReadSocketExactErrorView;

    open spec fn view(&self) -> ReadSocketExactErrorView {
        match self {
            ReadSocketExactError::UnexpectedEof(missing, max, buf) =>
                ReadSocketExactErrorView::UnexpectedEof(*missing as nat, *max as nat, buf@),
            ReadSocketExactError::Read(err) => ReadSocketExactErrorView::Read(err@),
        }
    }
}

impl View for ReadSocketExactResult {
    type V = ReadSocketExactResultView;

    open spec fn view(&self) -> ReadSocketExactResultView {
        match self {
            ReadSocketExactResult::Done { buf } => ReadSocketExactResultView::Done { buf: buf@ },
            ReadSocketExactResult::Io { input } => ReadSocketExactResultView::Io { input: input@ },
            ReadSocketExactResult::Failed { err } => ReadSocketExactResultView::Failed { err: err@ },
        }
    }
}

impl From<ReadSocketError> for ReadSocketExactError {
    fn from(err: ReadSocketError) -> (r: Self) {
        ReadSocketExactError::Read(err)
    }
}

impl vstd::std_specs::convert::FromSpecImpl<ReadSocketError> for ReadSocketExactError {
    open spec fn obeys_from_spec() -> bool {
        true
    }

    open spec fn from_spec(err: ReadSocketError) -> ReadSocketExactError {
        ReadSocketExactError::Read(err)
    }
}

/// Mathematical model of a [`ReadSocketExact`]: the bytes accumulated so
/// far, the target byte count, and the size of the inner read buffer.
pub struct ReadSocketExactView {
    pub buffer: Seq<u8>,
    pub max: nat,
    pub chunk: nat,
}

/// The smaller of two sizes.
pub open spec fn min_size(a: nat, b: nat) -> nat {
    if a <= b { a } else { b }
}

/// The number of bytes still missing to reach `max`.
pub open spec fn missing(buffer: Seq<u8>, max: nat) -> nat {
    if buffer.len() < max { (max - buffer.len()) as nat } else { 0 }
}

/// What one call of [`ReadSocketExact::resume`] answers, and the bytes it
/// keeps accumulated afterwards.
///
/// Once `max` bytes are there, they are handed out. Otherwise a runtime
/// output that holds bytes adds them; end of file fails with the missing
/// count, the target and the accumulated bytes; an output of the wrong
/// kind fails. Every read request asks for at most the missing bytes.
pub open spec fn exact_outcome(s: ReadSocketExactView, arg: Option<SocketOutputView>) -> (
    ReadSocketExactResultView,
    Seq<u8>,
) {
    if s.buffer.len() >= s.max {
        (ReadSocketExactResultView::Done { buf: s.buffer }, Seq::empty())
    } else {
        let remaining = missing(s.buffer, s.max);
        match arg {
            None => (
                ReadSocketExactResultView::Io {
                    input: SocketInputView::Read { buf: zeros(min_size(s.chunk, remaining)) },
                },
                s.buffer,
            ),
            Some(out) => match out {
                SocketOutputView::Wrote { .. } => (
                    ReadSocketExactResultView::Failed {
                        err: ReadSocketExactErrorView::Read(ReadSocketErrorView::UnexpectedArg(out)),
                    },
                    s.buffer,
                ),
                SocketOutputView::Read { buf, n } => if n == 0 {
                    (
                        ReadSocketExactResultView::Failed {
                            err: ReadSocketExactErrorView::UnexpectedEof(remaining, s.max, s.buffer),
                        },
                        Seq::empty(),
                    )
                } else {
                    let filled = s.buffer + buf.take(n as int);
                    if filled.len() >= s.max {
                        (ReadSocketExactResultView::Done { buf: filled }, Seq::empty())
                    } else {
                        (
                            ReadSocketExactResultView::Io {
                                input: SocketInputView::Read {
                                    buf: zeros(min_size(buf.len(), missing(filled, s.max))),
                                },
                            },
                            filled,
                        )
                    }
                },
            },
        }
    }
}

/// The size of the inner read buffer after one call of
/// [`ReadSocketExact::resume`]. Where a request was just handed out, the
/// inner coroutine took a fresh buffer of the old one's capacity, whose
/// size the allocator decides: only bounds hold there.
pub open spec fn exact_chunk_after(s: ReadSocketExactView, arg: Option<SocketOutputView>, chunk: nat) -> bool {
    if s.buffer.len() >= s.max {
        chunk == s.chunk
    } else {
        let remaining = missing(s.buffer, s.max);
        match arg {
            None => min_size(s.chunk, remaining) <= chunk <= isize::MAX,
            Some(out) => match out {
                SocketOutputView::Wrote { .. } => chunk == min_size(s.chunk, remaining),
                SocketOutputView::Read { buf, n } => if n == 0 {
                    chunk == min_size(s.chunk, remaining)
                } else {
                    let filled = s.buffer + buf.take(n as int);
                    if filled.len() >= s.max {
                        chunk == buf.len()
                    } else {
                        min_size(buf.len(), missing(filled, s.max)) <= chunk <= isize::MAX
                    }
                },
            },
        }
    }
}

/// Once the bytes held reach the target (pre-filled bytes count toward
/// it), the coroutine hands them all out, as they are, and keeps nothing,
/// whatever it is resumed with: no read request goes out then.
pub proof fn lemma_exact_target_reached(s: ReadSocketExactView, arg: Option<SocketOutputView>)
    requires
        s.buffer.len() >= s.max,
    ensures
        exact_outcome(s, arg).0 == (ReadSocketExactResultView::Done { buf: s.buffer }),
        exact_outcome(s, arg).1.len() == 0,
{
}

/// A read request goes out only while bytes are missing, both before and
/// after the call; it asks for at least one byte unless the inner read
/// buffer itself is empty; and handing it out without an output keeps the
/// bytes held as they were.
pub proof fn lemma_exact_request_only_when_missing(s: ReadSocketExactView, arg: Option<SocketOutputView>)
    requires
        read_output_fits(arg),
    ensures
        exact_outcome(s, arg).0 matches ReadSocketExactResultView::Io { input } ==> {
            &&& s.buffer.len() < s.max
            &&& exact_outcome(s, arg).1.len() < s.max
            &&& input matches SocketInputView::Read { buf } && (arg is Some || s.chunk > 0 ==> buf.len() > 0)
        },
        arg is None && s.buffer.len() < s.max ==> exact_outcome(s, arg).1 == s.buffer,
{
}

/// The bytes accumulated after resuming, one call each, with every
/// output of `outs` in order.
pub open spec fn exact_run(s: ReadSocketExactView, outs: Seq<SocketOutputView>) -> Seq<u8>
    decreases outs.len(),
{
    if outs.len() == 0 {
        s.buffer
    } else {
        let before = ReadSocketExactView { buffer: exact_run(s, outs.drop_last()), ..s };
        exact_outcome(before, Some(outs.last())).1
    }
}

/// A read request never asks for more than the bytes still missing: the
/// bytes kept plus the requested size stay within the target.
pub proof fn lemma_exact_request_within_target(s: ReadSocketExactView, arg: Option<SocketOutputView>)
    ensures
        exact_outcome(s, arg).0 matches ReadSocketExactResultView::Io {
            input: SocketInputView::Read { buf },
        } ==> exact_outcome(s, arg).1.len() + buf.len() <= s.max,
{
}

/// The target is never overshot: when at most the target is held and the
/// runtime brings no more bytes than are missing (as it does when it
/// answers one of the coroutine's requests), at most the target is held
/// afterwards, and a completed read holds exactly the target.
pub proof fn lemma_exact_within_target(s: ReadSocketExactView, out: SocketOutputView)
    requires
        s.buffer.len() <= s.max,
        out matches SocketOutputView::Read { buf, n } && n <= buf.len() && n <= missing(s.buffer, s.max),
    ensures
        exact_outcome(s, Some(out)).1.len() <= s.max,
        exact_outcome(s, Some(out)).0 matches ReadSocketExactResultView::Done { buf } ==> buf.len() == s.max,
{
}

/// End of file before the target fails with the number of bytes still
/// missing, the target, and every byte accumulated so far, which the
/// coroutine no longer holds.
pub proof fn lemma_exact_eof(s: ReadSocketExactView, eof: SocketOutputView)
    requires
        is_eof(eof),
        s.buffer.len() < s.max,
    ensures
        exact_outcome(s, Some(eof)) == (
            ReadSocketExactResultView::Failed {
                err: ReadSocketExactErrorView::UnexpectedEof((s.max - s.buffer.len()) as nat, s.max, s.buffer),
            },
            Seq::<u8>::empty(),
        ),
{
}

/// While the target is not reached, every output that brings bytes adds
/// them after those already held.
pub proof fn lemma_exact_accumulates(s: ReadSocketExactView, outs: Seq<SocketOutputView>)
    requires
        forall|i: int| 0 <= i < outs.len() ==> is_data(#[trigger] outs[i]),
        s.buffer.len() + all_read_bytes(outs).len() < s.max,
    ensures
        exact_run(s, outs) == s.buffer + all_read_bytes(outs),
    decreases outs.len(),
{
    if outs.len() == 0 {
        assert(s.buffer + all_read_bytes(outs) =~= s.buffer);
    } else {
        let init = outs.drop_last();
        assert(is_data(outs.last()));
        lemma_exact_accumulates(s, init);
        assert(s.buffer + all_read_bytes(outs) =~= (s.buffer + all_read_bytes(init)) + read_bytes(outs.last()));
    }
}

/// Reading exactly N bytes collects them in order: when outputs that each
/// bring bytes bring, together, exactly the missing bytes, the coroutine
/// answers every one but the last with a read request, and the last with
/// the bytes it held followed by all bytes read, exactly the target, and
/// keeps nothing.
pub proof fn lemma_exact_collects(s: ReadSocketExactView, outs: Seq<SocketOutputView>)
    requires
        outs.len() > 0,
        forall|i: int| 0 <= i < outs.len() ==> is_data(#[trigger] outs[i]),
        s.buffer.len() + all_read_bytes(outs).len() == s.max,
    ensures
        forall|k: int|
            0 <= k < outs.len() - 1 ==> (#[trigger] exact_outcome(
                ReadSocketExactView { buffer: exact_run(s, outs.take(k)), ..s },
                Some(outs[k]),
            )).0 is Io,
        exact_outcome(ReadSocketExactView { buffer: exact_run(s, outs.drop_last()), ..s }, Some(outs.last()))
            == (ReadSocketExactResultView::Done { buf: s.buffer + all_read_bytes(outs) }, Seq::<u8>::empty()),
        (s.buffer + all_read_bytes(outs)).len() == s.max,
{
    let init = outs.drop_last();
    assert(is_data(outs.last()));
    lemma_read_bytes_grow(outs, init.len() as int);
    lemma_exact_accumulates(s, init);
    assert(s.buffer + all_read_bytes(outs) =~= (s.buffer + all_read_bytes(init)) + read_bytes(outs.last()));
    assert forall|k: int| 0 <= k < outs.len() - 1 implies (#[trigger] exact_outcome(
        ReadSocketExactView { buffer: exact_run(s, outs.take(k)), ..s },
        Some(outs[k]),
    )).0 is Io by {
        let pre = outs.take(k);
        assert forall|i: int| 0 <= i < pre.len() implies is_data(#[trigger] pre[i]) by {
            assert(pre[i] == outs[i]);
        }
        lemma_read_bytes_grow(outs, k + 1);
        assert(outs.take(k + 1).drop_last() =~= pre);
        assert(outs.take(k + 1).last() == outs[k]);
        lemma_exact_accumulates(s, pre);
        assert(is_data(outs[k]));
    }
}

/// The bytes of a prefix of data outputs are strictly fewer than those of
/// a longer prefix, and a whole sequence brings at least what a prefix does.
proof fn lemma_read_bytes_grow(outs: Seq<SocketOutputView>, k: int)
    requires
        0 <= k <= outs.len(),
        forall|i: int| 0 <= i < outs.len() ==> is_data(#[trigger] outs[i]),
    ensures
        all_read_bytes(outs.take(k)).len() + (outs.len() - k) <= all_read_bytes(outs).len(),
    decreases outs.len() - k,
{
    if k == outs.len() {
        assert(outs.take(k) =~= outs);
    } else {
        lemma_read_bytes_grow(outs, k + 1);
        assert(outs.take(k + 1).drop_last() =~= outs.take(k));
        assert(outs.take(k + 1).last() == outs[k]);
        assert(is_data(outs[k]));
    }
}

/// Resumed with a runtime output, the coroutine answers the same whatever
/// the size of its inner read buffer: a run of calls with outputs follows
/// [`exact_run`] however that size changed between the calls.
pub proof fn lemma_exact_outcome_ignores_chunk(s: ReadSocketExactView, out: SocketOutputView, chunk: nat)
    ensures
        exact_outcome(ReadSocketExactView { chunk, ..s }, Some(out)) == exact_outcome(s, Some(out)),
{
}

/// The size of the read request that answer `k` of a run replies to: the
/// first request comes from resuming without argument, every later one
/// from the previous answer, and each is capped at the missing bytes.
pub open spec fn exact_request_size(s: ReadSocketExactView, outs: Seq<SocketOutputView>, k: int) -> nat {
    let held = exact_run(s, outs.take(k));
    if k == 0 {
        min_size(s.chunk, missing(held, s.max))
    } else {
        match outs[k - 1] {
            SocketOutputView::Read { buf, .. } => min_size(buf.len(), missing(held, s.max)),
            SocketOutputView::Wrote { .. } => 0,
        }
    }
}

/// A run of answered requests: every output brings at least one byte and
/// no more than the request it replies to asks for, and it comes while
/// the bytes held and read so far are still short of the target.
#[verifier::opaque]
pub open spec fn exact_answered(s: ReadSocketExactView, outs: Seq<SocketOutputView>) -> bool {
    forall|k: int|
        0 <= k < outs.len() ==> {
            &&& is_data(#[trigger] outs[k])
            &&& outs[k] matches SocketOutputView::Read { n, .. } && n <= exact_request_size(s, outs, k)
            &&& s.buffer.len() + all_read_bytes(outs.take(k)).len() < s.max
        }
}

/// One answer of a run of answered requests: it comes while the bytes
/// held are those held at first followed by all bytes read before it, and
/// it brings no more than the missing bytes.
proof fn lemma_exact_answered_step(s: ReadSocketExactView, outs: Seq<SocketOutputView>, k: int)
    requires
        exact_answered(s, outs),
        0 <= k < outs.len(),
    ensures
        exact_run(s, outs.take(k)) == s.buffer + all_read_bytes(outs.take(k)),
        s.buffer + all_read_bytes(outs.take(k + 1)) == exact_run(s, outs.take(k)) + read_bytes(outs[k]),
        s.buffer.len() + all_read_bytes(outs.take(k + 1)).len() <= s.max,
        s.buffer.len() + all_read_bytes(outs.take(k)).len() < s.max,
        is_data(outs[k]),
{
    reveal(exact_answered);
    let pre = outs.take(k);
    let next = outs.take(k + 1);
    assert(is_data(outs[k]));
    assert(s.buffer.len() + all_read_bytes(pre).len() < s.max);
    assert(outs[k] matches SocketOutputView::Read { n, .. } && n <= exact_request_size(s, outs, k));
    assert forall|i: int| 0 <= i < pre.len() implies is_data(#[trigger] pre[i]) by {
        assert(pre[i] == outs[i]);
        assert(is_data(outs[i]));
    }
    lemma_exact_accumulates(s, pre);
    assert(next.drop_last() =~= pre);
    assert(next.last() == outs[k]);
    assert(s.buffer + all_read_bytes(next) =~= (s.buffer + all_read_bytes(pre)) + read_bytes(outs[k]));
}

/// Reading exactly N bytes from a runtime that answers each request
/// (with at least one byte, at most the requested size) never reads more
/// than the target: every answer but the last gets a new read request,
/// the bytes held are those held at first followed by all bytes read, in
/// order, and the last answer completes the read with exactly the target
/// when the bytes read reach it, or asks for the rest otherwise.
pub proof fn lemma_exact_answered_run(s: ReadSocketExactView, outs: Seq<SocketOutputView>)
    requires
        outs.len() > 0,
        exact_answered(s, outs),
    ensures
        s.buffer.len() + all_read_bytes(outs).len() <= s.max,
        exact_run(s, outs.drop_last()) == s.buffer + all_read_bytes(outs.drop_last()),
        forall|k: int|
            0 <= k < outs.len() - 1 ==> (#[trigger] exact_outcome(
                ReadSocketExactView { buffer: exact_run(s, outs.take(k)), ..s },
                Some(outs[k]),
            )).0 is Io,
        exact_outcome(ReadSocketExactView { buffer: exact_run(s, outs.drop_last()), ..s }, Some(outs.last())).0
            == if s.buffer.len() + all_read_bytes(outs).len() == s.max {
            ReadSocketExactResultView::Done { buf: s.buffer + all_read_bytes(outs) }
        } else {
            ReadSocketExactResultView::Io {
                input: SocketInputView::Read {
                    buf: zeros(
                        min_size(
                            outs.last()->Read_buf.len(),
                            (s.max - s.buffer.len() - all_read_bytes(outs).len()) as nat,
                        ),
                    ),
                },
            }
        },
{
    let last = outs.len() - 1;
    lemma_exact_answered_step(s, outs, last);
    assert(outs.drop_last() =~= outs.take(last));
    assert(outs.take(last + 1) =~= outs);
    assert(outs.last() == outs[last]);
    assert forall|k: int| 0 <= k < outs.len() - 1 implies (#[trigger] exact_outcome(
        ReadSocketExactView { buffer: exact_run(s, outs.take(k)), ..s },
        Some(outs[k]),
    )).0 is Io by {
        lemma_exact_answered_step(s, outs, k);
        lemma_exact_answered_step(s, outs, k + 1);
    }
}

/// The bytes accumulated over outputs do not depend on the size of the
/// inner read buffer.
proof fn lemma_exact_run_ignores_chunk(s: ReadSocketExactView, outs: Seq<SocketOutputView>, chunk: nat)
    ensures
        exact_run(ReadSocketExactView { chunk, ..s }, outs) == exact_run(s, outs),
    decreases outs.len(),
{
    if outs.len() > 0 {
        lemma_exact_run_ignores_chunk(s, outs.drop_last(), chunk);
    }
}

/// A whole run of reading exactly N bytes: the first call, without an
/// output, hands out a request and keeps the bytes held (those
/// pre-filled); then, whatever size the inner read buffer took, a runtime
/// that answers every request until the target is reached makes the last
/// answer complete the read with the bytes held at first followed by
/// every byte read, in order: exactly the target, never more.
pub proof fn lemma_exact_whole_run(s: ReadSocketExactView, chunk: nat, outs: Seq<SocketOutputView>)
    requires
        s.buffer.len() < s.max,
        outs.len() > 0,
        exact_answered(s, outs),
        s.buffer.len() + all_read_bytes(outs).len() == s.max,
    ensures
        ({
            let started = ReadSocketExactView { buffer: exact_outcome(s, None).1, max: s.max, chunk };
            &&& exact_outcome(s, None).0 is Io
            &&& forall|last: nat|
                #[trigger] exact_outcome(
                    ReadSocketExactView { buffer: exact_run(started, outs.drop_last()), max: s.max, chunk: last },
                    Some(outs.last()),
                ) == (ReadSocketExactResultView::Done { buf: s.buffer + all_read_bytes(outs) }, Seq::<u8>::empty())
        }),
        (s.buffer + all_read_bytes(outs)).len() == s.max,
{
    lemma_exact_answered_run(s, outs);
    lemma_exact_run_ignores_chunk(s, outs.drop_last(), chunk);
    let started = ReadSocketExactView { buffer: exact_outcome(s, None).1, max: s.max, chunk };
    assert(started == ReadSocketExactView { chunk, ..s });
}

/// I/O-free coroutine to read exactly N bytes from a socket.
///
/// Drives a [`ReadSocket`] coroutine in a loop, accumulating chunks
/// until exactly `max` bytes have been received. If the socket reaches
/// EOF before that, the coroutine fails with
/// [`ReadSocketExactError::UnexpectedEof`] along with whatever bytes
/// were accumulated.
#[derive(Debug)]
pub struct ReadSocketExact {
    /// Inner single-read coroutine, reused across iterations.
    read: ReadSocket,
    /// Accumulates bytes across multiple reads until `max` is reached.
    buffer: Vec<u8>,
    /// Target byte count.
    max: usize,
}

impl View for ReadSocketExact {
    type V = ReadSocketExactView;

    closed spec fn view(&self) -> ReadSocketExactView {
        ReadSocketExactView { buffer: self.buffer@, max: self.max as nat, chunk: self.read@ }
    }
}

impl ReadSocketExact {
    /// Creates a new coroutine using a read buffer with
    /// [`ReadSocket::DEFAULT_CAPACITY`] capacity.
    pub fn new(max: usize) -> (r: Self)
        ensures
            r@ == (ReadSocketExactView {
                buffer: Seq::empty(),
                max: max as nat,
                chunk: min_size(ReadSocket::DEFAULT_CAPACITY as nat, max as nat),
            }),
    {
        Self::with_capacity(ReadSocket::DEFAULT_CAPACITY, max)
    }

    /// Creates a new coroutine using a read buffer with the given
    /// capacity, capped at `max`: there is no point requesting more bytes
    /// than the target.
    pub fn with_capacity(capacity: usize, max: usize) -> (r: Self)
        ensures
            r@ == (ReadSocketExactView {
                buffer: Seq::empty(),
                max: max as nat,
                chunk: min_size(capacity as nat, max as nat),
            }),
    {
        let size = if capacity <= max { capacity } else { max };
        let read = ReadSocket::with_capacity(size);
        let buffer: Vec<u8> = Vec::with_capacity(max);
        Self { read, buffer, max }
    }

    /// Pre-fills the accumulation buffer with `bytes`, which then count
    /// toward the target.
    pub fn extend(&mut self, bytes: &[u8])
        ensures
            final(self)@ == (ReadSocketExactView { buffer: old(self)@.buffer + bytes@, ..old(self)@ }),
    {
        self.buffer.extend_from_slice(bytes);
        assert(self.buffer@ =~= old(self)@.buffer + bytes@);
    }

    /// Advances the coroutine.
    ///
    /// Pass `None` on the first call. On subsequent calls, pass the
    /// [`SocketOutput`] returned by the runtime after processing the last
    /// emitted [`SocketInput`]. Answers as [`exact_outcome`] says.
    ///
    /// While the target is not reached, a read output must not claim more
    /// bytes than its buffer holds.
    pub fn resume(&mut self, arg: Option<SocketOutput>) -> (r: ReadSocketExactResult)
        requires
            old(self)@.buffer.len() < old(self)@.max ==> read_output_fits(arg_view(arg)),
        ensures
            (r@, final(self)@.buffer) == exact_outcome(old(self)@, arg_view(arg)),
            final(self)@.max == old(self)@.max,
            exact_chunk_after(old(self)@, arg_view(arg), final(self)@.chunk),
    {
        let ghost s0 = self@;
        let ghost a0 = arg_view(arg);
        let mut pending = arg;
        loop
            invariant
                s0 == old(self)@,
                a0 == arg_view(arg),
                self.max == s0.max,
                s0.buffer.len() < s0.max ==> read_output_fits(a0),
                (arg_view(pending) == a0 && self@ == s0) || ({
                    &&& pending is None
                    &&& s0.buffer.len() < s0.max
                    &&& a0 matches Some(SocketOutputView::Read { buf, n })
                    &&& n > 0
                    &&& self@.buffer == s0.buffer + buf.take(n as int)
                    &&& self@.chunk == buf.len()
                }),
            decreases (if pending is Some { 1int } else { 0int }),
        {
            if self.buffer.len() >= self.max {
                let mut buf: Vec<u8> = Vec::new();
                std::mem::swap(&mut buf, &mut self.buffer);
                assert(self.buffer@ =~= Seq::<u8>::empty());
                return ReadSocketExactResult::Done { buf };
            }
            let remaining = self.max - self.buffer.len();
            // Shrink the inner read buffer so the target is never overshot.
            if remaining < self.read.capacity() {
                self.read.truncate(remaining);
            }
            match self.read.resume(pending.take()) {
                ReadSocketResult::Done { buf, n } => {
                    let chunk = vstd::slice::slice_subrange(buf.as_slice(), 0, n);
                    self.buffer.extend_from_slice(chunk);
                    self.read.replace(buf);
                },
                ReadSocketResult::Failed { err } => {
                    return ReadSocketExactResult::Failed { err: ReadSocketExactError::from(err) };
                },
                ReadSocketResult::Io { input } => {
                    return ReadSocketExactResult::Io { input };
                },
                ReadSocketResult::Eof => {
                    let mut buf: Vec<u8> = Vec::new();
                    std::mem::swap(&mut buf, &mut self.buffer);
                    let err = ReadSocketExactError::UnexpectedEof(remaining, self.max, buf);
                    return ReadSocketExactResult::Failed { err };
                },
            }
        }
    }
}

} // verus!
