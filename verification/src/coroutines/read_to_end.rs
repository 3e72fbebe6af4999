//! I/O-free coroutine to read from a socket until EOF.

use vstd::prelude::*;
use crate::io::{
    SocketInput, SocketInputView, SocketOutput, SocketOutputView, all_read_bytes, arg_view, is_data,
    is_eof, read_output_fits, zeros,
};
use crate::coroutines::read::{ReadSocket, ReadSocketError, ReadSocketErrorView, ReadSocketResult};

verus! {

/// Errors that can occur during the coroutine progression.
#[derive(Clone, Debug, Eq, PartialEq)]
pub enum SocketReadToEndError {
    /// Error from the inner [`ReadSocket`] coroutine.
    Read(ReadSocketError),
}

/// Output emitted after the coroutine finishes its progression.
#[derive(Clone, Debug, Eq, PartialEq)]
pub enum SocketReadToEndResult {
    /// The coroutine has read all bytes up to EOF.
    Done { buf: Vec<u8> },
    /// A socket I/O needs to be performed to make the coroutine progress.
    Io { input: SocketInput },
    /// An error occurred during the coroutine progression.
    Failed { err: SocketReadToEndError },
}

/// Mathematical model of a [`SocketReadToEndError`].
pub enum SocketReadToEndErrorView {
    Read(ReadSocketErrorView),
}

/// Mathematical model of a [`SocketReadToEndResult`].
pub enum SocketReadToEndResultView {
    Done { buf: Seq<u8> },
    Io { input: SocketInputView },
    Failed { err: SocketReadToEndErrorView },
}

impl View for SocketReadToEndError {
    type V = SocketReadToEndErrorView;

    open spec fn view(&self) -> SocketReadToEndErrorView {
        match self {
            SocketReadToEndError::Read(err) => SocketReadToEndErrorView::Read(err@),
        }
    }
}

impl View for SocketReadToEndResult {
    type V = SocketReadToEndResultView;

    open spec fn view(&self) -> SocketReadToEndResultView {
        match self {
            SocketReadToEndResult::Done { buf } => SocketReadToEndResultView::Done { buf: buf@ },
            SocketReadToEndResult::Io { input } => SocketReadToEndResultView::Io { input: input@ },
            SocketReadToEndResult::Failed { err } => SocketReadToEndResultView::Failed { err: err@ },
        }
    }
}

impl From<ReadSocketError> for SocketReadToEndError {
    fn from(err: ReadSocketError) -> (r: Self) {
        SocketReadToEndError::Read(err)
    }
}

impl vstd::std_specs::convert::FromSpecImpl<ReadSocketError> for SocketReadToEndError {
    open spec fn obeys_from_spec() -> bool {
        true
    }

    open spec fn from_spec(err: ReadSocketError) -> SocketReadToEndError {
        SocketReadToEndError::Read(err)
    }
}

/// Mathematical model of a [`SocketReadToEnd`]: the bytes accumulated so
/// far and the size of the inner read buffer.
pub struct SocketReadToEndView {
    pub buffer: Seq<u8>,
    pub chunk: nat,
}

/// What one call of [`SocketReadToEnd::resume`] answers, and the bytes it
/// keeps accumulated afterwards.
///
/// A runtime output that holds bytes adds them and a new read request of
/// the same size goes out; end of file hands out everything accumulated;
/// an output of the wrong kind fails.
pub open spec fn to_end_outcome(s: SocketReadToEndView, arg: Option<SocketOutputView>) -> (
    SocketReadToEndResultView,
    Seq<u8>,
) {
    match arg {
        None => (
            SocketReadToEndResultView::Io { input: SocketInputView::Read { buf: zeros(s.chunk) } },
            s.buffer,
        ),
        Some(out) => match out {
            SocketOutputView::Wrote { .. } => (
                SocketReadToEndResultView::Failed {
                    err: SocketReadToEndErrorView::Read(ReadSocketErrorView::UnexpectedArg(out)),
                },
                s.buffer,
            ),
            SocketOutputView::Read { buf, n } => if n == 0 {
                (SocketReadToEndResultView::Done { buf: s.buffer }, Seq::empty())
            } else {
                (
                    SocketReadToEndResultView::Io {
                        input: SocketInputView::Read { buf: zeros(buf.len()) },
                    },
                    s.buffer + buf.take(n as int),
                )
            },
        },
    }
}

/// The size of the inner read buffer after one call of
/// [`SocketReadToEnd::resume`]. Where a request was just handed out, the
/// inner coroutine took a fresh buffer of the old one's capacity, whose
/// size the allocator decides: only bounds hold there.
pub open spec fn to_end_chunk_after(s: SocketReadToEndView, arg: Option<SocketOutputView>, chunk: nat) -> bool {
    match arg {
        None => s.chunk <= chunk <= isize::MAX,
        Some(out) => match out {
            SocketOutputView::Wrote { .. } => chunk == s.chunk,
            SocketOutputView::Read { buf, n } => if n == 0 {
                chunk == s.chunk
            } else {
                buf.len() <= chunk <= isize::MAX
            },
        },
    }
}

/// The bytes accumulated after resuming, one call each, with every
/// output of `outs` in order.
pub open spec fn to_end_run(s: SocketReadToEndView, outs: Seq<SocketOutputView>) -> Seq<u8>
    decreases outs.len(),
{
    if outs.len() == 0 {
        s.buffer
    } else {
        let before = SocketReadToEndView { buffer: to_end_run(s, outs.drop_last()), ..s };
        to_end_outcome(before, Some(outs.last())).1
    }
}

/// Resumed with a runtime output, the coroutine answers the same whatever
/// the size of its inner read buffer: a run of calls with outputs follows
/// [`to_end_run`] however that size changed between the calls.
pub proof fn lemma_to_end_outcome_ignores_chunk(s: SocketReadToEndView, out: SocketOutputView, chunk: nat)
    ensures
        to_end_outcome(SocketReadToEndView { chunk, ..s }, Some(out)) == to_end_outcome(s, Some(out)),
{
}

/// Reading until EOF collects every byte read, in order: resumed with
/// outputs that each bring bytes, the coroutine answers each with a new
/// read request and accumulates the bytes after those it already held.
pub proof fn lemma_to_end_accumulates(s: SocketReadToEndView, outs: Seq<SocketOutputView>)
    requires
        forall|i: int| 0 <= i < outs.len() ==> is_data(#[trigger] outs[i]),
    ensures
        to_end_run(s, outs) == s.buffer + all_read_bytes(outs),
        forall|k: int|
            0 <= k < outs.len() ==> (#[trigger] to_end_outcome(
                SocketReadToEndView { buffer: to_end_run(s, outs.take(k)), ..s },
                Some(outs[k]),
            )).0 is Io,
    decreases outs.len(),
{
    if outs.len() == 0 {
        assert(s.buffer + all_read_bytes(outs) =~= s.buffer);
    } else {
        let init = outs.drop_last();
        lemma_to_end_accumulates(s, init);
        assert(s.buffer + all_read_bytes(outs) =~= (s.buffer + all_read_bytes(init)) + crate::io::read_bytes(outs.last()));
        assert forall|k: int| 0 <= k < outs.len() implies (#[trigger] to_end_outcome(
            SocketReadToEndView { buffer: to_end_run(s, outs.take(k)), ..s },
            Some(outs[k]),
        )).0 is Io by {
            assert(is_data(outs[k]));
        }
    }
}

/// Reading until EOF hands out everything: after outputs that each bring
/// bytes, an end-of-file output makes the coroutine answer with the bytes
/// it held before followed by all bytes read, in order, and keep nothing.
pub proof fn lemma_to_end_collects(s: SocketReadToEndView, outs: Seq<SocketOutputView>, eof: SocketOutputView)
    requires
        forall|i: int| 0 <= i < outs.len() ==> is_data(#[trigger] outs[i]),
        is_eof(eof),
    ensures
        forall|chunk: nat|
            #[trigger] to_end_outcome(SocketReadToEndView { buffer: to_end_run(s, outs), chunk }, Some(eof))
                == (SocketReadToEndResultView::Done { buf: s.buffer + all_read_bytes(outs) }, Seq::<u8>::empty()),
{
    lemma_to_end_accumulates(s, outs);
}

/// Handing out a read request keeps every byte held, pre-filled ones
/// included, and the request has the size of the inner read buffer; an
/// output of the wrong kind keeps them too.
pub proof fn lemma_to_end_request_keeps_bytes(s: SocketReadToEndView, arg: Option<SocketOutputView>)
    ensures
        arg is None ==> to_end_outcome(s, arg) == (
            SocketReadToEndResultView::Io { input: SocketInputView::Read { buf: zeros(s.chunk) } },
            s.buffer,
        ),
        (arg matches Some(SocketOutputView::Wrote { .. })) ==> to_end_outcome(s, arg).1 == s.buffer,
        to_end_outcome(s, arg).0 is Io ==> s.buffer.is_prefix_of(to_end_outcome(s, arg).1),
{
}

/// A whole run of reading until EOF: the first call hands out a request
/// and keeps the bytes held (those pre-filled); then, whatever size the
/// inner read buffer took, outputs that each bring bytes and a final end
/// of file make the coroutine hand out the bytes held at first followed
/// by every byte read, in order, each exactly once.
pub proof fn lemma_to_end_whole_run(
    s: SocketReadToEndView,
    chunk: nat,
    outs: Seq<SocketOutputView>,
    eof: SocketOutputView,
)
    requires
        forall|i: int| 0 <= i < outs.len() ==> is_data(#[trigger] outs[i]),
        is_eof(eof),
    ensures
        ({
            let started = SocketReadToEndView { buffer: to_end_outcome(s, None).1, chunk };
            forall|last: nat|
                #[trigger] to_end_outcome(SocketReadToEndView { buffer: to_end_run(started, outs), chunk: last }, Some(eof))
                    == (SocketReadToEndResultView::Done { buf: s.buffer + all_read_bytes(outs) }, Seq::<u8>::empty())
        }),
{
    let started = SocketReadToEndView { buffer: to_end_outcome(s, None).1, chunk };
    lemma_to_end_collects(started, outs, eof);
}

/// I/O-free coroutine to read from a socket until EOF.
///
/// Drives a [`ReadSocket`] coroutine in a loop, accumulating every chunk
/// into an internal buffer, and hands the whole out when the socket
/// signals EOF (`n == 0`).
#[derive(Debug)]
pub struct SocketReadToEnd {
    /// Inner single-read coroutine, reused across iterations.
    read: ReadSocket,
    /// Accumulates all bytes read until EOF.
    buffer: Vec<u8>,
}

impl View for SocketReadToEnd {
    type V = SocketReadToEndView;

    closed spec fn view(&self) -> SocketReadToEndView {
        SocketReadToEndView { buffer: self.buffer@, chunk: self.read@ }
    }
}

impl SocketReadToEnd {
    /// Creates a new coroutine using a read buffer with
    /// [`ReadSocket::DEFAULT_CAPACITY`] capacity.
    pub fn new() -> (r: Self)
        ensures
            r@ == (SocketReadToEndView { buffer: Seq::empty(), chunk: ReadSocket::DEFAULT_CAPACITY as nat }),
    {
        Self::with_capacity(ReadSocket::DEFAULT_CAPACITY)
    }

    /// Creates a new coroutine using a read buffer with the given
    /// capacity.
    pub fn with_capacity(capacity: usize) -> (r: Self)
        ensures
            r@ == (SocketReadToEndView { buffer: Seq::empty(), chunk: capacity as nat }),
    {
        let read = ReadSocket::with_capacity(capacity);
        let buffer: Vec<u8> = Vec::with_capacity(capacity);
        Self { read, buffer }
    }

    /// Pre-fills the accumulation buffer with `bytes`, which then come
    /// first in the final result.
    pub fn extend(&mut self, bytes: &[u8])
        ensures
            final(self)@ == (SocketReadToEndView { buffer: old(self)@.buffer + bytes@, ..old(self)@ }),
    {
        self.buffer.extend_from_slice(bytes);
        assert(self.buffer@ =~= old(self)@.buffer + bytes@);
    }

    /// Advances the coroutine.
    ///
    /// Pass `None` on the first call. On subsequent calls, pass the
    /// [`SocketOutput`] returned by the runtime after processing the last
    /// emitted [`SocketInput`]. Answers as [`to_end_outcome`] says.
    ///
    /// A read output must not claim more bytes than its buffer holds.
    pub fn resume(&mut self, arg: Option<SocketOutput>) -> (r: SocketReadToEndResult)
        requires
            read_output_fits(arg_view(arg)),
        ensures
            (r@, final(self)@.buffer) == to_end_outcome(old(self)@, arg_view(arg)),
            to_end_chunk_after(old(self)@, arg_view(arg), final(self)@.chunk),
    {
        let ghost s0 = self@;
        let ghost a0 = arg_view(arg);
        let mut pending = arg;
        loop
            invariant
                s0 == old(self)@,
                a0 == arg_view(arg),
                read_output_fits(a0),
                read_output_fits(arg_view(pending)),
                (arg_view(pending) == a0 && self@ == s0) || ({
                    &&& pending is None
                    &&& a0 matches Some(SocketOutputView::Read { buf, n })
                    &&& n > 0
                    &&& self@.buffer == s0.buffer + buf.take(n as int)
                    &&& self@.chunk == buf.len()
                }),
            decreases (if pending is Some { 1int } else { 0int }),
        {
            match self.read.resume(pending.take()) {
                ReadSocketResult::Done { buf, n } => {
                    let chunk = vstd::slice::slice_subrange(buf.as_slice(), 0, n);
                    self.buffer.extend_from_slice(chunk);
                    self.read.replace(buf);
                },
                ReadSocketResult::Failed { err } => {
                    return SocketReadToEndResult::Failed { err: SocketReadToEndError::from(err) };
                },
                ReadSocketResult::Io { input } => {
                    return SocketReadToEndResult::Io { input };
                },
                ReadSocketResult::Eof => {
                    let mut buf: Vec<u8> = Vec::new();
                    std::mem::swap(&mut buf, &mut self.buffer);
                    assert(self.buffer@ =~= Seq::<u8>::empty());
                    return SocketReadToEndResult::Done { buf };
                },
            }
        }
    }
}

impl Default for SocketReadToEnd {
    fn default() -> (r: Self)
        ensures
            r@ == (SocketReadToEndView { buffer: Seq::empty(), chunk: ReadSocket::DEFAULT_CAPACITY as nat }),
    {
        Self::new()
    }
}

} // verus!
