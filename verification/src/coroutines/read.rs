//! I/O-free coroutine to read bytes into a buffer.

use vstd::prelude::*;
use crate::io::{SocketInput, SocketInputView, SocketOutput, SocketOutputView, arg_view, zeros};
use crate::text::{decimal, push_decimal};
use crate::coroutines::buffers::{vec_capacity, vec_shrink_to, zero_fill, zeroed};

verus! {

/// Errors that can occur during the coroutine progression.
#[derive(Clone, Debug, Eq, PartialEq)]
pub enum ReadSocketError {
    /// The coroutine received an invalid argument: a runtime answered
    /// with a [`SocketOutput::Wrote`] where a [`SocketOutput::Read`] was
    /// expected.
    UnexpectedArg(SocketOutput),
}

/// Output emitted after a coroutine finishes its progression.
#[derive(Clone, Debug, Eq, PartialEq)]
pub enum ReadSocketResult {
    /// The coroutine has successfully terminated its progression.
    Done { buf: Vec<u8>, n: usize },
    /// A socket I/O needs to be performed to make the coroutine progress.
    Io { input: SocketInput },
    /// The coroutine reached the End Of File. Only the consumer can
    /// determine if it is an error or not.
    Eof,
    /// An error occurred during the coroutine progression.
    Failed { err: ReadSocketError },
}

/// Mathematical model of a [`ReadSocketError`].
pub enum ReadSocketErrorView {
    UnexpectedArg(SocketOutputView),
}

/// Mathematical model of a [`ReadSocketResult`].
pub enum ReadSocketResultView {
    Done { buf: Seq<u8>, n: nat },
    Io { input: SocketInputView },
    Eof,
    Failed { err: ReadSocketErrorView },
}

impl View for ReadSocketError {
    type V = ReadSocketErrorView;

    open spec fn view(&self) -> ReadSocketErrorView {
        match self {
            ReadSocketError::UnexpectedArg(out) => ReadSocketErrorView::UnexpectedArg(out@),
        }
    }
}

impl View for ReadSocketResult {
    type V = ReadSocketResultView;

    open spec fn view(&self) -> ReadSocketResultView {
        match self {
            ReadSocketResult::Done { buf, n } => ReadSocketResultView::Done { buf: buf@, n: *n as nat },
            ReadSocketResult::Io { input } => ReadSocketResultView::Io { input: input@ },
            ReadSocketResult::Eof => ReadSocketResultView::Eof,
            ReadSocketResult::Failed { err } => ReadSocketResultView::Failed { err: err@ },
        }
    }
}

/// What the read coroutine answers when resumed with a runtime output:
/// the read bytes, end of file when none were read, or an error carrying
/// an output of the wrong kind.
pub open spec fn read_answer(out: SocketOutputView) -> ReadSocketResultView {
    match out {
        SocketOutputView::Read { buf, n } => if n == 0 {
            ReadSocketResultView::Eof
        } else {
            ReadSocketResultView::Done { buf, n }
        },
        SocketOutputView::Wrote { .. } => ReadSocketResultView::Failed {
            err: ReadSocketErrorView::UnexpectedArg(out),
        },
    }
}

/// A read coroutine reports what the runtime read, untouched: it
/// completes exactly when the runtime read at least one byte, and then
/// with the runtime's own buffer and byte count; a read of no byte is end
/// of file, and any other output fails carrying that very output.
pub proof fn lemma_read_reports_runtime(out: SocketOutputView)
    ensures
        read_answer(out) matches ReadSocketResultView::Done { buf, n } ==> out == (SocketOutputView::Read { buf, n }) && n > 0,
        (out matches SocketOutputView::Read { n, .. } && n > 0) ==> read_answer(out) is Done,
        read_answer(out) is Eof <==> (out matches SocketOutputView::Read { n, .. } && n == 0),
        read_answer(out) is Failed ==> read_answer(out) == (ReadSocketResultView::Failed {
            err: ReadSocketErrorView::UnexpectedArg(out),
        }),
        read_answer(out) is Io == false,
{
}

/// The read request that a read coroutine of the given size hands out.
pub open spec fn read_request(size: nat) -> ReadSocketResultView {
    ReadSocketResultView::Io { input: SocketInputView::Read { buf: zeros(size) } }
}

/// I/O-free coroutine to read bytes into a buffer.
///
/// Its model is the size of the next read request: the length of the
/// buffer it holds, which is always zero-filled, so that no byte of an
/// earlier read is ever handed out again.
#[derive(Debug, Eq, PartialEq)]
pub struct ReadSocket {
    buf: Vec<u8>,
}

impl View for ReadSocket {
    type V = nat;

    closed spec fn view(&self) -> nat {
        self.buf@.len()
    }
}

impl ReadSocket {
    #[verifier::type_invariant]
    closed spec fn zero_filled(self) -> bool {
        self.buf@ == zeros(self.buf@.len())
    }

    /// The default read buffer capacity.
    pub const DEFAULT_CAPACITY: usize = 8 * 1024;

    /// Creates a new coroutine to read bytes using a buffer with
    /// [`Self::DEFAULT_CAPACITY`] capacity.
    pub fn new() -> (r: Self)
        ensures
            r@ == Self::DEFAULT_CAPACITY,
    {
        Self::with_capacity(Self::DEFAULT_CAPACITY)
    }

    /// Creates a new coroutine to read bytes using a buffer with the
    /// given capacity.
    pub fn with_capacity(capacity: usize) -> (r: Self)
        ensures
            r@ == capacity,
    {
        let buf = zeroed(capacity);
        Self { buf }
    }

    /// Returns the buffer capacity.
    ///
    /// It is never below the size of the next read request nor above
    /// `isize::MAX`; where in between it lies is up to the allocator.
    pub fn capacity(&self) -> (c: usize)
        ensures
            self@ <= c <= isize::MAX,
    {
        vec_capacity(&self.buf)
    }

    /// A short description that gives the size of the next read request,
    /// such as `ReadSocket(4)`.
    pub fn describe(&self) -> (text: String)
        ensures
            text@ == "ReadSocket("@ + decimal(self@) + ")"@,
    {
        let mut text = String::from_str("ReadSocket(");
        push_decimal(&mut text, self.buf.len());
        text.append(")");
        text
    }

    /// Shortens the buffer to the given length.
    pub fn truncate(&mut self, len: usize)
        ensures
            final(self)@ == if len < old(self)@ { len as nat } else { old(self)@ },
    {
        proof { use_type_invariant(&*self); }
        let mut buf: Vec<u8> = Vec::new();
        assert(buf@ =~= zeros(0));
        std::mem::swap(&mut buf, &mut self.buf);
        buf.truncate(len);
        vec_shrink_to(&mut buf, len);
        assert(buf@ =~= zeros(buf@.len()));
        self.buf = buf;
    }

    /// Replaces the inner buffer with the given one, after zeroing it.
    pub fn replace(&mut self, buf: Vec<u8>)
        ensures
            final(self)@ == buf@.len(),
    {
        let mut buf = buf;
        zero_fill(&mut buf);
        self.buf = buf;
    }

    /// Makes the read progress.
    ///
    /// Without argument, hands out its zero-filled buffer as a read
    /// request and takes a fresh one of the buffer's capacity. With the
    /// runtime's output, answers as [`read_answer`] says.
    pub fn resume(&mut self, arg: Option<SocketOutput>) -> (r: ReadSocketResult)
        ensures
            match arg {
                None => r@ == read_request(old(self)@) && old(self)@ <= final(self)@ <= isize::MAX,
                Some(out) => r@ == read_answer(out@) && final(self)@ == old(self)@,
            },
    {
        proof { use_type_invariant(&*self); }
        let arg = match arg {
            None => {
                let capacity = vec_capacity(&self.buf);
                let mut buf = zeroed(capacity);
                std::mem::swap(&mut buf, &mut self.buf);
                let input = SocketInput::Read { buf };
                return ReadSocketResult::Io { input };
            },
            Some(arg) => arg,
        };
        let (buf, n) = match arg {
            SocketOutput::Read { buf, n } => (buf, n),
            SocketOutput::Wrote { .. } => {
                let err = ReadSocketError::UnexpectedArg(arg);
                return ReadSocketResult::Failed { err };
            },
        };
        if n == 0 {
            return ReadSocketResult::Eof;
        }
        ReadSocketResult::Done { buf, n }
    }
}

impl Clone for ReadSocket {
    fn clone(&self) -> (r: Self)
        ensures
            r@ == self@,
    {
        proof { use_type_invariant(self); }
        let buf = self.buf.clone();
        assert(buf@ =~= self.buf@);
        Self { buf }
    }
}

impl Default for ReadSocket {
    fn default() -> (r: Self)
        ensures
            r@ == ReadSocket::DEFAULT_CAPACITY,
    {
        Self::new()
    }
}

} // verus!
