//! I/O-free coroutine to write bytes into a socket.

use vstd::prelude::*;
use crate::text::{decimal, push_decimal};
use crate::io::{SocketInput, SocketInputView, SocketOutput, SocketOutputView};

verus! {

/// Errors that can occur during the coroutine progression.
#[derive(Clone, Debug, Eq, PartialEq)]
pub enum SocketWriteError {
    /// The coroutine received an invalid argument: a runtime answered
    /// with a [`SocketOutput::Read`] where a [`SocketOutput::Wrote`] was
    /// expected.
    UnexpectedArg(SocketOutput),
}

/// Output emitted after a coroutine finishes its progression.
#[derive(Clone, Debug, Eq, PartialEq)]
pub enum SocketWriteResult {
    /// The coroutine has successfully terminated its progression.
    Done { buf: Vec<u8>, n: usize },
    /// A socket I/O needs to be performed to make the coroutine progress.
    Io { input: SocketInput },
    /// The coroutine reached the End Of File. Only the consumer can
    /// determine if it is an error or not.
    Eof,
    /// An error occurred during the coroutine progression.
    Failed { err: SocketWriteError },
}

/// Mathematical model of a [`SocketWriteError`].
pub enum SocketWriteErrorView {
    UnexpectedArg(SocketOutputView),
}

/// Mathematical model of a [`SocketWriteResult`].
pub enum SocketWriteResultView {
    Done { buf: Seq<u8>, n: nat },
    Io { input: SocketInputView },
    Eof,
    Failed { err: SocketWriteErrorView },
}

impl View for SocketWriteError {
    type V = SocketWriteErrorView;

    open spec fn view(&self) -> SocketWriteErrorView {
        match self {
            SocketWriteError::UnexpectedArg(out) => SocketWriteErrorView::UnexpectedArg(out@),
        }
    }
}

impl View for SocketWriteResult {
    type V = SocketWriteResultView;

    open spec fn view(&self) -> SocketWriteResultView {
        match self {
            SocketWriteResult::Done { buf, n } => SocketWriteResultView::Done { buf: buf@, n: *n as nat },
            SocketWriteResult::Io { input } => SocketWriteResultView::Io { input: input@ },
            SocketWriteResult::Eof => SocketWriteResultView::Eof,
            SocketWriteResult::Failed { err } => SocketWriteResultView::Failed { err: err@ },
        }
    }
}

/// What the write coroutine answers when resumed with a runtime output:
/// the written bytes, end of file when none were written, or an error
/// carrying an output of the wrong kind.
pub open spec fn write_answer(out: SocketOutputView) -> SocketWriteResultView {
    match out {
        SocketOutputView::Wrote { buf, n } => if n == 0 {
            SocketWriteResultView::Eof
        } else {
            SocketWriteResultView::Done { buf, n }
        },
        SocketOutputView::Read { .. } => SocketWriteResultView::Failed {
            err: SocketWriteErrorView::UnexpectedArg(out),
        },
    }
}

/// A write coroutine reports what the runtime wrote, untouched: it
/// completes exactly when the runtime wrote at least one byte, and then
/// with the runtime's own buffer and byte count, so that a partial write
/// shows as one; a write of no byte is end of file, and any other output
/// fails carrying that very output.
pub proof fn lemma_write_reports_runtime(out: SocketOutputView)
    ensures
        write_answer(out) matches SocketWriteResultView::Done { buf, n } ==> out == (SocketOutputView::Wrote { buf, n }) && n > 0,
        (out matches SocketOutputView::Wrote { n, .. } && n > 0) ==> write_answer(out) is Done,
        write_answer(out) is Eof <==> (out matches SocketOutputView::Wrote { n, .. } && n == 0),
        write_answer(out) is Failed ==> write_answer(out) == (SocketWriteResultView::Failed {
            err: SocketWriteErrorView::UnexpectedArg(out),
        }),
        write_answer(out) is Io == false,
{
}

/// I/O-free coroutine to write bytes into a socket.
///
/// Its model is the sequence of bytes still to be handed out.
#[derive(Clone, Debug, Eq, PartialEq)]
pub struct SocketWrite {
    buf: Vec<u8>,
}

impl View for SocketWrite {
    type V = Seq<u8>;

    closed spec fn view(&self) -> Seq<u8> {
        self.buf@
    }
}

impl SocketWrite {
    /// Creates a new coroutine that will write the given bytes to the
    /// socket.
    pub fn new(buf: Vec<u8>) -> (r: Self)
        ensures
            r@ == buf@,
    {
        Self { buf }
    }

    /// A short description that gives the number of bytes still to be
    /// handed out, such as `SocketWrite(3)`.
    pub fn describe(&self) -> (text: String)
        ensures
            text@ == "SocketWrite("@ + decimal(self@.len()) + ")"@,
    {
        let mut text = String::from_str("SocketWrite(");
        push_decimal(&mut text, self.buf.len());
        text.append(")");
        text
    }

    /// Makes the write progress.
    ///
    /// Without argument, hands out its bytes as a write request and keeps
    /// none. With the runtime's output, answers as [`write_answer`] says.
    pub fn resume(&mut self, arg: Option<SocketOutput>) -> (r: SocketWriteResult)
        ensures
            match arg {
                None => r@ == (SocketWriteResultView::Io {
                    input: SocketInputView::Write { buf: old(self)@ },
                }) && final(self)@ == Seq::<u8>::empty(),
                Some(out) => r@ == write_answer(out@) && final(self)@ == old(self)@,
            },
    {
        let arg = match arg {
            None => {
                let mut buf: Vec<u8> = Vec::new();
                std::mem::swap(&mut buf, &mut self.buf);
                let input = SocketInput::Write { buf };
                return SocketWriteResult::Io { input };
            },
            Some(arg) => arg,
        };
        let (buf, n) = match arg {
            SocketOutput::Wrote { buf, n } => (buf, n),
            SocketOutput::Read { .. } => {
                let err = SocketWriteError::UnexpectedArg(arg);
                return SocketWriteResult::Failed { err };
            },
        };
        if n == 0 {
            return SocketWriteResult::Eof;
        }
        SocketWriteResult::Done { buf, n }
    }
}

} // verus!
