//! Socket input and output exchanged between coroutines and runtimes.

use vstd::prelude::*;
use crate::text::{decimal, push_decimal};

verus! {

/// Socket input emitted by coroutines and processed by runtimes.
///
/// Represents all the possible operations that a socket coroutine can
/// ask for. A runtime must handle both variants and return the
/// matching [`SocketOutput`].
#[derive(Clone, Debug, Eq, PartialEq)]
pub enum SocketInput {
    /// Request to read bytes from the socket into the provided buffer.
    Read { buf: Vec<u8> },
    /// Request to write the provided bytes into the socket.
    Write { buf: Vec<u8> },
}

/// Socket output returned by a runtime after processing a
/// [`SocketInput`].
///
/// Each variant carries the original buffer back alongside the number
/// of bytes actually transferred.
#[derive(Clone, Debug, Eq, PartialEq)]
pub enum SocketOutput {
    /// Response to a [`SocketInput::Read`] request: the buffer that was
    /// filled and the number of bytes read (0 usually means end of file).
    Read { buf: Vec<u8>, n: usize },
    /// Response to a [`SocketInput::Write`] request: the buffer that was
    /// written and the number of bytes sent (0 usually means end of file).
    Wrote { buf: Vec<u8>, n: usize },
}

/// Mathematical model of a [`SocketInput`].
pub enum SocketInputView {
    Read { buf: Seq<u8> },
    Write { buf: Seq<u8> },
}

/// Mathematical model of a [`SocketOutput`].
pub enum SocketOutputView {
    Read { buf: Seq<u8>, n: nat },
    Wrote { buf: Seq<u8>, n: nat },
}

impl View for SocketInput {
    type V = SocketInputView;

    open spec fn view(&self) -> SocketInputView {
        match self {
            SocketInput::Read { buf } => SocketInputView::Read { buf: buf@ },
            SocketInput::Write { buf } => SocketInputView::Write { buf: buf@ },
        }
    }
}

impl View for SocketOutput {
    type V = SocketOutputView;

    open spec fn view(&self) -> SocketOutputView {
        match self {
            SocketOutput::Read { buf, n } => SocketOutputView::Read { buf: buf@, n: *n as nat },
            SocketOutput::Wrote { buf, n } => SocketOutputView::Wrote { buf: buf@, n: *n as nat },
        }
    }
}

/// The short description of a request: its kind and its buffer's length.
pub open spec fn input_text(input: SocketInputView) -> Seq<char> {
    match input {
        SocketInputView::Read { buf } => "SocketInput::Read("@ + decimal(buf.len()) + ")"@,
        SocketInputView::Write { buf } => "SocketInput::Write("@ + decimal(buf.len()) + ")"@,
    }
}

/// The short description of an output: its kind, the byte count and its
/// buffer's length.
pub open spec fn output_text(out: SocketOutputView) -> Seq<char> {
    match out {
        SocketOutputView::Read { buf, n } => "SocketOutput::Read("@ + decimal(n) + "/"@ + decimal(buf.len()) + ")"@,
        SocketOutputView::Wrote { buf, n } => "SocketOutput::Wrote("@ + decimal(n) + "/"@ + decimal(buf.len()) + ")"@,
    }
}

/// The two kinds of request are described alike: after the kind, both
/// give the buffer's length in decimal, then a closing parenthesis.
pub proof fn lemma_input_text_shape(buf: Seq<u8>)
    ensures
        input_text(SocketInputView::Read { buf }).take(18) == "SocketInput::Read("@,
        input_text(SocketInputView::Write { buf }).take(19) == "SocketInput::Write("@,
        input_text(SocketInputView::Read { buf }).skip(18) == decimal(buf.len()) + ")"@,
        input_text(SocketInputView::Write { buf }).skip(19) == decimal(buf.len()) + ")"@,
{
    reveal_strlit("SocketInput::Read(");
    reveal_strlit("SocketInput::Write(");
    reveal_strlit(")");
    let d = decimal(buf.len());
    assert(input_text(SocketInputView::Read { buf }).take(18) =~= "SocketInput::Read("@);
    assert(input_text(SocketInputView::Write { buf }).take(19) =~= "SocketInput::Write("@);
    assert(input_text(SocketInputView::Read { buf }).skip(18) =~= d + ")"@);
    assert(input_text(SocketInputView::Write { buf }).skip(19) =~= d + ")"@);
}

/// The two kinds of output are described alike, byte count first: after
/// the kind, both give the byte count in decimal, a slash, the buffer's
/// length in decimal, then a closing parenthesis.
pub proof fn lemma_output_text_count_first(buf: Seq<u8>, n: nat)
    ensures
        output_text(SocketOutputView::Read { buf, n }).take(19) == "SocketOutput::Read("@,
        output_text(SocketOutputView::Wrote { buf, n }).take(20) == "SocketOutput::Wrote("@,
        output_text(SocketOutputView::Read { buf, n }).skip(19)
            == output_text(SocketOutputView::Wrote { buf, n }).skip(20),
        output_text(SocketOutputView::Wrote { buf, n }).skip(20)
            == decimal(n) + seq!['/'] + decimal(buf.len()) + seq![')'],
{
    reveal_strlit("SocketOutput::Read(");
    reveal_strlit("SocketOutput::Wrote(");
    reveal_strlit("/");
    reveal_strlit(")");
    let tail = decimal(n) + seq!['/'] + decimal(buf.len()) + seq![')'];
    assert(output_text(SocketOutputView::Read { buf, n }).take(19) =~= "SocketOutput::Read("@);
    assert(output_text(SocketOutputView::Wrote { buf, n }).take(20) =~= "SocketOutput::Wrote("@);
    assert(output_text(SocketOutputView::Read { buf, n }).skip(19) =~= tail);
    assert(output_text(SocketOutputView::Wrote { buf, n }).skip(20) =~= tail);
}

impl SocketInput {
    /// A short description that gives the buffer's length, not its bytes,
    /// such as `SocketInput::Read(4)`.
    pub fn describe(&self) -> (text: String)
        ensures
            text@ == input_text(self@),
    {
        match self {
            SocketInput::Read { buf } => {
                let mut text = String::from_str("SocketInput::Read(");
                push_decimal(&mut text, buf.len());
                text.append(")");
                text
            },
            SocketInput::Write { buf } => {
                let mut text = String::from_str("SocketInput::Write(");
                push_decimal(&mut text, buf.len());
                text.append(")");
                text
            },
        }
    }
}

impl SocketOutput {
    /// A short description that gives the byte count and the buffer's
    /// length, not its bytes, such as `SocketOutput::Read(2/4)`.
    pub fn describe(&self) -> (text: String)
        ensures
            text@ == output_text(self@),
    {
        match self {
            SocketOutput::Read { buf, n } => {
                let mut text = String::from_str("SocketOutput::Read(");
                push_decimal(&mut text, *n);
                text.append("/");
                push_decimal(&mut text, buf.len());
                text.append(")");
                text
            },
            SocketOutput::Wrote { buf, n } => {
                let mut text = String::from_str("SocketOutput::Wrote(");
                push_decimal(&mut text, *n);
                text.append("/");
                push_decimal(&mut text, buf.len());
                text.append(")");
                text
            },
        }
    }
}

/// The model of an optional runtime output, as handed to `resume`.
pub open spec fn arg_view(arg: Option<SocketOutput>) -> Option<SocketOutputView> {
    match arg {
        Some(out) => Some(out@),
        None => None,
    }
}

/// `n` zero bytes: the content of every buffer that a read request hands out.
pub open spec fn zeros(n: nat) -> Seq<u8> {
    Seq::new(n, |_i: int| 0u8)
}

/// A read output claims no more bytes than its buffer holds (slicing the
/// buffer past its end would panic).
pub open spec fn read_output_fits(arg: Option<SocketOutputView>) -> bool {
    match arg {
        Some(SocketOutputView::Read { buf, n }) => n <= buf.len(),
        _ => true,
    }
}

/// The bytes that a read output brings: the first `n` bytes of its
/// buffer (none for a write output).
pub open spec fn read_bytes(out: SocketOutputView) -> Seq<u8> {
    match out {
        SocketOutputView::Read { buf, n } => buf.take(n as int),
        SocketOutputView::Wrote { .. } => Seq::empty(),
    }
}

/// The bytes that a sequence of read outputs brings, in order.
pub open spec fn all_read_bytes(outs: Seq<SocketOutputView>) -> Seq<u8>
    decreases outs.len(),
{
    if outs.len() == 0 {
        Seq::empty()
    } else {
        all_read_bytes(outs.drop_last()) + read_bytes(outs.last())
    }
}

/// An output that answers a read with at least one byte, within the
/// buffer it carries.
pub open spec fn is_data(out: SocketOutputView) -> bool {
    out matches SocketOutputView::Read { buf, n } && 0 < n <= buf.len()
}

/// An output that answers a read with end of file.
pub open spec fn is_eof(out: SocketOutputView) -> bool {
    out matches SocketOutputView::Read { n, .. } && n == 0
}

} // verus!
