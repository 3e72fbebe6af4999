use io_socket::{
    coroutines::read::{ReadSocket, ReadSocketError, ReadSocketResult},
    coroutines::read_exact::{ReadSocketExact, ReadSocketExactError, ReadSocketExactResult},
    coroutines::read_to_end::{SocketReadToEnd, SocketReadToEndError, SocketReadToEndResult},
    coroutines::write::{SocketWrite, SocketWriteError, SocketWriteResult},
    io::{SocketInput, SocketOutput},
};

fn read_request_len(result: ReadSocketResult) -> usize {
    match result {
        ReadSocketResult::Io { input: SocketInput::Read { buf } } => {
            assert!(buf.iter().all(|b| *b == 0));
            buf.len()
        }
        other => panic!("expected a read request, got {other:?}"),
    }
}

fn exact_request(result: ReadSocketExactResult) -> Vec<u8> {
    match result {
        ReadSocketExactResult::Io { input: SocketInput::Read { buf } } => buf,
        other => panic!("expected a read request, got {other:?}"),
    }
}

fn to_end_request(result: SocketReadToEndResult) -> Vec<u8> {
    match result {
        SocketReadToEndResult::Io { input: SocketInput::Read { buf } } => buf,
        other => panic!("expected a read request, got {other:?}"),
    }
}

#[test]
fn read_default_size() {
    assert_eq!(ReadSocket::DEFAULT_CAPACITY, 8192);
    let mut read = ReadSocket::new();
    assert_eq!(read_request_len(read.resume(None)), 8192);
    let mut read = ReadSocket::default();
    assert_eq!(read_request_len(read.resume(None)), 8192);
}

#[test]
fn read_capacity_covers_request_size() {
    let read = ReadSocket::with_capacity(4);
    assert!(read.capacity() >= 4);
}

#[test]
fn read_request_zero_filled_after_replace() {
    let mut read = ReadSocket::with_capacity(3);
    assert_eq!(read.resume(None), ReadSocketResult::Io { input: SocketInput::Read { buf: vec![0, 0, 0] } });
    read.replace(vec![1, 2, 3, 4]);
    assert_eq!(read.resume(None), ReadSocketResult::Io { input: SocketInput::Read { buf: vec![0, 0, 0, 0] } });
}

#[test]
fn read_truncate_shortens_only() {
    let mut read = ReadSocket::with_capacity(8);
    read.truncate(3);
    let mut copy = read.clone();
    read.truncate(10);
    assert!(read.capacity() >= 3);
    assert_eq!(read_request_len(read.resume(None)), 3);
    assert_eq!(read_request_len(copy.resume(None)), 3);
}

#[test]
fn read_answers_outputs() {
    let mut read = ReadSocket::with_capacity(3);
    assert_eq!(
        read.resume(Some(SocketOutput::Read { buf: vec![5, 6, 7], n: 2 })),
        ReadSocketResult::Done { buf: vec![5, 6, 7], n: 2 }
    );
    assert_eq!(read.resume(Some(SocketOutput::Read { buf: vec![1], n: 0 })), ReadSocketResult::Eof);
    let wrong = SocketOutput::Wrote { buf: vec![1], n: 1 };
    assert_eq!(
        read.resume(Some(wrong.clone())),
        ReadSocketResult::Failed { err: ReadSocketError::UnexpectedArg(wrong) }
    );
    // Answering an output leaves the request size as it was.
    assert_eq!(read_request_len(read.resume(None)), 3);
}

#[test]
fn write_hands_out_bytes_once() {
    let mut write = SocketWrite::new(vec![1, 2, 3]);
    assert_eq!(write.resume(None), SocketWriteResult::Io { input: SocketInput::Write { buf: vec![1, 2, 3] } });
    assert_eq!(write.resume(None), SocketWriteResult::Io { input: SocketInput::Write { buf: vec![] } });
}

#[test]
fn write_answers_outputs() {
    let mut write = SocketWrite::new(vec![1, 2, 3]);
    assert_eq!(
        write.resume(Some(SocketOutput::Wrote { buf: vec![1, 2, 3], n: 3 })),
        SocketWriteResult::Done { buf: vec![1, 2, 3], n: 3 }
    );
    assert_eq!(write.resume(Some(SocketOutput::Wrote { buf: vec![1, 2, 3], n: 0 })), SocketWriteResult::Eof);
    let wrong = SocketOutput::Read { buf: vec![0], n: 1 };
    assert_eq!(
        write.resume(Some(wrong.clone())),
        SocketWriteResult::Failed { err: SocketWriteError::UnexpectedArg(wrong) }
    );
    // Answering an output keeps the bytes to write.
    assert_eq!(write.resume(None), SocketWriteResult::Io { input: SocketInput::Write { buf: vec![1, 2, 3] } });
}

#[test]
fn exact_requests_within_target() {
    let mut read = ReadSocketExact::with_capacity(10, 4);
    assert_eq!(exact_request(read.resume(None)), vec![0, 0, 0, 0]);
    let req = exact_request(read.resume(Some(SocketOutput::Read { buf: vec![7, 8, 9, 0], n: 3 })));
    assert_eq!(req, vec![0]);
    assert_eq!(
        read.resume(Some(SocketOutput::Read { buf: vec![6], n: 1 })),
        ReadSocketExactResult::Done { buf: vec![7, 8, 9, 6] }
    );
}

#[test]
fn exact_collects_chunks_in_order() {
    let mut read = ReadSocketExact::with_capacity(2, 5);
    assert_eq!(exact_request(read.resume(None)).len(), 2);
    assert_eq!(exact_request(read.resume(Some(SocketOutput::Read { buf: vec![1, 2], n: 2 }))).len(), 2);
    assert_eq!(exact_request(read.resume(Some(SocketOutput::Read { buf: vec![3, 0], n: 1 }))).len(), 2);
    assert_eq!(
        read.resume(Some(SocketOutput::Read { buf: vec![4, 5], n: 2 })),
        ReadSocketExactResult::Done { buf: vec![1, 2, 3, 4, 5] }
    );
    // Nothing is kept once handed out: the next call asks for bytes again.
    assert_eq!(exact_request(read.resume(None)).len(), 2);
}

#[test]
fn exact_eof_reports_missing_bytes() {
    let mut read = ReadSocketExact::new(3);
    read.extend(&[9]);
    assert_eq!(exact_request(read.resume(None)), vec![0, 0]);
    assert_eq!(exact_request(read.resume(Some(SocketOutput::Read { buf: vec![4, 0], n: 1 }))), vec![0]);
    assert_eq!(
        read.resume(Some(SocketOutput::Read { buf: vec![0], n: 0 })),
        ReadSocketExactResult::Failed { err: ReadSocketExactError::UnexpectedEof(1, 3, vec![9, 4]) }
    );
}

#[test]
fn exact_wrong_output() {
    let mut read = ReadSocketExact::new(3);
    let wrong = SocketOutput::Wrote { buf: vec![1], n: 1 };
    assert_eq!(
        read.resume(Some(wrong.clone())),
        ReadSocketExactResult::Failed {
            err: ReadSocketExactError::Read(ReadSocketError::UnexpectedArg(wrong.clone()))
        }
    );
    assert_eq!(
        ReadSocketExactError::from(ReadSocketError::UnexpectedArg(wrong.clone())),
        ReadSocketExactError::Read(ReadSocketError::UnexpectedArg(wrong))
    );
}

#[test]
fn exact_prefilled_beyond_target() {
    let mut read = ReadSocketExact::with_capacity(4, 2);
    read.extend(&[1, 2, 3]);
    assert_eq!(read.resume(None), ReadSocketExactResult::Done { buf: vec![1, 2, 3] });
}

#[test]
fn to_end_collects_after_prefilled_bytes() {
    let mut read = SocketReadToEnd::with_capacity(3);
    read.extend(&[0xaa]);
    assert_eq!(to_end_request(read.resume(None)), vec![0, 0, 0]);
    // The next request has the size of the buffer the runtime returned.
    let req = to_end_request(read.resume(Some(SocketOutput::Read { buf: vec![1, 2, 3, 4, 5, 6, 7], n: 2 })));
    assert_eq!(req, vec![0; 7]);
    assert_eq!(to_end_request(read.resume(Some(SocketOutput::Read { buf: vec![3, 0], n: 1 }))).len(), 2);
    assert_eq!(
        read.resume(Some(SocketOutput::Read { buf: vec![0, 0], n: 0 })),
        SocketReadToEndResult::Done { buf: vec![0xaa, 1, 2, 3] }
    );
    assert_eq!(
        read.resume(Some(SocketOutput::Read { buf: vec![0], n: 0 })),
        SocketReadToEndResult::Done { buf: vec![] }
    );
}

#[test]
fn to_end_default_size_and_wrong_output() {
    let mut read = SocketReadToEnd::new();
    assert_eq!(to_end_request(read.resume(None)).len(), 8192);
    let mut read = SocketReadToEnd::default();
    let wrong = SocketOutput::Wrote { buf: vec![1], n: 1 };
    assert_eq!(
        read.resume(Some(wrong.clone())),
        SocketReadToEndResult::Failed {
            err: SocketReadToEndError::Read(ReadSocketError::UnexpectedArg(wrong.clone()))
        }
    );
    assert_eq!(
        SocketReadToEndError::from(ReadSocketError::UnexpectedArg(wrong.clone())),
        SocketReadToEndError::Read(ReadSocketError::UnexpectedArg(wrong))
    );
}

#[test]
fn descriptions_give_sizes_not_bytes() {
    assert_eq!(SocketInput::Read { buf: vec![0; 4] }.describe(), "SocketInput::Read(4)");
    assert_eq!(SocketInput::Write { buf: vec![7; 12] }.describe(), "SocketInput::Write(12)");
    assert_eq!(SocketOutput::Read { buf: vec![1, 2, 3, 4], n: 2 }.describe(), "SocketOutput::Read(2/4)");
    assert_eq!(SocketOutput::Wrote { buf: vec![], n: 0 }.describe(), "SocketOutput::Wrote(0/0)");
    assert_eq!(ReadSocket::new().describe(), "ReadSocket(8192)");
    assert_eq!(SocketWrite::new(vec![1, 2, 3]).describe(), "SocketWrite(3)");
}

#[test]
fn read_capacity_within_bounds() {
    let read = ReadSocket::with_capacity(100);
    let c = read.capacity();
    assert!(c >= 100 && c <= isize::MAX as usize);
}
