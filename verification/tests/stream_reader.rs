use ipc_socket::endpoint::Endpoint;
use ipc_socket::error::{IoFailure, IpcError};
use ipc_socket::frame::{decode_frame, encode_frame};
use ipc_socket::stream::{FrameReader, IpcServer, Phase, Polled, STREAM_TIMEOUT_MILLIS};
use ipc_socket::timeout::TimeSpan;

fn listener_addr() -> Endpoint {
    Endpoint::v4(127, 0, 0, 1, 12345)
}

fn listening() -> IpcServer {
    let mut listener = IpcServer::new(listener_addr());
    assert_eq!(listener.connect(Ok(())), Ok(()));
    listener
}

/// Reads `wire` to its end through `reader`, each read bringing at most
/// `step` bytes, as a stream socket would; then the peer closes.
fn read_all(reader: &mut FrameReader, wire: &[u8], step: usize) {
    let mut at = 0;
    loop {
        let wanted = reader.wanted();
        if wanted == 0 {
            break;
        }
        let count = wanted.min(step).min(wire.len() - at);
        let consumed = reader.feed(&wire[at..at + count]);
        assert_eq!(consumed, count);
        if count == 0 {
            break;
        }
        at += count;
    }
}

#[test]
fn reader_walks_through_its_phases() {
    let mut reader = FrameReader::new(64);
    assert_eq!(reader.phase(), Phase::AwaitingHeader);
    assert_eq!(reader.wanted(), 4);
    assert_eq!(reader.feed(&[0, 0]), 2);
    assert_eq!(reader.phase(), Phase::AwaitingHeader);
    assert_eq!(reader.wanted(), 2);
    assert_eq!(reader.feed(&[0, 5]), 2);
    assert_eq!(reader.phase(), Phase::AwaitingPayload);
    assert_eq!(reader.wanted(), 5);
    assert_eq!(reader.feed(b"hel"), 3);
    assert_eq!(reader.wanted(), 2);
    assert_eq!(reader.feed(b"lo"), 2);
    assert_eq!(reader.phase(), Phase::Complete);
    assert_eq!(reader.wanted(), 0);
    assert_eq!(reader.finish(), Ok(b"hello".to_vec()));
}

#[test]
fn reader_takes_no_more_than_it_wants() {
    let mut reader = FrameReader::new(64);
    // header and payload in one chunk: only the header is taken
    assert_eq!(reader.feed(&[0, 0, 0, 2, 9, 8, 7]), 4);
    assert_eq!(reader.wanted(), 2);
    assert_eq!(reader.feed(&[9, 8, 7]), 2);
    assert_eq!(reader.phase(), Phase::Complete);
    assert_eq!(reader.feed(&[7]), 0);
    assert_eq!(reader.finish(), Ok(vec![9, 8]));
}

#[test]
fn reader_refuses_oversized_header_before_any_payload() {
    let mut reader = FrameReader::new(8);
    assert_eq!(reader.feed(&[0, 0, 0, 5]), 4);
    assert_eq!(reader.phase(), Phase::Failed);
    assert_eq!(reader.wanted(), 0);
    assert_eq!(reader.feed(b"hello"), 0);
    assert_eq!(reader.finish(), Err(IpcError::OversizedMessage { declared: 5, max_size: 8 }));

    let mut reader = FrameReader::new(9);
    assert_eq!(reader.feed(&[0, 0, 0, 5]), 4);
    assert_eq!(reader.phase(), Phase::AwaitingPayload);
}

#[test]
fn empty_message_is_a_message() {
    let mut reader = FrameReader::new(4);
    assert_eq!(reader.feed(&[0, 0, 0, 0]), 4);
    assert_eq!(reader.phase(), Phase::Complete);
    assert_eq!(reader.finish(), Ok(vec![]));

    let listener = listening();
    let mut reader = listener.reader(16);
    read_all(&mut reader, &[0, 0, 0, 0], 16);
    assert_eq!(listener.get_data(Ok(reader)), Ok(Polled::Message(vec![])));
    assert_eq!(listener.get_data(Err(IoFailure::WouldBlock)), Ok(Polled::NoConnectionPending));
}

#[test]
fn end_of_stream_before_the_length_is_truncation() {
    let mut reader = FrameReader::new(64);
    assert_eq!(reader.feed(&[0, 0]), 2);
    assert_eq!(reader.feed(&[]), 0);
    assert_eq!(reader.phase(), Phase::Failed);
    assert_eq!(reader.finish(), Err(IpcError::TruncatedMessage));

    let mut reader = FrameReader::new(64);
    assert_eq!(reader.feed(&[0, 0, 0, 3]), 4);
    assert_eq!(reader.feed(&[1]), 1);
    assert_eq!(reader.feed(&[]), 0);
    assert_eq!(reader.finish(), Err(IpcError::TruncatedMessage));

    // a reader handed over midway has a frame short of its length
    let mut reader = FrameReader::new(64);
    assert_eq!(reader.feed(&[0, 0, 0, 3]), 4);
    assert_eq!(reader.finish(), Err(IpcError::TruncatedMessage));
    assert_eq!(FrameReader::new(64).finish(), Err(IpcError::TruncatedMessage));
}

#[test]
fn interrupted_read_is_read_again() {
    let mut reader = FrameReader::new(64);
    assert_eq!(reader.feed(&[0, 0, 0]), 3);
    reader.fail(IoFailure::Interrupted);
    assert_eq!(reader.phase(), Phase::AwaitingHeader);
    assert_eq!(reader.wanted(), 1);
    assert_eq!(reader.feed(&[1]), 1);
    reader.fail(IoFailure::Interrupted);
    assert_eq!(reader.feed(&[42]), 1);
    assert_eq!(reader.finish(), Ok(vec![42]));
}

#[test]
fn failed_read_ends_the_reader() {
    let mut reader = FrameReader::new(64);
    reader.fail(IoFailure::ConnectionReset);
    assert_eq!(reader.phase(), Phase::Failed);
    assert_eq!(reader.feed(&[0, 0, 0, 0]), 0);
    assert_eq!(reader.finish(), Err(IpcError::Io(IoFailure::ConnectionReset)));

    let mut reader = FrameReader::new(64);
    reader.fail(IoFailure::TimedOut);
    assert_eq!(reader.finish(), Err(IpcError::Timeout));

    let mut reader = FrameReader::new(64);
    reader.fail(IoFailure::WouldBlock);
    assert_eq!(reader.finish(), Err(IpcError::Timeout));
}

#[test]
fn failure_after_the_end_changes_nothing() {
    let mut reader = FrameReader::new(64);
    assert_eq!(reader.feed(&[0, 0, 0, 0]), 4);
    reader.fail(IoFailure::ConnectionReset);
    assert_eq!(reader.phase(), Phase::Complete);
    assert_eq!(reader.finish(), Ok(vec![]));
}

#[test]
fn reading_does_not_depend_on_the_cut() {
    let payload: Vec<u8> = (0..50u8).collect();
    let wire = encode_frame(&payload).unwrap();
    for step in 1..=wire.len() {
        let mut reader = FrameReader::new(64);
        read_all(&mut reader, &wire, step);
        assert_eq!(reader.finish(), Ok(payload.clone()));
    }
    for cut in 0..wire.len() {
        for step in [1usize, 3, 64] {
            let mut reader = FrameReader::new(64);
            read_all(&mut reader, &wire[..cut], step);
            assert_eq!(reader.finish(), decode_frame(&wire[..cut], 64));
        }
    }
    for max_size in [0usize, 4, 53, 54, 55] {
        let mut reader = FrameReader::new(max_size);
        read_all(&mut reader, &wire, 7);
        assert_eq!(reader.finish(), decode_frame(&wire, max_size));
    }
}

#[test]
fn listener_binds_once() {
    let mut listener = IpcServer::new(listener_addr());
    assert_eq!(listener.addr(), listener_addr());
    assert!(!listener.bound());
    assert_eq!(
        listener.connect(Err(IoFailure::AddrInUse)),
        Err(IpcError::Bind(IoFailure::AddrInUse))
    );
    assert!(!listener.bound());
    assert_eq!(listener.connect(Ok(())), Ok(()));
    assert!(listener.bound());
    assert_eq!(listener.connect(Ok(())), Err(IpcError::AlreadyBound));
}

#[test]
fn listener_poll_has_three_answers() {
    let listener = listening();
    assert_eq!(listener.get_data(Err(IoFailure::WouldBlock)), Ok(Polled::NoConnectionPending));
    assert_eq!(
        listener.get_data(Err(IoFailure::TimedOut)),
        Err(IpcError::Io(IoFailure::TimedOut))
    );
    assert_eq!(
        listener.get_data(Err(IoFailure::PermissionDenied)),
        Err(IpcError::Io(IoFailure::PermissionDenied))
    );

    let wire = encode_frame(b"hello").unwrap();
    let mut reader = listener.reader(1024);
    read_all(&mut reader, &wire, 2);
    assert_eq!(listener.get_data(Ok(reader)), Ok(Polled::Message(b"hello".to_vec())));

    let mut reader = listener.reader(8);
    read_all(&mut reader, &wire, 2);
    assert_eq!(
        listener.get_data(Ok(reader)),
        Err(IpcError::OversizedMessage { declared: 5, max_size: 8 })
    );

    let mut reader = listener.reader(1024);
    read_all(&mut reader, &wire[..6], 2);
    assert_eq!(listener.get_data(Ok(reader)), Err(IpcError::TruncatedMessage));
}

#[test]
fn accepted_connection_reads_under_a_timeout() {
    let listener = listening();
    assert_eq!(STREAM_TIMEOUT_MILLIS, 500);
    assert_eq!(listener.read_timeout(), TimeSpan { secs: 0, nanos: 500_000_000 });
}

#[test]
fn oversized_frame_gives_no_message_in_any_reads() {
    let listener = listening();
    let payload: Vec<u8> = (0..20u8).collect();
    let wire = encode_frame(&payload).unwrap();
    for step in 1..=wire.len() {
        for max_size in [0usize, 3, 4, 23] {
            let mut reader = listener.reader(max_size);
            read_all(&mut reader, &wire, step);
            assert_eq!(
                listener.get_data(Ok(reader)),
                Err(IpcError::OversizedMessage { declared: 20, max_size })
            );
        }
        let mut reader = listener.reader(24);
        read_all(&mut reader, &wire, step);
        assert_eq!(listener.get_data(Ok(reader)), Ok(Polled::Message(payload.clone())));
    }
}
