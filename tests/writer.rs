use buffersizebench::sweep::MAX_BUFFER_BYTES;
use buffersizebench::writer::{
    fill_payload, on_accept_failure, AcceptorStep, IoFailure, WriteOutcome, WriterFault,
    WriterPhase, WriterState, WriterStep,
};

#[test]
fn oversized_writer_is_refused() {
    assert!(WriterState::new(MAX_BUFFER_BYTES, false).is_ok());
    assert_eq!(
        WriterState::new(MAX_BUFFER_BYTES + 1, true).err(),
        Some(WriterFault::Oversized(MAX_BUFFER_BYTES + 1))
    );
    let header = buffersizebench::handshake::encode_handshake(u32::MAX, false);
    assert_eq!(
        WriterState::from_header(&header).err(),
        Some(WriterFault::Oversized(u32::MAX as usize))
    );
}

#[test]
fn varied_payload_counts_up_and_wraps() {
    let mut w = WriterState::new(4, true).unwrap();
    let mut buf = vec![0u8; 4];
    w.prepare(&mut buf);
    assert_eq!(buf, vec![0, 0, 0, 0]);
    w.prepare(&mut buf);
    assert_eq!(buf, vec![1, 1, 1, 1]);
    for _ in 0..253 {
        w.prepare(&mut buf);
    }
    assert_eq!(buf, vec![254; 4]);
    w.prepare(&mut buf);
    assert_eq!(buf, vec![255; 4]);
    w.prepare(&mut buf);
    assert_eq!(buf, vec![0; 4]);
    assert_eq!(w.next_byte, 1);
}

#[test]
fn constant_payload_is_left_alone() {
    let mut w = WriterState::new(3, false).unwrap();
    let mut buf = vec![0u8; 3];
    w.prepare(&mut buf);
    w.prepare(&mut buf);
    assert_eq!(buf, vec![0, 0, 0]);
    assert_eq!(w.next_byte, 0);
}

#[test]
fn fill_sets_every_byte() {
    let mut buf = vec![1u8, 2, 3];
    fill_payload(&mut buf, 9);
    assert_eq!(buf, vec![9, 9, 9]);
}

#[test]
fn full_writes_continue() {
    let mut w = WriterState::new(1024, false).unwrap();
    assert_eq!(w.on_write(WriteOutcome::Wrote(1024)), WriterStep::Write);
    assert_eq!(w.phase, WriterPhase::Streaming);
}

#[test]
fn peer_closing_mid_write_ends_gracefully() {
    for e in [IoFailure::BrokenPipe, IoFailure::ConnectionReset] {
        let mut w = WriterState::new(1024, true).unwrap();
        assert_eq!(w.on_write(WriteOutcome::Failed(e)), WriterStep::Finish);

        let mut w = WriterState::new(1024, true).unwrap();
        assert_eq!(w.on_write(WriteOutcome::Wrote(100)), WriterStep::RetryExpectingFailure);
        assert_eq!(w.phase, WriterPhase::AfterShortWrite);
        assert_eq!(w.on_write(WriteOutcome::Failed(e)), WriterStep::Finish);
    }
}

#[test]
fn success_after_short_write_is_fatal() {
    let mut w = WriterState::new(1024, false).unwrap();
    w.on_write(WriteOutcome::Wrote(0));
    assert_eq!(
        w.on_write(WriteOutcome::Wrote(1024)),
        WriterStep::Fatal(WriterFault::UnexpectedSuccess)
    );
}

#[test]
fn other_write_errors_are_fatal() {
    let mut w = WriterState::new(1024, false).unwrap();
    assert_eq!(
        w.on_write(WriteOutcome::Failed(IoFailure::Other)),
        WriterStep::Fatal(WriterFault::Unexpected(IoFailure::Other))
    );
    let mut w = WriterState::new(1024, false).unwrap();
    w.on_write(WriteOutcome::Wrote(10));
    assert_eq!(
        w.on_write(WriteOutcome::Failed(IoFailure::InvalidInput)),
        WriterStep::Fatal(WriterFault::Unexpected(IoFailure::InvalidInput))
    );
}

#[test]
fn acceptor_exits_on_shutdown_signal() {
    assert_eq!(on_accept_failure(IoFailure::InvalidInput), AcceptorStep::Exit);
    assert_eq!(on_accept_failure(IoFailure::Other), AcceptorStep::Fatal(IoFailure::Other));
    assert_eq!(
        on_accept_failure(IoFailure::BrokenPipe),
        AcceptorStep::Fatal(IoFailure::BrokenPipe)
    );
}
