use std::io::Write;

use buffersizebench::writer::{IoFailure, WriteOutcome, WriterState, WriterStep};

/// A peer that takes `room` bytes and then goes away with `gone`.
struct ClosingPeer {
    room: usize,
    gone: std::io::ErrorKind,
    received: Vec<u8>,
}

impl Write for ClosingPeer {
    fn write(&mut self, buf: &[u8]) -> std::io::Result<usize> {
        if self.room == 0 {
            return Err(std::io::Error::new(self.gone, "peer closed"));
        }
        let n = buf.len().min(self.room);
        self.received.extend_from_slice(&buf[..n]);
        self.room -= n;
        Ok(n)
    }

    fn flush(&mut self) -> std::io::Result<()> {
        Ok(())
    }
}

/// Feeds `sock` until the state machine says to stop; returns its last step.
fn feed<W: Write>(sock: &mut W, mut state: WriterState) -> WriterStep {
    let mut buffer = vec![0u8; state.buffer_len];
    let mut step = WriterStep::Write;
    loop {
        if step == WriterStep::Write {
            state.prepare(&mut buffer);
        }
        let outcome = match sock.write(&buffer) {
            Ok(n) => WriteOutcome::Wrote(n),
            Err(e) => WriteOutcome::Failed(match e.kind() {
                std::io::ErrorKind::ConnectionReset => IoFailure::ConnectionReset,
                std::io::ErrorKind::BrokenPipe => IoFailure::BrokenPipe,
                std::io::ErrorKind::InvalidInput => IoFailure::InvalidInput,
                _ => IoFailure::Other,
            }),
        };
        step = state.on_write(outcome);
        match step {
            WriterStep::Write | WriterStep::RetryExpectingFailure => {}
            _ => return step,
        }
    }
}

#[test]
fn writer_ends_gracefully_when_peer_closes_mid_write() {
    let mut peer = ClosingPeer {
        room: 10,
        gone: std::io::ErrorKind::BrokenPipe,
        received: Vec::new(),
    };
    let state = WriterState::new(4, true).unwrap();
    assert_eq!(feed(&mut peer, state), WriterStep::Finish);
    // two full writes of 0s and 1s, then a short one of 2s
    assert_eq!(peer.received, vec![0, 0, 0, 0, 1, 1, 1, 1, 2, 2]);
}

#[test]
fn writer_ends_gracefully_on_reset_between_writes() {
    let mut peer = ClosingPeer {
        room: 8,
        gone: std::io::ErrorKind::ConnectionReset,
        received: Vec::new(),
    };
    let state = WriterState::new(4, false).unwrap();
    assert_eq!(feed(&mut peer, state), WriterStep::Finish);
    assert_eq!(peer.received, vec![0; 8]);
}

#[test]
fn writer_stops_abnormally_on_other_errors() {
    let mut peer = ClosingPeer {
        room: 2,
        gone: std::io::ErrorKind::PermissionDenied,
        received: Vec::new(),
    };
    let state = WriterState::new(4, false).unwrap();
    assert_eq!(
        feed(&mut peer, state),
        WriterStep::Fatal(buffersizebench::writer::WriterFault::Unexpected(IoFailure::Other))
    );
}
