//! Decisions of the writer that feeds a stream until its reader goes away,
//! and of the acceptor that starts one writer per network connection.
//!
//! The caller performs each write or accept and hands the outcome back; the
//! state machine says what to do next. A peer that closed the connection is
//! the designed way for a writer to learn the benchmark ended.
use vstd::prelude::*;
use crate::handshake::{decode_handshake, read_header};
use crate::sweep::MAX_BUFFER_BYTES;

verus! {

/// Error classes of a failed write or accept, mapped from the OS error.
#[derive(Clone, Copy, Debug, PartialEq, Eq, Structural)]
pub enum IoFailure {
    ConnectionReset,
    BrokenPipe,
    InvalidInput,
    Other,
}

/// The result of one write call.
#[derive(Clone, Copy, Debug, PartialEq, Eq, Structural)]
pub enum WriteOutcome {
    /// The call wrote this many bytes.
    Wrote(usize),
    /// The call failed.
    Failed(IoFailure),
}

/// Where a writer stands.
#[derive(Clone, Copy, Debug, PartialEq, Eq, Structural)]
pub enum WriterPhase {
    /// Writing full buffers.
    Streaming,
    /// A write came back short; the next write must fail.
    AfterShortWrite,
}

/// A condition that stops a writer abnormally.
#[derive(Clone, Copy, Debug, PartialEq, Eq, Structural)]
pub enum WriterFault {
    /// The requested buffer is larger than `MAX_BUFFER_BYTES`.
    Oversized(usize),
    /// The header's flag byte is neither 0 nor 1.
    BadFlag(u8),
    /// A write after a short write succeeded, which the protocol rules out.
    UnexpectedSuccess,
    /// A write failed for a reason other than the peer closing.
    Unexpected(IoFailure),
}

/// What a writer does next.
#[derive(Clone, Copy, Debug, PartialEq, Eq, Structural)]
pub enum WriterStep {
    /// Prepare the buffer and write it again.
    Write,
    /// Write the same buffer once more, expecting it to fail.
    RetryExpectingFailure,
    /// The peer closed: the writer's task ends normally.
    Finish,
    /// Stop abnormally.
    Fatal(WriterFault),
}

/// What an acceptor does after a failed accept.
#[derive(Clone, Copy, Debug, PartialEq, Eq, Structural)]
pub enum AcceptorStep {
    /// The listening socket was shut down for reading: leave the loop.
    Exit,
    /// Any other failure.
    Fatal(IoFailure),
}

/// Connection reset and broken pipe both mean the reader went away.
pub open spec fn peer_closed(e: IoFailure) -> bool {
    e == IoFailure::ConnectionReset || e == IoFailure::BrokenPipe
}

/// The step a writer in `phase` with a buffer of `len` bytes takes after
/// `outcome`, and its next phase.
pub open spec fn writer_transition(phase: WriterPhase, len: nat, outcome: WriteOutcome) -> (
    WriterPhase,
    WriterStep,
) {
    match outcome {
        WriteOutcome::Failed(e) => if peer_closed(e) {
            (phase, WriterStep::Finish)
        } else {
            (phase, WriterStep::Fatal(WriterFault::Unexpected(e)))
        },
        WriteOutcome::Wrote(n) => match phase {
            WriterPhase::Streaming => if n < len {
                (WriterPhase::AfterShortWrite, WriterStep::RetryExpectingFailure)
            } else {
                (WriterPhase::Streaming, WriterStep::Write)
            },
            WriterPhase::AfterShortWrite => (
                phase,
                WriterStep::Fatal(WriterFault::UnexpectedSuccess),
            ),
        },
    }
}

/// The step an acceptor takes after an accept failed with `e`.
pub open spec fn acceptor_transition(e: IoFailure) -> AcceptorStep {
    if e == IoFailure::InvalidInput {
        AcceptorStep::Exit
    } else {
        AcceptorStep::Fatal(e)
    }
}

/// Decides what an acceptor does after a failed accept: the designed
/// shutdown of the listening socket shows up as invalid input.
pub fn on_accept_failure(e: IoFailure) -> (r: AcceptorStep)
    ensures
        r == acceptor_transition(e),
{
    match e {
        IoFailure::InvalidInput => AcceptorStep::Exit,
        _ => AcceptorStep::Fatal(e),
    }
}

/// Sets every byte of `buf` to `byte`.
pub fn fill_payload(buf: &mut Vec<u8>, byte: u8)
    ensures
        final(buf)@.len() == old(buf)@.len(),
        forall|i: int| 0 <= i < final(buf)@.len() ==> #[trigger] final(buf)@[i] == byte,
{
    let n = buf.len();
    let mut i: usize = 0;
    while i < n
        invariant
            buf@.len() == n,
            i <= n,
            forall|j: int| 0 <= j < i ==> #[trigger] buf@[j] == byte,
        decreases n - i,
    {
        buf.set(i, byte);
        i = i + 1;
    }
}

/// State of one writer.
pub struct WriterState {
    pub buffer_len: usize,
    pub use_buffer: bool,
    /// The byte the next varied payload consists of.
    pub next_byte: u8,
    pub phase: WriterPhase,
}

impl WriterState {
    /// The buffer fits the size limit.
    pub open spec fn wf(self) -> bool {
        self.buffer_len <= MAX_BUFFER_BYTES
    }

    /// A writer with `buffer_len`-byte writes, varying its payload when
    /// `use_buffer` holds; refused above `MAX_BUFFER_BYTES`.
    pub fn new(buffer_len: usize, use_buffer: bool) -> (r: Result<WriterState, WriterFault>)
        ensures
            buffer_len <= MAX_BUFFER_BYTES ==> r == Ok::<WriterState, WriterFault>(
                WriterState { buffer_len, use_buffer, next_byte: 0, phase: WriterPhase::Streaming },
            ),
            buffer_len > MAX_BUFFER_BYTES ==> r == Err::<WriterState, WriterFault>(
                WriterFault::Oversized(buffer_len),
            ),
            r matches Ok(w) ==> w.wf(),
    {
        if buffer_len > MAX_BUFFER_BYTES {
            Err(WriterFault::Oversized(buffer_len))
        } else {
            Ok(WriterState { buffer_len, use_buffer, next_byte: 0, phase: WriterPhase::Streaming })
        }
    }

    /// The writer a network connection asks for with its five-byte header.
    pub fn from_header(header: &[u8; 5]) -> (r: Result<WriterState, WriterFault>)
        ensures
            header@[4] > 1 ==> r == Err::<WriterState, WriterFault>(WriterFault::BadFlag(header@[4])),
            read_header(header@) matches Some(h) ==> {
                &&& h.buffer_bytes <= MAX_BUFFER_BYTES ==> r == Ok::<WriterState, WriterFault>(
                    WriterState {
                        buffer_len: h.buffer_bytes as usize,
                        use_buffer: h.use_buffer,
                        next_byte: 0,
                        phase: WriterPhase::Streaming,
                    },
                )
                &&& h.buffer_bytes > MAX_BUFFER_BYTES ==> r == Err::<WriterState, WriterFault>(
                    WriterFault::Oversized(h.buffer_bytes as usize),
                )
            },
    {
        match decode_handshake(header) {
            Some(h) => WriterState::new(h.buffer_bytes as usize, h.use_buffer),
            None => Err(WriterFault::BadFlag(header[4])),
        }
    }

    /// Makes `buf` ready for the next write: with a varied payload it is
    /// filled with `next_byte`, which then moves on by one (mod 256);
    /// otherwise it is left as it is.
    pub fn prepare(&mut self, buf: &mut Vec<u8>)
        ensures
            final(self).buffer_len == old(self).buffer_len,
            final(self).use_buffer == old(self).use_buffer,
            final(self).phase == old(self).phase,
            final(buf)@.len() == old(buf)@.len(),
            old(self).use_buffer ==> {
                &&& final(self).next_byte == (old(self).next_byte + 1) % 256
                &&& forall|i: int|
                    0 <= i < final(buf)@.len() ==> #[trigger] final(buf)@[i] == old(self).next_byte
            },
            !old(self).use_buffer ==> *final(self) == *old(self) && final(buf)@ == old(buf)@,
    {
        if self.use_buffer {
            fill_payload(buf, self.next_byte);
            self.next_byte = if self.next_byte == 255 {
                0
            } else {
                self.next_byte + 1
            };
        }
    }

    /// Takes the outcome of a write into account and says what to do next.
    pub fn on_write(&mut self, outcome: WriteOutcome) -> (r: WriterStep)
        ensures
            final(self).phase == writer_transition(
                old(self).phase,
                old(self).buffer_len as nat,
                outcome,
            ).0,
            r == writer_transition(old(self).phase, old(self).buffer_len as nat, outcome).1,
            final(self).buffer_len == old(self).buffer_len,
            final(self).use_buffer == old(self).use_buffer,
            final(self).next_byte == old(self).next_byte,
    {
        match outcome {
            WriteOutcome::Failed(e) => match e {
                IoFailure::ConnectionReset => WriterStep::Finish,
                IoFailure::BrokenPipe => WriterStep::Finish,
                _ => WriterStep::Fatal(WriterFault::Unexpected(e)),
            },
            WriteOutcome::Wrote(n) => match self.phase {
                WriterPhase::Streaming => {
                    if n < self.buffer_len {
                        self.phase = WriterPhase::AfterShortWrite;
                        WriterStep::RetryExpectingFailure
                    } else {
                        WriterStep::Write
                    }
                },
                WriterPhase::AfterShortWrite => WriterStep::Fatal(WriterFault::UnexpectedSuccess),
            },
        }
    }
}

/// A peer that closes the connection ends a writer normally, whatever the
/// writer's phase and buffer: never abnormally.
pub proof fn lemma_peer_close_is_graceful(phase: WriterPhase, len: nat, e: IoFailure)
    requires
        peer_closed(e),
    ensures
        writer_transition(phase, len, WriteOutcome::Failed(e)).1 == WriterStep::Finish,
{
}

/// A streaming writer stays streaming through full writes; after a short
/// write it retries once with the same buffer, and a peer that has closed
/// then ends it normally.
pub proof fn lemma_short_write_then_close_finishes(len: nat, full: usize, short: usize, e: IoFailure)
    requires
        full >= len,
        short < len,
        peer_closed(e),
    ensures
        writer_transition(WriterPhase::Streaming, len, WriteOutcome::Wrote(full))
            == (WriterPhase::Streaming, WriterStep::Write),
        writer_transition(WriterPhase::Streaming, len, WriteOutcome::Wrote(short)) == (
            WriterPhase::AfterShortWrite,
            WriterStep::RetryExpectingFailure,
        ),
        writer_transition(WriterPhase::AfterShortWrite, len, WriteOutcome::Failed(e)).1
            == WriterStep::Finish,
{
}

} // verus!
