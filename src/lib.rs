//! Measures read throughput and syscall cost of byte streams as a function of
//! the buffer size: a timed read loop, an adaptive sweep over power-of-two
//! buffer sizes, the decisions of the endless writer that feeds a stream, and
//! the five-byte header that tells a network writer which buffer to use.
pub mod handshake;
pub mod reader;
pub mod sweep;
pub mod writer;
