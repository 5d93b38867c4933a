//! The header a reader sends to a network writer right after connecting.
//!
//! Bytes 0..4 hold the writer's buffer size as a little-endian `u32`; byte 4
//! is 1 when the writer must vary its payload and 0 when it must not.
use vstd::prelude::*;

verus! {

/// Length of the header on the wire.
pub const HEADER_LEN: usize = 5;

/// The parameters a writer learns from the header.
#[derive(Clone, Copy, Debug, PartialEq, Eq, Structural)]
pub struct Handshake {
    pub buffer_bytes: u32,
    pub use_buffer: bool,
}

/// The four little-endian bytes of `v`.
pub open spec fn le_bytes(v: u32) -> Seq<u8> {
    seq![
        (v % 0x100) as u8,
        ((v / 0x100) % 0x100) as u8,
        ((v / 0x1_0000) % 0x100) as u8,
        (v / 0x100_0000) as u8,
    ]
}

/// The number that four little-endian bytes spell.
pub open spec fn le_value(b0: u8, b1: u8, b2: u8, b3: u8) -> int {
    b0 + 0x100 * b1 + 0x1_0000 * b2 + 0x100_0000 * b3
}

/// The header that carries `h`.
pub open spec fn header_of(h: Handshake) -> Seq<u8> {
    le_bytes(h.buffer_bytes).push(if h.use_buffer { 1u8 } else { 0u8 })
}

/// What a writer reads out of a five-byte header: nothing when the flag
/// byte is neither 0 nor 1, since such a header breaks the protocol.
pub open spec fn read_header(s: Seq<u8>) -> Option<Handshake>
    recommends
        s.len() == HEADER_LEN,
{
    if s[4] <= 1 {
        Some(
            Handshake {
                buffer_bytes: le_value(s[0], s[1], s[2], s[3]) as u32,
                use_buffer: s[4] == 1,
            },
        )
    } else {
        None
    }
}

/// Builds the header that asks a writer for `buffer_bytes`-sized writes,
/// with a varied payload when `use_buffer` holds.
pub fn encode_handshake(buffer_bytes: u32, use_buffer: bool) -> (r: [u8; 5])
    ensures
        r@ == header_of(Handshake { buffer_bytes, use_buffer }),
{
    let flag: u8 = if use_buffer { 1 } else { 0 };
    let r: [u8; 5] = [
        (buffer_bytes % 0x100) as u8,
        ((buffer_bytes / 0x100) % 0x100) as u8,
        ((buffer_bytes / 0x1_0000) % 0x100) as u8,
        (buffer_bytes / 0x100_0000) as u8,
        flag,
    ];
    assert(r@ =~= header_of(Handshake { buffer_bytes, use_buffer }));
    r
}

/// Reads the parameters out of a received header; `None` when its flag
/// byte is neither 0 nor 1.
pub fn decode_handshake(header: &[u8; 5]) -> (r: Option<Handshake>)
    ensures
        r == read_header(header@),
{
    let b0 = header[0] as u32;
    let b1 = header[1] as u32;
    let b2 = header[2] as u32;
    let b3 = header[3] as u32;
    let flag = header[4];
    if flag > 1 {
        return None;
    }
    Some(
        Handshake {
            buffer_bytes: b0 + b1 * 0x100 + b2 * 0x1_0000 + b3 * 0x100_0000,
            use_buffer: flag == 1,
        },
    )
}

/// Decoding an encoded header gives back the buffer size and the flag it
/// was built from, for every 32-bit size.
pub proof fn lemma_handshake_round_trip(buffer_bytes: u32, use_buffer: bool)
    ensures
        header_of(Handshake { buffer_bytes, use_buffer }).len() == HEADER_LEN,
        read_header(header_of(Handshake { buffer_bytes, use_buffer })) == Some(
            Handshake { buffer_bytes, use_buffer },
        ),
{
    let v = buffer_bytes as int;
    assert(v == v % 0x100 + 0x100 * ((v / 0x100) % 0x100) + 0x1_0000 * ((v / 0x1_0000) % 0x100)
        + 0x100_0000 * (v / 0x100_0000)) by (nonlinear_arith)
        requires
            0 <= v < 0x1_0000_0000,
    ;
}

} // verus!
