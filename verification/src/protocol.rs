//! Wire framing of IPC messages: a 4-byte big-endian length prefix followed by
//! the JSON payload. Turning messages into JSON and back is the caller's part;
//! this module frames and checks the bytes.
use vstd::prelude::*;

verus! {

/// The largest payload the daemon accepts, in bytes (1 MiB).
pub const MAX_MESSAGE_LEN: u32 = 1048576;

/// Big-endian bytes of a 32-bit value.
pub open spec fn be_bytes_u32(x: u32) -> Seq<u8> {
    seq![
        (x / 16777216) as u8,
        ((x / 65536) % 256) as u8,
        ((x / 256) % 256) as u8,
        (x % 256) as u8,
    ]
}

/// The value of four big-endian bytes.
pub open spec fn be_value(b: Seq<u8>) -> int {
    b[0] * 16777216 + b[1] * 65536 + b[2] * 256 + b[3]
}

/// A payload's length as the frame header carries it: modulo 2^32.
pub open spec fn header_len(n: nat) -> u32 {
    (n % 4294967296) as u32
}

/// The frame of a payload.
pub open spec fn spec_frame(payload: Seq<u8>) -> Seq<u8> {
    be_bytes_u32(header_len(payload.len())) + payload
}

/// Read the length prefix from a 4-byte header.
pub fn decode_length(header: &[u8; 4]) -> (r: u32)
    ensures
        r == be_value(header@),
{
    let b0 = header[0] as u32;
    let b1 = header[1] as u32;
    let b2 = header[2] as u32;
    let b3 = header[3] as u32;
    b0 * 16777216 + b1 * 65536 + b2 * 256 + b3
}

/// Frame a payload for sending: the payload's length as a 4-byte big-endian
/// prefix, then the payload. The length is taken modulo 2^32, as the 32-bit
/// header holds it.
pub fn frame_message(payload: &[u8]) -> (r: Vec<u8>)
    ensures
        r@ == spec_frame(payload@),
{
    let n = payload.len();
    let len: u32 = ((n as u64) % 4294967296u64) as u32;
    let mut buf: Vec<u8> = Vec::new();
    buf.push((len / 16777216) as u8);
    buf.push(((len / 65536) % 256) as u8);
    buf.push(((len / 256) % 256) as u8);
    buf.push((len % 256) as u8);
    let mut i: usize = 0;
    while i < n
        invariant
            n == payload@.len(),
            len == header_len(n as nat),
            i <= n,
            buf@ == be_bytes_u32(len) + payload@.subrange(0, i as int),
        decreases n - i,
    {
        buf.push(payload[i]);
        i = i + 1;
        assert(buf@ =~= be_bytes_u32(len) + payload@.subrange(0, i as int));
    }
    assert(payload@.subrange(0, n as int) =~= payload@);
    buf
}

/// The payload length announced by a header, if the daemon accepts it.
pub fn check_message_length(len: u32) -> (r: Option<usize>)
    ensures
        r == (if len <= MAX_MESSAGE_LEN { Some(len as usize) } else { None::<usize> }),
{
    if len > MAX_MESSAGE_LEN {
        None
    } else {
        Some(len as usize)
    }
}

/// Reading back the header of a 32-bit value gives the value.
pub proof fn lemma_be_roundtrip(x: u32)
    ensures
        be_value(be_bytes_u32(x)) == x,
        be_bytes_u32(x).len() == 4,
{
    let b = be_bytes_u32(x);
    let q = x / 16777216;
    let r1 = x % 16777216;
    assert(x == q * 16777216 + r1) by (nonlinear_arith)
        requires q == x / 16777216, r1 == x % 16777216;
    assert(q < 256) by (nonlinear_arith)
        requires q == x / 16777216, x < 4294967296;
    assert(b[0] == q);
    assert(b[1] == (x / 65536) % 256);
    assert((x / 65536) % 256 * 65536 + (x / 256) % 256 * 256 + x % 256 == r1) by (nonlinear_arith)
        requires r1 == x % 16777216, x >= 0;
}

/// Framing law: the header of a frame announces the payload's length (below
/// 2^32), and the bytes after the header are the payload itself.
pub proof fn lemma_frame_roundtrip(payload: Seq<u8>)
    requires
        payload.len() < 4294967296,
    ensures
        spec_frame(payload).len() == payload.len() + 4,
        be_value(spec_frame(payload).subrange(0, 4)) == payload.len(),
        spec_frame(payload).subrange(4, spec_frame(payload).len() as int) == payload,
{
    let x = header_len(payload.len());
    assert(x == payload.len());
    lemma_be_roundtrip(x);
    let f = spec_frame(payload);
    assert(f.subrange(0, 4) =~= be_bytes_u32(x));
    assert(f.subrange(4, f.len() as int) =~= payload);
}

} // verus!
