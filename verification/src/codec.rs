//! Length-prefixed framing over a byte stream. Each message is a 4-byte little-endian length
//! followed by that many payload bytes (the payload is the serialized message). Used by the local
//! control socket and by the network link's reliable uplink alike.

use vstd::prelude::*;

verus! {

/// Upper bound on one framed payload (a guard against a bogus length triggering a huge
/// allocation).
pub const MAX_MSG_LEN: u32 = 16777216;

/// Why a frame cannot be written or read.
#[derive(Debug, Clone, Copy, PartialEq, Eq, Structural)]
pub enum FrameError {
    /// The payload (or the announced length) exceeds [`MAX_MSG_LEN`].
    TooLong,
    /// The stream ended inside a frame's payload.
    Truncated,
    /// The stream ended inside a frame's length prefix.
    TruncatedPrefix,
}

/// The little-endian bytes of `n`.
pub open spec fn le_bytes(n: u32) -> Seq<u8> {
    seq![
        (n % 256) as u8,
        ((n / 256) % 256) as u8,
        ((n / 65536) % 256) as u8,
        (n / 16777216) as u8,
    ]
}

/// The number whose little-endian bytes are `b[0..4]`.
pub open spec fn le_value(b: Seq<u8>) -> int {
    b[0] + 256 * b[1] + 65536 * b[2] + 16777216 * b[3]
}

/// The frame of `payload`: its length, little-endian, then the payload.
pub open spec fn framed(payload: Seq<u8>) -> Seq<u8> {
    le_bytes(payload.len() as u32) + payload
}

proof fn lemma_le_round_trip(n: u32)
    ensures
        le_value(le_bytes(n)) == n,
{
    let b0 = n % 256;
    let b1 = (n / 256) % 256;
    let b2 = (n / 65536) % 256;
    let b3 = n / 16777216;
    assert(n == b0 + 256 * b1 + 65536 * b2 + 16777216 * b3) by (nonlinear_arith)
        requires
            b0 == n % 256,
            b1 == (n / 256) % 256,
            b2 == (n / 65536) % 256,
            b3 == n / 16777216,
    ;
}

/// The 4-byte little-endian encoding of `n`.
fn le_encode(n: u32) -> (b: Vec<u8>)
    ensures
        b@ == le_bytes(n),
{
    let mut b: Vec<u8> = Vec::new();
    b.push((n % 256) as u8);
    b.push(((n / 256) % 256) as u8);
    b.push(((n / 65536) % 256) as u8);
    b.push((n / 16777216) as u8);
    assert(b@ =~= le_bytes(n));
    b
}

/// Frame `payload` for the stream: its length as 4 little-endian bytes, then the payload.
/// Refused with [`FrameError::TooLong`] when the payload exceeds [`MAX_MSG_LEN`].
pub fn encode_frame(payload: &[u8]) -> (r: Result<Vec<u8>, FrameError>)
    ensures
        payload@.len() <= MAX_MSG_LEN ==> (r matches Ok(f) && f@ == framed(payload@)),
        payload@.len() > MAX_MSG_LEN ==> r == Err::<Vec<u8>, FrameError>(FrameError::TooLong),
{
    if payload.len() > MAX_MSG_LEN as usize {
        return Err(FrameError::TooLong);
    }
    let mut out = le_encode(payload.len() as u32);
    let ghost head = out@;
    let mut i: usize = 0;
    while i < payload.len()
        invariant
            0 <= i <= payload@.len(),
            out@ == head + payload@.take(i as int),
        decreases payload.len() - i,
    {
        out.push(payload[i]);
        i += 1;
        assert(out@ =~= head + payload@.take(i as int));
    }
    assert(payload@.take(payload@.len() as int) =~= payload@);
    Ok(out)
}

/// The payload length a frame's 4-byte prefix announces, refused with [`FrameError::TooLong`]
/// past [`MAX_MSG_LEN`].
pub fn decode_len(prefix: &[u8]) -> (r: Result<usize, FrameError>)
    requires
        prefix@.len() == 4,
    ensures
        le_value(prefix@) <= MAX_MSG_LEN ==> r == Ok::<usize, FrameError>(le_value(prefix@) as usize),
        le_value(prefix@) > MAX_MSG_LEN ==> r == Err::<usize, FrameError>(FrameError::TooLong),
{
    let len: u64 = prefix[0] as u64 + 256 * (prefix[1] as u64) + 65536 * (prefix[2] as u64) + 16777216 * (
    prefix[3] as u64);
    if len > MAX_MSG_LEN as u64 {
        Err(FrameError::TooLong)
    } else {
        Ok(len as usize)
    }
}

/// Read one frame from the front of `input`: `Ok(None)` when nothing remains (a clean end of the
/// stream at a frame boundary), else the payload and the number of bytes the frame took. Refused
/// with [`FrameError::TruncatedPrefix`] when the stream ends inside the length prefix, with
/// [`FrameError::TooLong`] for an announced length past [`MAX_MSG_LEN`], and with
/// [`FrameError::Truncated`] when the payload is cut short.
pub fn decode_frame(input: &[u8]) -> (r: Result<Option<(Vec<u8>, usize)>, FrameError>)
    ensures
        input@.len() == 0 ==> r == Ok::<Option<(Vec<u8>, usize)>, FrameError>(None),
        1 <= input@.len() < 4 ==> r == Err::<Option<(Vec<u8>, usize)>, FrameError>(
            FrameError::TruncatedPrefix,
        ),
        input@.len() >= 4 && le_value(input@) > MAX_MSG_LEN ==> r == Err::<
            Option<(Vec<u8>, usize)>,
            FrameError,
        >(FrameError::TooLong),
        input@.len() >= 4 && le_value(input@) <= MAX_MSG_LEN && input@.len() < 4 + le_value(input@)
            ==> r == Err::<Option<(Vec<u8>, usize)>, FrameError>(FrameError::Truncated),
        input@.len() >= 4 && le_value(input@) <= MAX_MSG_LEN && input@.len() >= 4 + le_value(input@)
            ==> (r matches Ok(Some((p, used))) && used == 4 + le_value(input@) && p@ == input@.subrange(
            4,
            4 + le_value(input@),
        )),
{
    if input.len() == 0 {
        return Ok(None);
    }
    if input.len() < 4 {
        return Err(FrameError::TruncatedPrefix);
    }
    let prefix = slice_prefix(input);
    let len = match decode_len(prefix) {
        Ok(n) => n,
        Err(e) => {
            return Err(e);
        },
    };
    assert(le_value(prefix@) == le_value(input@));
    if input.len() - 4 < len {
        return Err(FrameError::Truncated);
    }
    let mut p: Vec<u8> = Vec::new();
    let mut i: usize = 0;
    while i < len
        invariant
            0 <= i <= len,
            4 + len <= input@.len(),
            input@.len() == input.len(),
            input.len() <= usize::MAX,
            p@ == input@.subrange(4, 4 + i),
        decreases len - i,
    {
        p.push(input[4 + i]);
        i += 1;
        assert(p@ =~= input@.subrange(4, 4 + i));
    }
    Ok(Some((p, 4 + len)))
}

/// The first four bytes of `input`.
fn slice_prefix(input: &[u8]) -> (p: &[u8])
    requires
        input@.len() >= 4,
    ensures
        p@ == input@.subrange(0, 4),
{
    vstd::slice::slice_subrange(input, 0, 4)
}

/// A framed payload reads back as itself, whatever follows it on the stream — so frames written
/// one after another read back independently, in order.
pub proof fn law_frame_round_trip(payload: Seq<u8>, rest: Seq<u8>)
    requires
        payload.len() <= MAX_MSG_LEN,
    ensures
        ({
            let s = framed(payload) + rest;
            &&& s.len() >= 4
            &&& le_value(s) == payload.len()
            &&& le_value(s) <= MAX_MSG_LEN
            &&& s.len() >= 4 + le_value(s)
            &&& s.subrange(4, 4 + le_value(s)) == payload
            &&& s.subrange(4 + le_value(s), s.len() as int) == rest
        }),
{
    let s = framed(payload) + rest;
    lemma_le_round_trip(payload.len() as u32);
    assert(le_value(s) == le_value(le_bytes(payload.len() as u32)));
    assert(s.subrange(4, 4 + payload.len() as int) =~= payload);
    assert(s.subrange(4 + payload.len() as int, s.len() as int) =~= rest);
}

} // verus!
