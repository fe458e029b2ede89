//! Message framing over a byte stream.
//!
//! A stream has no message boundaries of its own, so each payload travels
//! behind a header of four bytes that holds its length, most significant
//! byte first. The reader collects what the stream yields, in whatever
//! pieces it comes, and hands out each payload once it is complete.

use vstd::prelude::*;
use crate::transport::error::Failure;
use crate::transport::SendError;

verus! {

/// The length of the header of a frame.
pub const HEADER_LEN: usize = 4;

/// The text of the error for a payload that no header can describe.
pub open spec fn too_large_message() -> Seq<char> {
    "message too large for one frame"@
}

/// The header for a payload of `n` bytes.
pub open spec fn header(n: nat) -> Seq<u8> {
    seq![
        (n / 0x1000000) as u8,
        ((n / 0x10000) % 0x100) as u8,
        ((n / 0x100) % 0x100) as u8,
        (n % 0x100) as u8,
    ]
}

/// The length that a header announces.
pub open spec fn announced(header: Seq<u8>) -> nat {
    (((header[0] as nat * 0x100 + header[1] as nat) * 0x100 + header[2] as nat) * 0x100
        + header[3] as nat) as nat
}

/// Whether a payload fits into one frame.
pub open spec fn fits(payload: Seq<u8>) -> bool {
    payload.len() <= u32::MAX
}

/// A payload as it travels: its header, then its bytes.
pub open spec fn framed(payload: Seq<u8>) -> Seq<u8> {
    header(payload.len()) + payload
}

/// The first payload in `buffer` and the number of bytes that it takes
/// there; nothing while the frame is not complete.
pub open spec fn unframed(buffer: Seq<u8>) -> Option<(Seq<u8>, nat)> {
    if buffer.len() < 4 {
        None
    } else {
        let n = announced(buffer.take(4));
        if buffer.len() < 4 + n {
            None
        } else {
            Some((buffer.subrange(4, 4 + n as int), 4 + n))
        }
    }
}

/// A header announces the length that it was made for.
pub proof fn lemma_header_round_trip(n: nat)
    requires
        n <= u32::MAX,
    ensures
        header(n).len() == 4,
        announced(header(n)) == n,
{
}

/// Round trip: a framed payload, whatever follows it in the stream, comes
/// out as it went in, and what follows is left for the next turn.
pub proof fn lemma_frame_round_trip(payload: Seq<u8>, rest: Seq<u8>)
    requires
        fits(payload),
    ensures
        unframed(framed(payload) + rest) == Some((payload, 4 + payload.len())),
        (framed(payload) + rest).skip(4 + payload.len() as int) == rest,
{
    let stream = framed(payload) + rest;
    lemma_header_round_trip(payload.len());
    assert(stream.take(4) =~= header(payload.len()));
    assert(stream.subrange(4, 4 + payload.len() as int) =~= payload);
    assert(stream.skip(4 + payload.len() as int) =~= rest);
}

/// Ordering: two payloads framed one after the other come out in that
/// order, the second once the first has been taken.
pub proof fn lemma_frames_in_order(first: Seq<u8>, second: Seq<u8>)
    requires
        fits(first),
        fits(second),
    ensures
        ({
            let stream = framed(first) + framed(second);
            &&& unframed(stream) == Some((first, 4 + first.len()))
            &&& unframed(stream.skip(4 + first.len() as int)) == Some((second, 4 + second.len()))
        }),
{
    lemma_frame_round_trip(first, framed(second));
    lemma_frame_round_trip(second, Seq::empty());
    assert(framed(second) + Seq::<u8>::empty() =~= framed(second));
}

/// No partial delivery: as long as a frame has not arrived in full,
/// nothing comes out.
pub proof fn lemma_partial_frame_waits(payload: Seq<u8>, arrived: int)
    requires
        fits(payload),
        0 <= arrived < framed(payload).len(),
    ensures
        unframed(framed(payload).take(arrived)) is None,
{
    let part = framed(payload).take(arrived);
    lemma_header_round_trip(payload.len());
    if arrived >= 4 {
        assert(part.take(4) =~= header(payload.len()));
    }
}

/// The frame that carries `payload`. A payload of more bytes than a header
/// can announce is refused.
pub fn frame(payload: &[u8]) -> (r: Result<Vec<u8>, SendError>)
    ensures
        match r {
            Ok(bytes) => fits(payload@) && bytes@ == framed(payload@),
            Err(e) => !fits(payload@) && e@ == Failure::Protocol(too_large_message()),
        },
{
    let n = payload.len();
    if n > 0xFFFF_FFFF {
        return Err(SendError::ProtocolError("message too large for one frame".to_owned()));
    }
    let mut bytes: Vec<u8> = Vec::with_capacity(4);
    bytes.push((n / 0x1000000) as u8);
    bytes.push(((n / 0x10000) % 0x100) as u8);
    bytes.push(((n / 0x100) % 0x100) as u8);
    bytes.push((n % 0x100) as u8);
    assert(bytes@ =~= header(n as nat));
    bytes.extend_from_slice(payload);
    assert(bytes@ =~= framed(payload@));
    Ok(bytes)
}

/// The first payload in `buffer` with the number of bytes that its frame
/// takes; nothing while the frame is not complete.
pub fn unframe(buffer: &[u8]) -> (r: Option<(Vec<u8>, usize)>)
    ensures
        match r {
            Some((payload, consumed)) => unframed(buffer@) == Some((payload@, consumed as nat)),
            None => unframed(buffer@) is None,
        },
{
    if buffer.len() < 4 {
        return None;
    }
    let n: u64 = ((buffer[0] as u64 * 0x100 + buffer[1] as u64) * 0x100 + buffer[2] as u64)
        * 0x100 + buffer[3] as u64;
    assert(n == announced(buffer@.take(4)));
    if ((buffer.len() - 4) as u64) < n {
        return None;
    }
    let end: usize = 4 + n as usize;
    let payload = vstd::slice::slice_to_vec(vstd::slice::slice_subrange(buffer, 4, end));
    Some((payload, end))
}

/// The inbound side of a framed stream: the bytes that have arrived and
/// were not handed out yet.
pub struct FrameReader {
    buffer: Vec<u8>,
}

impl View for FrameReader {
    type V = Seq<u8>;

    closed spec fn view(&self) -> Seq<u8> {
        self.buffer@
    }
}

impl FrameReader {
    /// A reader that holds nothing.
    pub fn new() -> (r: FrameReader)
        ensures
            r@ == Seq::<u8>::empty(),
    {
        FrameReader { buffer: Vec::new() }
    }

    /// How many bytes wait in the reader.
    pub fn len(&self) -> (r: usize)
        ensures
            r == self@.len(),
    {
        self.buffer.len()
    }

    /// Takes in what the stream has yielded, behind what arrived before.
    pub fn extend(&mut self, bytes: &[u8])
        ensures
            final(self)@ == old(self)@ + bytes@,
    {
        self.buffer.extend_from_slice(bytes);
    }

    /// Hands out the first payload once its frame has arrived in full, and
    /// keeps what follows it for the next call.
    pub fn next_frame(&mut self) -> (r: Option<Vec<u8>>)
        ensures
            match r {
                Some(payload) => unframed(old(self)@) matches Some((p, consumed)) && p == payload@
                    && final(self)@ == old(self)@.skip(consumed as int),
                None => unframed(old(self)@) is None && final(self)@ == old(self)@,
            },
    {
        match unframe(self.buffer.as_slice()) {
            Some((payload, consumed)) => {
                let rest = self.buffer.split_off(consumed);
                self.buffer = rest;
                proof {
                    assert(self@ =~= old(self)@.skip(consumed as int));
                }
                Some(payload)
            },
            None => None,
        }
    }
}

} // verus!
