//! Framing: how the bytes of a connection are cut into message payloads.

use vstd::prelude::*;
use vstd::slice::*;
use super::message::Message;

verus! {

/// Default upper bound on a frame's payload: 16 MiB.
pub const DEFAULT_MAX_FRAME_LEN: u32 = 0x100_0000;

/// Why no frame could be taken from the bytes at hand.
#[derive(Clone, Copy, Debug, PartialEq, Eq, Structural)]
pub enum FrameError {
    /// The bytes end before the frame does.
    UnexpectedEof,
    /// The frame announces more payload than the decoder admits.
    FrameTooLarge,
}

/// A framing. `framed` says, for the bytes received so far, which payload the first frame
/// carries and how many bytes the frame takes; `decode` computes it.
pub trait Decoder {
    spec fn framed(&self, input: Seq<u8>) -> Result<(Seq<u8>, int), FrameError>;

    /// Takes one frame from the head of `input` and puts its payload into `msg`; the sender
    /// recorded in `msg` stays. On failure `msg` is left as it was.
    fn decode(&self, input: &[u8], msg: &mut Message) -> (r: Result<usize, FrameError>)
        ensures
            final(msg).from == old(msg).from,
            match r {
                Ok(used) => self.framed(input@) == Ok::<(Seq<u8>, int), FrameError>(
                    (final(msg).payload@, used as int),
                ) && used <= input@.len(),
                Err(e) => self.framed(input@) == Err::<(Seq<u8>, int), FrameError>(e)
                    && final(msg).payload@ == old(msg).payload@,
            },
    ;
}

/// Takes everything up to the end of the stream as one payload. Fit only for connections
/// that carry a single message.
#[derive(Clone, Copy, Debug)]
pub struct DefaultDecoder {}

impl Decoder for DefaultDecoder {
    open spec fn framed(&self, input: Seq<u8>) -> Result<(Seq<u8>, int), FrameError> {
        Ok((input, input.len() as int))
    }

    fn decode(&self, input: &[u8], msg: &mut Message) -> (r: Result<usize, FrameError>) {
        msg.payload = slice_to_vec(input);
        Ok(input.len())
    }
}

/// The four bytes of a frame's length, most significant first.
pub open spec fn be_u32_bytes(n: u32) -> Seq<u8> {
    seq![
        (n / 0x100_0000) as u8,
        (n / 0x1_0000 % 0x100) as u8,
        (n / 0x100 % 0x100) as u8,
        (n % 0x100) as u8,
    ]
}

/// The number that the first four bytes of `b` spell, most significant first.
pub open spec fn be_u32_value(b: Seq<u8>) -> int
    recommends
        b.len() >= 4,
{
    b[0] * 0x100_0000 + b[1] * 0x1_0000 + b[2] * 0x100 + b[3]
}

/// One frame: the payload's length in four bytes, then the payload.
pub open spec fn frame(payload: Seq<u8>) -> Seq<u8>
    recommends
        payload.len() <= u32::MAX,
{
    be_u32_bytes(payload.len() as u32) + payload
}

/// The first frame of `input` under a bound of `max_len` on the payload.
pub open spec fn unframe(input: Seq<u8>, max_len: u32) -> Result<(Seq<u8>, int), FrameError> {
    if input.len() < 4 {
        Err(FrameError::UnexpectedEof)
    } else if be_u32_value(input) > max_len {
        Err(FrameError::FrameTooLarge)
    } else if input.len() - 4 < be_u32_value(input) {
        Err(FrameError::UnexpectedEof)
    } else {
        Ok((input.subrange(4, 4 + be_u32_value(input)), 4 + be_u32_value(input)))
    }
}

/// The wire framing: every message is a 32-bit big-endian length followed by that many
/// bytes of payload. A length above `max_frame_len` is refused.
#[derive(Clone, Copy, Debug)]
pub struct LengthPrefixedDecoder {
    pub max_frame_len: u32,
}

impl LengthPrefixedDecoder {
    /// A decoder that admits payloads of up to `max_frame_len` bytes.
    pub fn new(max_frame_len: u32) -> (d: LengthPrefixedDecoder)
        ensures
            d.max_frame_len == max_frame_len,
    {
        LengthPrefixedDecoder { max_frame_len }
    }

    /// Wraps a payload into a frame for sending; refuses one that the receiving decoder
    /// would refuse.
    pub fn encode(&self, payload: &[u8]) -> (r: Result<Vec<u8>, FrameError>)
        ensures
            match r {
                Ok(bytes) => payload@.len() <= self.max_frame_len && bytes@ == frame(payload@),
                Err(e) => payload@.len() > self.max_frame_len && e == FrameError::FrameTooLarge,
            },
    {
        if payload.len() > self.max_frame_len as usize {
            return Err(FrameError::FrameTooLarge);
        }
        let n: u32 = payload.len() as u32;
        let mut bytes: Vec<u8> = Vec::new();
        bytes.push((n / 0x100_0000) as u8);
        bytes.push((n / 0x1_0000 % 0x100) as u8);
        bytes.push((n / 0x100 % 0x100) as u8);
        bytes.push((n % 0x100) as u8);
        assert(bytes@ =~= be_u32_bytes(n));
        bytes.extend_from_slice(payload);
        assert(bytes@ =~= frame(payload@));
        Ok(bytes)
    }
}

impl Decoder for LengthPrefixedDecoder {
    open spec fn framed(&self, input: Seq<u8>) -> Result<(Seq<u8>, int), FrameError> {
        unframe(input, self.max_frame_len)
    }

    fn decode(&self, input: &[u8], msg: &mut Message) -> (r: Result<usize, FrameError>) {
        if input.len() < 4 {
            return Err(FrameError::UnexpectedEof);
        }
        let len: u32 = (input[0] as u32) * 0x100_0000 + (input[1] as u32) * 0x1_0000 + (
        input[2] as u32) * 0x100 + (input[3] as u32);
        if len > self.max_frame_len {
            return Err(FrameError::FrameTooLarge);
        }
        if ((input.len() - 4) as u64) < len as u64 {
            return Err(FrameError::UnexpectedEof);
        }
        let end: usize = 4 + len as usize;
        msg.payload = slice_to_vec(slice_subrange(input, 4, end));
        Ok(end)
    }
}

/// A frame that was written is read back, whatever follows it, by every decoder whose
/// bound the payload meets.
pub proof fn lemma_frame_round_trip(payload: Seq<u8>, trailing: Seq<u8>, max_len: u32)
    requires
        payload.len() <= max_len,
    ensures
        unframe(frame(payload) + trailing, max_len) == Ok::<(Seq<u8>, int), FrameError>(
            (payload, 4 + payload.len() as int),
        ),
        (frame(payload) + trailing).skip(4 + payload.len() as int) == trailing,
{
    let input = frame(payload) + trailing;
    assert(be_u32_value(input) == payload.len());
    assert(input.subrange(4, 4 + payload.len() as int) =~= payload);
    assert(input.skip(4 + payload.len() as int) =~= trailing);
}

/// A frame of length zero delivers the empty payload.
pub proof fn lemma_empty_frame(trailing: Seq<u8>, max_len: u32)
    ensures
        unframe(seq![0u8, 0u8, 0u8, 0u8] + trailing, max_len) == Ok::<(Seq<u8>, int), FrameError>(
            (Seq::<u8>::empty(), 4),
        ),
{
    let input = seq![0u8, 0u8, 0u8, 0u8] + trailing;
    assert(input.subrange(4, 4) =~= Seq::<u8>::empty());
}

/// A frame that announces more than the bound is refused, however many bytes follow.
pub proof fn lemma_oversize_frame_refused(payload: Seq<u8>, trailing: Seq<u8>, max_len: u32)
    requires
        max_len < payload.len() <= u32::MAX,
    ensures
        unframe(frame(payload) + trailing, max_len) == Err::<(Seq<u8>, int), FrameError>(
            FrameError::FrameTooLarge,
        ),
{
    let input = frame(payload) + trailing;
    assert(be_u32_value(input) == payload.len());
}

} // verus!
