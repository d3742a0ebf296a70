//! The reader of one connection: frames in, messages out.

use vstd::prelude::*;
use vstd::slice::*;
use super::encoding::{frame, lemma_frame_round_trip, Decoder, FrameError, LengthPrefixedDecoder};
use super::message::{Message, MessageView, PeerAddr};
use super::queue::MessageQueue;

verus! {

/// What the reader of the peer at `from` makes of the bytes `input`: the messages it
/// enqueues, one for each frame that `input` holds in full, in their order and each
/// stamped with `from`; the number of bytes those frames take; and what stopped it, a
/// framing error or, with `None`, a frame that took no bytes.
pub open spec fn drained<D: Decoder>(decoder: &D, from: PeerAddr, input: Seq<u8>) -> (
    Seq<MessageView>,
    int,
    Option<FrameError>,
)
    decreases input.len(),
{
    match decoder.framed(input) {
        Err(e) => (Seq::empty(), 0, Some(e)),
        Ok((payload, used)) => if 0 < used <= input.len() {
            let rest = drained(decoder, from, input.skip(used));
            (seq![MessageView { from, payload }] + rest.0, used + rest.1, rest.2)
        } else {
            (seq![MessageView { from, payload }], 0, None)
        },
    }
}

/// One turn of a reader: takes one frame from the head of `input`, stamps its payload
/// with the peer's address and enqueues it. On failure nothing is enqueued; the caller
/// evicts the peer, unless more bytes may still complete the frame.
pub fn read_frame<D: Decoder>(
    decoder: &D,
    from: PeerAddr,
    input: &[u8],
    queue: &mut MessageQueue,
) -> (r: Result<usize, FrameError>)
    ensures
        match decoder.framed(input@) {
            Ok((payload, used)) => {
                &&& r is Ok
                &&& r->Ok_0 == used
                &&& used <= input@.len()
                &&& final(queue)@ == old(queue)@.push(MessageView { from, payload })
            },
            Err(e) => {
                &&& r == Err::<usize, FrameError>(e)
                &&& final(queue)@ == old(queue)@
            },
        },
        final(queue).is_closed() == old(queue).is_closed(),
{
    let mut msg = Message::new(from);
    match decoder.decode(input, &mut msg) {
        Ok(used) => {
            queue.enqueue(msg);
            Ok(used)
        },
        Err(e) => Err(e),
    }
}

/// The reader's loop over the bytes received so far: enqueues a message for every frame
/// that `input` holds in full and returns how many bytes those frames take and what
/// stopped the loop. The caller keeps the bytes that are left; on `UnexpectedEof` it
/// waits for more, on `FrameTooLarge` it evicts the peer.
pub fn read_frames<D: Decoder>(
    decoder: &D,
    from: PeerAddr,
    input: &[u8],
    queue: &mut MessageQueue,
) -> (r: (usize, Option<FrameError>))
    ensures
        final(queue)@ == old(queue)@ + drained(decoder, from, input@).0,
        r.0 == drained(decoder, from, input@).1,
        r.1 == drained(decoder, from, input@).2,
        r.0 <= input@.len(),
        final(queue).is_closed() == old(queue).is_closed(),
{
    let mut at: usize = 0;
    assert(input@.skip(0) =~= input@);
    loop
        invariant
            at <= input@.len(),
            queue.is_closed() == old(queue).is_closed(),
            old(queue)@ + drained(decoder, from, input@).0 == queue@ + drained(
                decoder,
                from,
                input@.skip(at as int),
            ).0,
            drained(decoder, from, input@).1 == at + drained(
                decoder,
                from,
                input@.skip(at as int),
            ).1,
            drained(decoder, from, input@).2 == drained(decoder, from, input@.skip(at as int)).2,
        decreases input@.len() - at,
    {
        let ghost before = queue@;
        let ghost tail = input@.skip(at as int);
        let rest = slice_subrange(input, at, input.len());
        assert(rest@ =~= tail);
        match read_frame(decoder, from, rest, queue) {
            Ok(used) => {
                let ghost msg = MessageView { from, payload: decoder.framed(tail)->Ok_0.0 };
                if used == 0 {
                    assert(before.push(msg) =~= before + seq![msg]);
                    return (at, None);
                }
                proof {
                    let later = drained(decoder, from, tail.skip(used as int));
                    assert(tail.skip(used as int) =~= input@.skip(at + used));
                    assert(before.push(msg) + later.0 =~= before + (seq![msg] + later.0));
                }
                at = at + used;
            },
            Err(e) => {
                assert(queue@ + Seq::<MessageView>::empty() =~= queue@);
                return (at, Some(e));
            },
        }
    }
}

/// What is sent first arrives first: a reader that meets a frame followed by more bytes
/// enqueues the frame's payload, stamped with the peer's address, ahead of everything
/// that it makes of the bytes behind the frame.
pub proof fn lemma_frames_arrive_in_order(
    decoder: &LengthPrefixedDecoder,
    from: PeerAddr,
    payload: Seq<u8>,
    later: Seq<u8>,
)
    requires
        payload.len() <= decoder.max_frame_len,
    ensures
        drained(decoder, from, frame(payload) + later).0 == seq![MessageView { from, payload }]
            + drained(decoder, from, later).0,
        drained(decoder, from, frame(payload) + later).1 == 4 + payload.len() + drained(
            decoder,
            from,
            later,
        ).1,
        drained(decoder, from, frame(payload) + later).2 == drained(decoder, from, later).2,
{
    lemma_frame_round_trip(payload, later, decoder.max_frame_len);
}

} // verus!
