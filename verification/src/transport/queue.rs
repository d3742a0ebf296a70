//! The fan-in queue: every reader puts its messages in, one consumer takes them out.

use vstd::prelude::*;
use super::message::{Message, MessageView, PeerAddr};

verus! {

/// Messages in the order in which they were enqueued. Unbounded.
pub struct MessageQueue {
    items: Vec<Message>,
    closed: bool,
}

/// What the queue gives to its consumer within one wait.
#[derive(Debug)]
pub enum Consumed {
    /// A message.
    Message(Message),
    /// Nothing yet.
    Timeout,
    /// Nothing, and nothing will come: the queue is closed and drained.
    Closed,
}

impl View for MessageQueue {
    type V = Seq<MessageView>;

    closed spec fn view(&self) -> Seq<MessageView> {
        Seq::new(self.items@.len(), |i: int| self.items@[i]@)
    }
}

/// The payloads of the messages in `queue` that came from `addr`, oldest first.
pub open spec fn payloads_from(queue: Seq<MessageView>, addr: PeerAddr) -> Seq<Seq<u8>>
    decreases queue.len(),
{
    if queue.len() == 0 {
        Seq::empty()
    } else {
        let earlier = payloads_from(queue.drop_last(), addr);
        if queue.last().from == addr {
            earlier.push(queue.last().payload)
        } else {
            earlier
        }
    }
}

impl MessageQueue {
    /// Whether the transport has closed the queue.
    pub closed spec fn is_closed(&self) -> bool {
        self.closed
    }

    /// An empty, open queue.
    pub fn new() -> (queue: MessageQueue)
        ensures
            queue@ == Seq::<MessageView>::empty(),
            !queue.is_closed(),
    {
        let queue = MessageQueue { items: Vec::new(), closed: false };
        assert(queue@ =~= Seq::<MessageView>::empty());
        queue
    }

    /// The number of messages that wait.
    pub fn len(&self) -> (n: usize)
        ensures
            n == self@.len(),
    {
        self.items.len()
    }

    /// Puts `msg` behind every message that waits.
    pub fn enqueue(&mut self, msg: Message)
        ensures
            final(self)@ == old(self)@.push(msg@),
            final(self).is_closed() == old(self).is_closed(),
    {
        self.items.push(msg);
        assert(self@ =~= old(self)@.push(msg@));
    }

    /// Takes the message that has waited longest, if one waits.
    pub fn dequeue(&mut self) -> (msg: Option<Message>)
        ensures
            match msg {
                Some(m) => {
                    &&& old(self)@.len() > 0
                    &&& m@ == old(self)@[0]
                    &&& final(self)@ == old(self)@.drop_first()
                },
                None => old(self)@.len() == 0 && final(self)@ == old(self)@,
            },
            final(self).is_closed() == old(self).is_closed(),
    {
        if self.items.len() == 0 {
            return None;
        }
        let m = self.items.remove(0);
        assert(self@ =~= old(self)@.drop_first());
        Some(m)
    }

    /// Closes the queue: the messages that wait can still be taken, then it reports
    /// `Closed`. Closing again changes nothing.
    pub fn close(&mut self)
        ensures
            final(self).is_closed(),
            final(self)@ == old(self)@,
    {
        self.closed = true;
    }

    /// One receive: the oldest message if one waits; else `Closed` once the queue is
    /// closed, and `Timeout` while it is open.
    pub fn consume(&mut self) -> (got: Consumed)
        ensures
            final(self).is_closed() == old(self).is_closed(),
            match got {
                Consumed::Message(m) => {
                    &&& old(self)@.len() > 0
                    &&& m@ == old(self)@[0]
                    &&& final(self)@ == old(self)@.drop_first()
                },
                Consumed::Timeout => {
                    &&& old(self)@.len() == 0
                    &&& !old(self).is_closed()
                    &&& final(self)@ == old(self)@
                },
                Consumed::Closed => {
                    &&& old(self)@.len() == 0
                    &&& old(self).is_closed()
                    &&& final(self)@ == old(self)@
                },
            },
    {
        match self.dequeue() {
            Some(m) => Consumed::Message(m),
            None => if self.closed {
                Consumed::Closed
            } else {
                Consumed::Timeout
            },
        }
    }
}

/// A message that is enqueued stands behind every earlier message of its peer, and
/// leaves the messages of the other peers as they were.
pub proof fn lemma_enqueue_keeps_order(queue: Seq<MessageView>, msg: MessageView, addr: PeerAddr)
    ensures
        payloads_from(queue.push(msg), addr) == if msg.from == addr {
            payloads_from(queue, addr).push(msg.payload)
        } else {
            payloads_from(queue, addr)
        },
{
    assert(queue.push(msg).drop_last() =~= queue);
}

/// The message that is dequeued is the oldest of its peer: the consumer gets each peer's
/// messages in the order in which that peer's reader enqueued them.
pub proof fn lemma_dequeue_keeps_order(queue: Seq<MessageView>, addr: PeerAddr)
    requires
        queue.len() > 0,
    ensures
        queue[0].from == addr ==> payloads_from(queue, addr).len() > 0 && payloads_from(
            queue,
            addr,
        )[0] == queue[0].payload && payloads_from(queue.drop_first(), addr) == payloads_from(
            queue,
            addr,
        ).drop_first(),
        queue[0].from != addr ==> payloads_from(queue.drop_first(), addr) == payloads_from(
            queue,
            addr,
        ),
    decreases queue.len(),
{
    if queue.len() == 1 {
        assert(queue.drop_first() =~= Seq::<MessageView>::empty());
        assert(queue.drop_last() =~= Seq::<MessageView>::empty());
        assert(payloads_from(queue.drop_last(), addr) =~= Seq::<Seq<u8>>::empty());
        if queue[0].from == addr {
            assert(payloads_from(queue, addr) =~= seq![queue[0].payload]);
            assert(payloads_from(queue, addr).drop_first() =~= Seq::<Seq<u8>>::empty());
        }
    } else {
        let shorter = queue.drop_last();
        lemma_dequeue_keeps_order(shorter, addr);
        assert(queue.drop_first().drop_last() =~= shorter.drop_first());
        assert(queue.drop_first().last() == queue.last());
        assert(shorter[0] == queue[0]);
        if queue[0].from == addr {
            let earlier = payloads_from(shorter, addr);
            if queue.last().from == addr {
                assert(earlier.push(queue.last().payload).drop_first() =~= earlier.drop_first().push(
                    queue.last().payload,
                ));
            }
        }
    }
}

} // verus!
