//! Addresses and the record that the transport hands to its consumer.

use vstd::prelude::*;

verus! {

/// A socket address as plain integers: the IP address in host order and the port, for
/// IPv6 with flow information and scope identifier.
#[allow(inconsistent_fields)]
#[derive(Clone, Copy, Debug, PartialEq, Eq, Structural, Hash)]
pub enum PeerAddr {
    V4 { ip: u32, port: u16 },
    V6 { ip: u128, port: u16, flowinfo: u32, scope_id: u32 },
}

/// One message from a peer: the peer's address as the receiving socket saw it, and the
/// payload of one frame.
#[derive(Debug)]
pub struct Message {
    pub from: PeerAddr,
    pub payload: Vec<u8>,
}

/// What a message holds.
pub ghost struct MessageView {
    pub from: PeerAddr,
    pub payload: Seq<u8>,
}

impl View for Message {
    type V = MessageView;

    open spec fn view(&self) -> MessageView {
        MessageView { from: self.from, payload: self.payload@ }
    }
}

impl Message {
    /// A message from `from` with no payload yet.
    pub fn new(from: PeerAddr) -> (msg: Message)
        ensures
            msg.from == from,
            msg.payload@ == Seq::<u8>::empty(),
    {
        Message { from, payload: Vec::new() }
    }
}

} // verus!
