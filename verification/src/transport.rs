//! The transport layer's data and decisions: addresses, messages, framing, the peer
//! registry, the life of one connection, and the dial schedule.

pub mod dial;
pub mod encoding;
pub mod handshake;
pub mod message;
pub mod peer;
pub mod queue;
pub mod registry;
pub mod tcp;
