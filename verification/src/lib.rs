//! Decision core of a peer-to-peer, content-addressed file distribution node.
//!
//! Everything here works on plain values: keys, paths, byte sequences and addresses.
//! A driver owns the sockets, the threads and the disk, and asks this crate what to do.

pub mod hashlib;
pub mod server;
pub mod store;
pub mod stream;
pub mod transport;
pub mod wire;
