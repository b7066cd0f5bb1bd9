//! Peer-to-peer file transfer over TCP in fixed-size, independently
//! acknowledged blocks: wire encoding, block sets, the per-link handshake
//! state machine and the decisions of the sender and receiver engines.

pub mod codec;
pub mod file;
pub mod signal;
pub mod link;
pub mod transfer;
pub mod listener;
pub mod tester;
