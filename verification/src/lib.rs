//! The decision logic of a Lightning node: which failed splices are retried and how, how wallet
//! changes reach the store without being lost, and how payment metadata is laid out in bytes.
//!
//! Nothing in here performs I/O. Where the node has to talk to a peer, the wallet or the store, a
//! function returns the action to perform and another one takes the outcome.

pub mod channel;
pub mod payment;
pub mod primitives;
pub mod wallet;
