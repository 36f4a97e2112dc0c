//! Retrying user-initiated splices that fail for recoverable reasons while the node runs.

pub mod contribution;
pub mod error;
pub mod failure;
pub mod laws;
pub mod pending;
pub mod rebuild;
pub mod registry;
pub mod retrier;
