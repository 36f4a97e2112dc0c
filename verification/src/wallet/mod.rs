//! Getting the changes of the on-chain wallet into the node's store without losing any.

pub mod bdk;
pub mod change_set;
pub mod laws;
pub mod persist;
