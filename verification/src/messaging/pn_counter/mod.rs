//! The PN-counter operations: read the counter, add to it, and ask how
//! many replicas hold it.

pub mod pn_counter_add;
pub mod pn_counter_get;
pub mod pn_counter_get_replica_count;
