//! Offline queue: requests waiting for connectivity, ordered by priority.

pub mod persistent_queue;
