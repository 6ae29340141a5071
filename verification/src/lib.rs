//! Latency monitoring for a tracked network endpoint: a bounded rolling
//! window of round-trip samples with running extrema and an error counter,
//! plus the pure lookup logic that resolves a process and its remote
//! TCP endpoint from snapshots of the OS process and socket tables.

pub mod history;
pub mod monitor;
pub mod resolver;
pub mod window;
