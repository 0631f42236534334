//! Bounded time-series history and rate derivation for a system monitor.
//!
//! The crate keeps one fixed-capacity history per metric stream (CPU core,
//! memory, disk, network interface), derives per-tick deltas from cumulative
//! byte counters, and orders process snapshots by CPU usage. Collecting the
//! raw readings from the operating system is left to the caller, which hands
//! one `Reading` per tick to the aggregator.

pub mod aggregator;
pub mod history;
pub mod process;
pub mod rate;
