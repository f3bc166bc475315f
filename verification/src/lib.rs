//! Verified core of a per-node job monitor: a registry of active jobs fed by
//! a line-oriented message protocol, combining heartbeat-timeout detection
//! with sliding-window utilization thresholds to decide when a job must be
//! evicted.
//!
//! Utilization samples are carried as fixed-point integers in hundredths of a
//! percent (`8000` means `80.00%`), so the threshold policy is exact: a
//! window's mean is strictly below a threshold iff `sum < threshold * len`.

pub mod bytes;
pub mod counts;
pub mod job;
pub mod laws;
pub mod protocol;
pub mod registry;
pub mod window;

use vstd::prelude::*;

verus! {

/// Heartbeat timeout in seconds: a job whose last heartbeat is strictly
/// older than this at sweep time is removed.
pub const HEARTBEAT_TIMEOUT_SECS: u64 = 180;

/// Number of initial Metrics messages per job that are counted but never
/// pushed into any window, tolerating startup ramp-up.
pub const BUFFER_PERIOD: u64 = 30;

/// Eviction threshold for mean GPU utilization, hundredths of a percent.
pub const GPU_UTILIZATION_THRESHOLD: u64 = 7000;

/// Eviction threshold for mean GPU memory utilization, hundredths of a percent.
pub const GPU_MEMORY_UTILIZATION_THRESHOLD: u64 = 3000;

/// Eviction threshold for mean CPU utilization, hundredths of a percent.
pub const CPU_UTILIZATION_THRESHOLD: u64 = 5000;

} // verus!
