//! Configuration of the periodic rule refresh.
use vstd::prelude::*;
use std::time::Duration;
use crate::duration::{duration_from_secs, duration_of_secs};

verus! {

/// Seconds between two refreshes unless configured otherwise: six hours.
pub const DEFAULT_REFRESH_SECS: u64 = 21600;

/// Configuration of the scheduled refresh.
#[derive(Debug, Clone, Copy)]
pub struct SchedulerConfig {
    /// Interval between refreshes
    pub refresh_interval: Duration,
    /// Whether the scheduler runs
    pub enabled: bool,
}

impl Default for SchedulerConfig {
    /// Enabled, refreshing every six hours.
    fn default() -> (r: Self)
        ensures
            r.enabled,
            r.refresh_interval == duration_of_secs(DEFAULT_REFRESH_SECS),
    {
        SchedulerConfig { refresh_interval: duration_from_secs(DEFAULT_REFRESH_SECS), enabled: true }
    }
}

} // verus!
