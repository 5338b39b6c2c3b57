//! The fallback collector for unsupported platforms: every operation
//! reports that collection is impossible here.

use vstd::prelude::*;
use crate::error::{PwrzvError, PwrzvResult};

verus! {

/// Collector for platforms without a real implementation; every method
/// returns a calculation error.
#[derive(Debug, Clone, Copy, PartialEq, Eq, Structural)]
pub struct DefaultMetricsCollector;

impl DefaultMetricsCollector {
    /// Always fails: CPU statistics cannot be collected here.
    pub fn collect_cpu_stats(&self) -> (r: PwrzvResult<(i64, i64)>)
        ensures
            r matches Err(e) && e matches PwrzvError::CalculationError { .. },
    {
        Err(PwrzvError::calculation_error("CPU stats collection not supported on this platform"))
    }

    /// Always fails: memory statistics cannot be collected here.
    pub fn collect_memory_stats(&self) -> (r: PwrzvResult<(i64, i64)>)
        ensures
            r matches Err(e) && e matches PwrzvError::CalculationError { .. },
    {
        Err(PwrzvError::calculation_error("Memory stats collection not supported on this platform"))
    }

    /// Always fails: disk statistics cannot be collected here.
    pub fn collect_disk_stats(&self) -> (r: PwrzvResult<i64>)
        ensures
            r matches Err(e) && e matches PwrzvError::CalculationError { .. },
    {
        Err(PwrzvError::calculation_error("Disk stats collection not supported on this platform"))
    }

    /// Always fails: network statistics cannot be collected here.
    pub fn collect_network_stats(&self) -> (r: PwrzvResult<i64>)
        ensures
            r matches Err(e) && e matches PwrzvError::CalculationError { .. },
    {
        Err(PwrzvError::calculation_error("Network stats collection not supported on this platform"))
    }

    /// Always fails: file-descriptor statistics cannot be collected here.
    pub fn collect_fd_stats(&self) -> (r: PwrzvResult<i64>)
        ensures
            r matches Err(e) && e matches PwrzvError::CalculationError { .. },
    {
        Err(PwrzvError::calculation_error("FD stats collection not supported on this platform"))
    }
}

} // verus!
