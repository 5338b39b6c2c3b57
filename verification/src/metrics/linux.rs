//! The Linux collector for the percentage-based record.
//!
//! Its readers are the shared `/proc` text readers of the parent module;
//! this type names them per platform and leaves reading the files at the
//! caller's side.

use vstd::prelude::*;
use crate::error::PwrzvResult;
use crate::metrics::{
    read_cpu_stats, read_disk_stats, read_fd_stats, read_memory_stats, read_network_stats,
    spec_read_cpu_stats, spec_read_disk_stats, spec_read_fd_stats, spec_read_memory_stats,
    spec_read_network_stats,
};

verus! {

/// Linux collector over `/proc` text.
#[derive(Debug, Clone, Copy, PartialEq, Eq, Structural)]
pub struct LinuxMetricsCollector;

impl LinuxMetricsCollector {
    /// CPU percentages from `/proc/stat` text.
    pub fn cpu_stats_from_text(&self, content: &str) -> (r: PwrzvResult<(i64, i64)>)
        ensures
            r matches Ok(v) ==> spec_read_cpu_stats(content@) == Some(v),
            r is Err <==> spec_read_cpu_stats(content@) is None,
    {
        read_cpu_stats(content)
    }

    /// Memory percentages from `/proc/meminfo` text.
    pub fn memory_stats_from_text(&self, content: &str) -> (r: PwrzvResult<(i64, i64)>)
        ensures
            r matches Ok(v) && v == spec_read_memory_stats(content@),
    {
        read_memory_stats(content)
    }

    /// The disk percentage from `/proc/diskstats` text.
    pub fn disk_stats_from_text(&self, content: &str) -> (r: PwrzvResult<i64>)
        ensures
            r matches Ok(v) && v == spec_read_disk_stats(content@),
    {
        read_disk_stats(content)
    }

    /// The network percentage from `/proc/net/dev` text.
    pub fn network_stats_from_text(&self, content: &str) -> (r: PwrzvResult<i64>)
        ensures
            r matches Ok(v) && v == spec_read_network_stats(content@),
    {
        read_network_stats(content)
    }

    /// The file-descriptor percentage from `/proc/sys/fs/file-nr` text.
    pub fn fd_stats_from_text(&self, content: &str) -> (r: PwrzvResult<i64>)
        ensures
            r matches Ok(v) ==> spec_read_fd_stats(content@) == Some(v),
            r is Err <==> spec_read_fd_stats(content@) is None,
    {
        read_fd_stats(content)
    }
}

} // verus!
