//! Where processes and system metrics come from.
use vstd::prelude::*;

use crate::error::PrexpError;
use crate::models::{ProcessDetail, ProcessSnapshot};
use crate::system::{CpuTicks, DiskCounters, MemoryInfo, NetworkCounters};

verus! {

/// Platform-agnostic source of processes and system metrics.
///
/// The operating-system backends implement it, and so do test doubles with
/// canned data. What a source returns depends on the system at the time of
/// the call, so the methods promise nothing; the callers in this library
/// state what they do with every answer.
pub trait ProcessSource {
    /// Snapshot all visible processes and their open file descriptors.
    fn snapshot_all(&self) -> Result<Vec<ProcessSnapshot>, PrexpError>;

    /// Snapshot a single process by PID.
    fn snapshot_pid(&self, pid: i32) -> Result<ProcessSnapshot, PrexpError>;

    /// Reverse lookup: find all processes that have the given path open.
    fn find_by_path(&self, path: &str) -> Result<Vec<ProcessSnapshot>, PrexpError>;

    /// Get per-CPU tick counts for all cores.
    fn cpu_ticks(&self) -> Result<Vec<CpuTicks>, PrexpError>;

    /// Get system memory information.
    fn memory_info(&self) -> Result<MemoryInfo, PrexpError>;

    /// Get cumulative system-wide network byte counters (rx/tx), summed across
    /// non-loopback interfaces. Diff two reads to get a rate.
    fn network_counters(&self) -> Result<NetworkCounters, PrexpError>;

    /// Get cumulative system-wide disk byte counters (read/written). Diff two
    /// reads to get a rate.
    fn disk_counters(&self) -> Result<DiskCounters, PrexpError>;

    /// Get detailed process information for the info panel.
    fn process_detail(&self, pid: i32, parent_name: &str) -> Result<ProcessDetail, PrexpError>;
}

} // verus!
