//! System monitoring data models.

use vstd::prelude::*;

verus! {

/// Disk I/O statistics.
#[derive(Debug, Clone, Copy, PartialEq, Eq, Structural)]
pub struct DiskStats {
    /// Bytes read per second.
    pub read_bytes_per_sec: u64,
    /// Bytes written per second.
    pub write_bytes_per_sec: u64,
    /// Total disk space in bytes.
    pub total_space: u64,
    /// Available disk space in bytes.
    pub available_space: u64,
}

impl DiskStats {
    /// Creates a new DiskStats with zero I/O and no space reported.
    pub fn zero() -> (stats: Self)
        ensures
            stats == (DiskStats {
                read_bytes_per_sec: 0,
                write_bytes_per_sec: 0,
                total_space: 0,
                available_space: 0,
            }),
    {
        DiskStats { read_bytes_per_sec: 0, write_bytes_per_sec: 0, total_space: 0, available_space: 0 }
    }
}

/// System information structure.
#[derive(Debug, Clone)]
pub struct SystemInfo {
    pub os_name: Option<String>,
    pub kernel_version: Option<String>,
    pub hostname: Option<String>,
    pub uptime: u64,
    pub process_count: usize,
}

} // verus!
