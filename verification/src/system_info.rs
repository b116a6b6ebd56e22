//! Plain data about the host machine, shown by the debug overlay.
//!
//! The raw readings — CPU usage, GPU counters, byte totals — come from the
//! embedding program's hardware collaborators. This module holds the data
//! rows and the arithmetic that turns raw byte counts into the megabyte
//! and whole-percent figures the overlay displays.

use vstd::prelude::*;

verus! {

/// One processor's display row.
pub struct CPUInfo {
    pub name: String,
    pub usage: u32,
}

/// A used/total pair in megabytes, with the used share in whole percent.
pub struct MemoryInfo {
    pub used: u64,
    pub total: u64,
    pub percentage: u64,
}

/// One graphics device's display row.
pub struct GPUInfo {
    pub name: String,
    pub usage: u32,
    pub temperature: u32,
    pub memory: MemoryInfo,
}

/// The whole overlay snapshot.
pub struct SystemInfo {
    pub cpu: CPUInfo,
    pub gpu: GPUInfo,
    pub memory: MemoryInfo,
}

/// The used share of a total, in whole percent, rounded down. A reading
/// with `used` above `total` reports its share above one hundred
/// unchanged; a share beyond the integer range saturates.
pub open spec fn spec_percentage(used: u64, total: u64) -> int {
    if used * 100 / (total as int) > u64::MAX {
        u64::MAX as int
    } else {
        used * 100 / (total as int)
    }
}

impl MemoryInfo {
    /// Converts a collaborator's raw byte counts into megabytes and the
    /// used share in whole percent, rounded down.
    pub fn from_raw(used_bytes: u64, total_bytes: u64) -> (r: MemoryInfo)
        requires
            0 < total_bytes,
        ensures
            r.used == used_bytes / 1024 / 1024,
            r.total == total_bytes / 1024 / 1024,
            r.percentage == spec_percentage(used_bytes, total_bytes),
    {
        MemoryInfo {
            used: used_bytes / 1024 / 1024,
            total: total_bytes / 1024 / 1024,
            percentage: SystemInfo::calculate_memory_percentage(used_bytes, total_bytes),
        }
    }
}

impl SystemInfo {
    /// Assembles the snapshot from the three collaborator readings.
    pub fn get_system_info(cpu: CPUInfo, gpu: GPUInfo, memory: MemoryInfo) -> (r: SystemInfo)
        ensures
            r.cpu == cpu,
            r.gpu == gpu,
            r.memory == memory,
    {
        SystemInfo { cpu, gpu, memory }
    }

    /// The used share of the total, in whole percent, rounded down; never
    /// above one hundred as long as the used reading stays within the
    /// total.
    pub fn calculate_memory_percentage(used: u64, total: u64) -> (r: u64)
        requires
            0 < total,
        ensures
            r == spec_percentage(used, total),
            used <= total ==> r <= 100,
    {
        proof {
            assert(used <= total ==> used * 100 / (total as int) <= 100) by (nonlinear_arith)
                requires
                    0 < total,
            ;
        }
        let q = (used as u128) * 100 / (total as u128);
        if q > u64::MAX as u128 {
            u64::MAX
        } else {
            q as u64
        }
    }
}

} // verus!
