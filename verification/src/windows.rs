//! Statistics on Windows, from what `GetIfTable2`, `DeviceIoControl` with
//! `IOCTL_DISK_PERFORMANCE` and `GetDiskFreeSpaceExW` report.
//!
//! The caller reads the octet counters of each interface row, the
//! performance record of each physical drive and the disk space figures;
//! the functions here turn those readings into totals.
use crate::counters::{reads, saturating_sum, sum_counters, writes, IoCounters};
use crate::imp::{DiskInformation, DiskSpaceInformation, NetworkInformation};
use vstd::prelude::*;

verus! {

/// The operation counters of one physical drive (`ReadCount` and
/// `WriteCount` of `DISK_PERFORMANCE`).
#[derive(Debug, Clone, Copy, PartialEq, Eq)]
pub struct DiskPerformance {
    pub read_count: u32,
    pub write_count: u32,
}

/// The two figures of `GetDiskFreeSpaceExW`: the total number of free bytes
/// (`lpTotalNumberOfFreeBytes`) and the total bytes of the volume
/// (`lpTotalNumberOfBytes`).
#[derive(Debug, Clone, Copy, PartialEq, Eq)]
pub struct VolumeSpace {
    pub free_bytes: u64,
    pub total_bytes: u64,
}

/// The counters of each drive, widened to 64 bits.
pub open spec fn widened(drives: Seq<DiskPerformance>) -> Seq<IoCounters> {
    drives.map_values(|d: DiskPerformance| IoCounters { read: d.read_count as u64, write: d.write_count as u64 })
}

/// Network totals over all interface rows: `InOctets` and `OutOctets`,
/// added with saturation.
pub open spec fn network_of(rows: Seq<IoCounters>) -> NetworkInformation {
    NetworkInformation {
        read_bytes: saturating_sum(reads(rows)) as u64,
        write_bytes: saturating_sum(writes(rows)) as u64,
    }
}

/// Computes [`network_of`] for the rows that were read.
pub fn network_totals(rows: &[IoCounters]) -> (r: NetworkInformation)
    ensures
        r == network_of(rows@),
{
    let total = sum_counters(rows);
    NetworkInformation { read_bytes: total.read, write_bytes: total.write }
}

/// Disk operation totals over all physical drives: the 32-bit counts of each
/// drive, widened to 64 bits and added with saturation.
pub open spec fn disk_io_of(drives: Seq<DiskPerformance>) -> DiskInformation {
    DiskInformation {
        read_count: saturating_sum(reads(widened(drives))) as u64,
        write_count: saturating_sum(writes(widened(drives))) as u64,
    }
}

/// Computes [`disk_io_of`] for the drives that were read.
pub fn disk_io_totals(drives: &[DiskPerformance]) -> (r: DiskInformation)
    ensures
        r == disk_io_of(drives@),
{
    let mut counters: Vec<IoCounters> = Vec::new();
    let n = drives.len();
    let mut i: usize = 0;
    while i < n
        invariant
            n == drives@.len(),
            i <= n,
            counters@ == widened(drives@).take(i as int),
        decreases n - i,
    {
        counters.push(IoCounters { read: drives[i].read_count as u64, write: drives[i].write_count as u64 });
        i = i + 1;
        assert(counters@ =~= widened(drives@).take(i as int));
    }
    assert(counters@ =~= widened(drives@));
    let total = sum_counters(counters.as_slice());
    DiskInformation { read_count: total.read, write_count: total.write }
}

/// Disk space figures: the free and total bytes as reported.
pub open spec fn disk_space_of(readings: VolumeSpace) -> DiskSpaceInformation {
    DiskSpaceInformation { free_bytes: readings.free_bytes, total_bytes: readings.total_bytes }
}

/// Computes [`disk_space_of`] for the figures read.
pub fn disk_space_information(readings: &VolumeSpace) -> (r: DiskSpaceInformation)
    ensures
        r == disk_space_of(*readings),
{
    DiskSpaceInformation { free_bytes: readings.free_bytes, total_bytes: readings.total_bytes }
}

} // verus!
