//! Statistics on FreeBSD, from what `devstat_getdevs`, the interface MIB
//! and `sysctlbyname` report.
//!
//! The caller reads the operation counters of each device, the byte
//! counters of each interface and the memory sysctls; the functions here
//! turn those readings into totals.
use crate::counters::{reads, sat_mul_u64, saturating_sum, sum_counters, writes, IoCounters};
use crate::imp::{DiskInformation, MemoryInformation, NetworkInformation};
use vstd::prelude::*;

verus! {

/// What the memory figures are computed from: `hw.realmem`,
/// `vm.stats.vm.v_page_size`, `vm.stats.vm.v_free_count` and
/// `vm.stats.vm.v_active_count`.
#[derive(Debug, Clone, Copy, PartialEq, Eq)]
pub struct FreeBsdMemoryReadings {
    pub real_memory: u64,
    pub page_size: u64,
    pub free_pages: u64,
    pub active_pages: u64,
}

/// `a - b`, held at zero when it would go below.
pub open spec fn sat_sub_u64(a: int, b: int) -> int {
    if a - b < 0 {
        0
    } else {
        a - b
    }
}

/// Disk operation totals over all devices: the read and write operation
/// counts of each device, added with saturation.
pub open spec fn disk_io_of(devices: Seq<IoCounters>) -> DiskInformation {
    DiskInformation {
        read_count: saturating_sum(reads(devices)) as u64,
        write_count: saturating_sum(writes(devices)) as u64,
    }
}

/// Computes [`disk_io_of`] for the devices that were read.
pub fn disk_io_totals(devices: &[IoCounters]) -> (r: DiskInformation)
    ensures
        r == disk_io_of(devices@),
{
    let total = sum_counters(devices);
    DiskInformation { read_count: total.read, write_count: total.write }
}

/// Network totals over all interfaces: the received and sent bytes of each
/// interface, added with saturation.
pub open spec fn network_of(interfaces: Seq<IoCounters>) -> NetworkInformation {
    NetworkInformation {
        read_bytes: saturating_sum(reads(interfaces)) as u64,
        write_bytes: saturating_sum(writes(interfaces)) as u64,
    }
}

/// Computes [`network_of`] for the interfaces that were read.
pub fn network_totals(interfaces: &[IoCounters]) -> (r: NetworkInformation)
    ensures
        r == network_of(interfaces@),
{
    let total = sum_counters(interfaces);
    NetworkInformation { read_bytes: total.read, write_bytes: total.write }
}

/// Memory figures: the total is the real memory; the active amount is the
/// active pages times the page size, and the used amount is the total less
/// the free pages times the page size, each step saturating.
pub open spec fn memory_of(readings: FreeBsdMemoryReadings) -> MemoryInformation {
    MemoryInformation {
        total_count: readings.real_memory,
        active_count: sat_mul_u64(readings.active_pages as int, readings.page_size as int) as u64,
        used_count: sat_sub_u64(
            readings.real_memory as int,
            sat_mul_u64(readings.free_pages as int, readings.page_size as int),
        ) as u64,
    }
}

/// Computes [`memory_of`] for the readings taken.
pub fn memory_information(readings: &FreeBsdMemoryReadings) -> (r: MemoryInformation)
    ensures
        r == memory_of(*readings),
{
    let free_memory = readings.free_pages.saturating_mul(readings.page_size);
    let active_memory = readings.active_pages.saturating_mul(readings.page_size);
    let used_memory = readings.real_memory.saturating_sub(free_memory);
    MemoryInformation {
        used_count: used_memory,
        active_count: active_memory,
        total_count: readings.real_memory,
    }
}

/// The memory in use never exceeds the total memory.
pub proof fn lemma_used_within_total(readings: FreeBsdMemoryReadings)
    ensures
        memory_of(readings).used_count <= memory_of(readings).total_count,
{
}

/// The memory in use and the free memory make up the real memory: when the
/// free pages times the page size do not exceed the real memory, the used
/// amount is the real memory less exactly that; the active amount is the
/// active pages times the page size whenever that fits in 64 bits.
pub proof fn lemma_memory_figures(readings: FreeBsdMemoryReadings)
    ensures
        readings.free_pages * readings.page_size <= readings.real_memory ==> memory_of(
            readings,
        ).used_count + readings.free_pages * readings.page_size == readings.real_memory,
        readings.free_pages * readings.page_size > readings.real_memory ==> memory_of(
            readings,
        ).used_count == 0,
        readings.active_pages * readings.page_size <= u64::MAX ==> memory_of(readings).active_count
            == readings.active_pages * readings.page_size,
        memory_of(readings).total_count == readings.real_memory,
{
    let f = readings.free_pages as int;
    let a = readings.active_pages as int;
    let p = readings.page_size as int;
    assert(f * p >= 0 && a * p >= 0) by (nonlinear_arith)
        requires
            f >= 0,
            a >= 0,
            p >= 0,
    ;
}

} // verus!
