//! Statistics on macOS, from what IOKit, the Mach host statistics and
//! `sysctl` report.
//!
//! The caller walks the block storage drivers, reads `host_statistics64`,
//! `hw.pagesize`, `hw.memsize` and the `NET_RT_IFLIST2` interface list; the
//! functions here turn those readings into totals.
use crate::bytes::{le16, le32, le64, read_le16, read_le64};
use crate::counters::{
    lemma_saturating_sum_i64_is_capped_exact_sum, sat_add_i64, sat_add_u64, sat_mul_u64,
    saturating_sum, saturating_sum_i64, exact_sum_i64,
};
use crate::imp::{DiskInformation, MemoryInformation, NetworkInformation, SlaccStatsError};
use vstd::prelude::*;

verus! {

/// Message type of an interface record with 64-bit counters (`RTM_IFINFO2`).
pub const RTM_IFINFO2: u8 = 0x12;

/// Offset of `ifi_ibytes` in `struct if_msghdr2`: the header of 32 bytes,
/// then `ifi_ibytes` at offset 64 of the packed `struct if_data64`.
pub const IFINFO2_IBYTES_OFFSET: usize = 96;

/// Offset of `ifi_obytes` in `struct if_msghdr2`.
pub const IFINFO2_OBYTES_OFFSET: usize = 104;

/// How many bytes of an `RTM_IFINFO2` record are read: up to the end of
/// `ifi_obytes`.
pub const IFINFO2_READ_LEN: usize = 112;

/// The operation counters of one block storage driver, as its
/// `Statistics` dictionary reports them ("Operations (Read)" and
/// "Operations (Write)").
#[derive(Debug, Clone, Copy, PartialEq, Eq)]
pub struct DeviceOperations {
    pub read_count: i64,
    pub write_count: i64,
}

/// The page counts of `host_statistics64` that the memory figures use.
#[derive(Debug, Clone, Copy, PartialEq, Eq)]
pub struct VmStatistics {
    pub active_count: u32,
    pub wire_count: u32,
    pub speculative_count: u32,
    pub compressor_page_count: u32,
}

/// What the memory figures are computed from: the page counts, the page
/// size (`hw.pagesize`) and the size of the physical memory (`hw.memsize`).
#[derive(Debug, Clone, Copy, PartialEq, Eq)]
pub struct MacMemoryReadings {
    pub vm: VmStatistics,
    pub page_size: u64,
    pub memory_size: u64,
}

/// The read operation counts of each device.
pub open spec fn device_reads(s: Seq<DeviceOperations>) -> Seq<i64> {
    s.map_values(|d: DeviceOperations| d.read_count)
}

/// The write operation counts of each device.
pub open spec fn device_writes(s: Seq<DeviceOperations>) -> Seq<i64> {
    s.map_values(|d: DeviceOperations| d.write_count)
}

/// The `u64` that an `i64` value becomes when it is reinterpreted as
/// unsigned.
pub open spec fn as_unsigned(v: int) -> int {
    if v >= 0 {
        v
    } else {
        v + 0x1_0000_0000_0000_0000
    }
}

/// The `u64` with the same bits as `v`.
pub fn reinterpret_unsigned(v: i64) -> (r: u64)
    ensures
        r == as_unsigned(v as int),
{
    if v >= 0 {
        v as u64
    } else {
        let below: i64 = -(v + 1);
        u64::MAX - (below as u64)
    }
}

/// `a + b`, held at `u32::MAX` when it would go beyond.
pub open spec fn sat_add_u32(a: int, b: int) -> int {
    if a + b > u32::MAX {
        u32::MAX as int
    } else {
        a + b
    }
}

/// The pages in use: active, wired, speculative and compressor pages, added
/// with saturation in 32 bits.
pub open spec fn used_pages(vm: VmStatistics) -> int {
    sat_add_u32(
        sat_add_u32(sat_add_u32(vm.active_count as int, vm.wire_count as int), vm.speculative_count as int),
        vm.compressor_page_count as int,
    )
}

/// Disk operation totals over all block storage drivers: the counts are
/// added with saturation in `i64`, then reinterpreted as unsigned.
pub open spec fn disk_io_of(devices: Seq<DeviceOperations>) -> DiskInformation {
    DiskInformation {
        read_count: as_unsigned(saturating_sum_i64(device_reads(devices))) as u64,
        write_count: as_unsigned(saturating_sum_i64(device_writes(devices))) as u64,
    }
}

/// Computes [`disk_io_of`] for the devices that were read.
pub fn disk_io_totals(devices: &[DeviceOperations]) -> (r: DiskInformation)
    ensures
        r == disk_io_of(devices@),
{
    let mut read: i64 = 0;
    let mut write: i64 = 0;
    let n = devices.len();
    let mut i: usize = 0;
    while i < n
        invariant
            n == devices@.len(),
            i <= n,
            read == saturating_sum_i64(device_reads(devices@).take(i as int)),
            write == saturating_sum_i64(device_writes(devices@).take(i as int)),
        decreases n - i,
    {
        assert(device_reads(devices@).take(i + 1).drop_last() =~= device_reads(devices@).take(
            i as int,
        ));
        assert(device_writes(devices@).take(i + 1).drop_last() =~= device_writes(devices@).take(
            i as int,
        ));
        read = read.saturating_add(devices[i].read_count);
        write = write.saturating_add(devices[i].write_count);
        i = i + 1;
    }
    assert(device_reads(devices@).take(n as int) =~= device_reads(devices@));
    assert(device_writes(devices@).take(n as int) =~= device_writes(devices@));
    let read_count = reinterpret_unsigned(read);
    let write_count = reinterpret_unsigned(write);
    DiskInformation { read_count, write_count }
}

/// When no device reports a negative count, each disk total is the exact
/// total of the device counts, held at `i64::MAX`.
pub proof fn lemma_disk_io_totals_capped(devices: Seq<DeviceOperations>)
    requires
        forall|i: int|
            0 <= i < devices.len() ==> #[trigger] devices[i].read_count >= 0
                && devices[i].write_count >= 0,
    ensures
        disk_io_of(devices).read_count == (if exact_sum_i64(device_reads(devices)) > i64::MAX {
            i64::MAX as int
        } else {
            exact_sum_i64(device_reads(devices))
        }),
        disk_io_of(devices).write_count == (if exact_sum_i64(device_writes(devices))
            > i64::MAX {
            i64::MAX as int
        } else {
            exact_sum_i64(device_writes(devices))
        }),
{
    assert forall|i: int| 0 <= i < devices.len() implies device_reads(devices)[i] >= 0
        && device_writes(devices)[i] >= 0 by {
        assert(devices[i].read_count >= 0);
    }
    lemma_saturating_sum_i64_is_capped_exact_sum(device_reads(devices));
    lemma_saturating_sum_i64_is_capped_exact_sum(device_writes(devices));
}

/// Memory figures: the total is the physical memory size; the used and
/// active amounts are page counts times the page size, held at
/// `u64::MAX`.
pub open spec fn memory_of(readings: MacMemoryReadings) -> MemoryInformation {
    MemoryInformation {
        total_count: readings.memory_size,
        used_count: sat_mul_u64(used_pages(readings.vm), readings.page_size as int) as u64,
        active_count: sat_mul_u64(readings.vm.active_count as int, readings.page_size as int) as u64,
    }
}

/// Computes [`memory_of`] for the readings taken.
pub fn memory_information(readings: &MacMemoryReadings) -> (r: MemoryInformation)
    ensures
        r == memory_of(*readings),
{
    let vm = readings.vm;
    let used = vm.active_count.saturating_add(vm.wire_count).saturating_add(
        vm.speculative_count,
    ).saturating_add(vm.compressor_page_count);
    MemoryInformation {
        total_count: readings.memory_size,
        used_count: (used as u64).saturating_mul(readings.page_size),
        active_count: (vm.active_count as u64).saturating_mul(readings.page_size),
    }
}

/// The active memory never exceeds the memory in use: active pages are
/// counted among the pages in use, and both are scaled by the same page
/// size.
pub proof fn lemma_active_within_used(readings: MacMemoryReadings)
    ensures
        memory_of(readings).active_count <= memory_of(readings).used_count,
{
    let a = readings.vm.active_count as int;
    let u = used_pages(readings.vm);
    let p = readings.page_size as int;
    assert(a <= u);
    assert(a * p <= u * p) by (nonlinear_arith)
        requires
            0 <= a <= u,
            p >= 0,
    ;
}

/// Walks the interface records of an `NET_RT_IFLIST2` buffer from offset
/// `off`, adding the received and sent bytes of every `RTM_IFINFO2` record
/// to `rx` and `tx` with saturation.
///
/// Each record starts with its length (16 bits) and has its type at byte 3.
/// The walk ends at the end of the buffer; a record header that runs past
/// the end, a record of length zero, or an `RTM_IFINFO2` record whose
/// counters run past the end makes the buffer malformed (`None`).
pub open spec fn iflist_walk(b: Seq<u8>, off: int, rx: u64, tx: u64) -> Option<(u64, u64)>
    decreases (if off > b.len() { 0 } else { b.len() - off + 1 }),
{
    if off < 0 || off >= b.len() {
        Some((rx, tx))
    } else if off + 4 > b.len() {
        None
    } else {
        let msglen = le16(b, off);
        if msglen == 0 {
            None
        } else if b[off + 3] == RTM_IFINFO2 {
            if off + IFINFO2_READ_LEN > b.len() {
                None
            } else {
                iflist_walk(
                    b,
                    off + msglen,
                    sat_add_u64(rx as int, le64(b, off + IFINFO2_IBYTES_OFFSET)) as u64,
                    sat_add_u64(tx as int, le64(b, off + IFINFO2_OBYTES_OFFSET)) as u64,
                )
            }
        } else {
            iflist_walk(b, off + msglen, rx, tx)
        }
    }
}

/// The `ifi_ibytes` and `ifi_obytes` counters of the `RTM_IFINFO2` records
/// of an `NET_RT_IFLIST2` buffer from offset `off`, in order, or `None` when
/// the buffer is malformed (as [`iflist_walk`] reads it).
pub open spec fn iflist_records(b: Seq<u8>, off: int) -> Option<Seq<(u64, u64)>>
    decreases (if off > b.len() { 0 } else { b.len() - off + 1 }),
{
    if off < 0 || off >= b.len() {
        Some(Seq::empty())
    } else if off + 4 > b.len() {
        None
    } else {
        let msglen = le16(b, off);
        if msglen == 0 {
            None
        } else if b[off + 3] == RTM_IFINFO2 {
            if off + IFINFO2_READ_LEN > b.len() {
                None
            } else {
                match iflist_records(b, off + msglen) {
                    Some(rest) => Some(
                        seq![
                            (
                                le64(b, off + IFINFO2_IBYTES_OFFSET) as u64,
                                le64(b, off + IFINFO2_OBYTES_OFFSET) as u64,
                            ),
                        ] + rest,
                    ),
                    None => None,
                }
            }
        } else {
            iflist_records(b, off + msglen)
        }
    }
}

/// The first counter of each record.
pub open spec fn record_firsts(s: Seq<(u64, u64)>) -> Seq<u64> {
    s.map_values(|p: (u64, u64)| p.0)
}

/// The second counter of each record.
pub open spec fn record_seconds(s: Seq<(u64, u64)>) -> Seq<u64> {
    s.map_values(|p: (u64, u64)| p.1)
}

/// `acc` with the values of `s` added one after the other from the front,
/// each addition held at `u64::MAX`.
pub open spec fn sat_fold(acc: int, s: Seq<u64>) -> int
    decreases s.len(),
{
    if s.len() == 0 {
        acc
    } else {
        sat_fold(sat_add_u64(acc, s[0] as int), s.drop_first())
    }
}

/// Folding from the saturating total of `p` over `s` gives the saturating
/// total of `p + s`.
pub proof fn lemma_sat_fold_extends(p: Seq<u64>, s: Seq<u64>)
    ensures
        sat_fold(saturating_sum(p), s) == saturating_sum(p + s),
    decreases s.len(),
{
    if s.len() == 0 {
        assert(p + s =~= p);
    } else {
        let q = p.push(s[0]);
        assert(q.drop_last() =~= p);
        assert(q + s.drop_first() =~= p + s);
        lemma_sat_fold_extends(q, s.drop_first());
    }
}

/// The walk of an interface list adds the counters of its records, from
/// the totals it starts with.
pub proof fn lemma_iflist_walk_folds(b: Seq<u8>, off: int, rx: u64, tx: u64)
    ensures
        iflist_walk(b, off, rx, tx) == (match iflist_records(b, off) {
            Some(r) => Some(
                (
                    sat_fold(rx as int, record_firsts(r)) as u64,
                    sat_fold(tx as int, record_seconds(r)) as u64,
                ),
            ),
            None => None,
        }),
    decreases (if off > b.len() { 0 } else { b.len() - off + 1 }),
{
    if 0 <= off < b.len() && off + 4 <= b.len() {
        let msglen = le16(b, off);
        if msglen != 0 {
            if b[off + 3] == RTM_IFINFO2 {
                if off + IFINFO2_READ_LEN <= b.len() {
                    let ib = le64(b, off + IFINFO2_IBYTES_OFFSET);
                    let ob = le64(b, off + IFINFO2_OBYTES_OFFSET);
                    let rx2 = sat_add_u64(rx as int, ib) as u64;
                    let tx2 = sat_add_u64(tx as int, ob) as u64;
                    lemma_iflist_walk_folds(b, off + msglen, rx2, tx2);
                    match iflist_records(b, off + msglen) {
                        Some(rest) => {
                            let r = seq![(ib as u64, ob as u64)] + rest;
                            assert(record_firsts(r).drop_first() =~= record_firsts(rest));
                            assert(record_seconds(r).drop_first() =~= record_seconds(rest));
                            assert(record_firsts(r)[0] == ib as u64);
                            assert(record_seconds(r)[0] == ob as u64);
                        },
                        None => {},
                    }
                }
            } else {
                lemma_iflist_walk_folds(b, off + msglen, rx, tx);
            }
        }
    }
}

/// The network totals of an interface list are the saturating totals of
/// `ifi_ibytes` and `ifi_obytes` over its `RTM_IFINFO2` records, and it
/// fails exactly when the list is malformed.
pub proof fn lemma_network_of_sums_records(b: Seq<u8>)
    ensures
        network_of(b) == (match iflist_records(b, 0) {
            Some(r) => Ok::<NetworkInformation, SlaccStatsError>(
                NetworkInformation {
                    read_bytes: saturating_sum(record_firsts(r)) as u64,
                    write_bytes: saturating_sum(record_seconds(r)) as u64,
                },
            ),
            None => Err(SlaccStatsError::NetlinkFailed),
        }),
{
    lemma_iflist_walk_folds(b, 0, 0, 0);
    match iflist_records(b, 0) {
        Some(r) => {
            assert(saturating_sum(Seq::<u64>::empty()) == 0);
            lemma_sat_fold_extends(Seq::empty(), record_firsts(r));
            lemma_sat_fold_extends(Seq::empty(), record_seconds(r));
            assert(Seq::<u64>::empty() + record_firsts(r) =~= record_firsts(r));
            assert(Seq::<u64>::empty() + record_seconds(r) =~= record_seconds(r));
        },
        None => {},
    }
}

/// A list of two `RTM_IFINFO2` records placed one after the other, each of
/// whatever length its own header gives (at least the 112 bytes up to the
/// end of `ifi_obytes`), totals the `ifi_ibytes` and `ifi_obytes` of both
/// records, added with saturation.
pub proof fn lemma_two_records_total(b: Seq<u8>, m1: int, m2: int)
    requires
        112 <= m1,
        112 <= m2,
        b.len() == m1 + m2,
        le16(b, 0) == m1,
        b[3] == RTM_IFINFO2,
        le16(b, m1) == m2,
        b[m1 + 3] == RTM_IFINFO2,
    ensures
        network_of(b) == Ok::<NetworkInformation, SlaccStatsError>(
            NetworkInformation {
                read_bytes: sat_add_u64(le64(b, 96), le64(b, m1 + 96)) as u64,
                write_bytes: sat_add_u64(le64(b, 104), le64(b, m1 + 104)) as u64,
            },
        ),
{
    lemma_le64_bounds(b, 96);
    lemma_le64_bounds(b, 104);
    lemma_le64_bounds(b, m1 + 96);
    lemma_le64_bounds(b, m1 + 104);
    let rx1 = sat_add_u64(0, le64(b, 96)) as u64;
    let tx1 = sat_add_u64(0, le64(b, 104)) as u64;
    assert(rx1 == le64(b, 96));
    assert(tx1 == le64(b, 104));
    assert(iflist_walk(b, m1 + m2, sat_add_u64(rx1 as int, le64(b, m1 + 96)) as u64, sat_add_u64(
        tx1 as int,
        le64(b, m1 + 104),
    ) as u64) == Some(
        (
            sat_add_u64(rx1 as int, le64(b, m1 + 96)) as u64,
            sat_add_u64(tx1 as int, le64(b, m1 + 104)) as u64,
        ),
    ));
    assert(iflist_walk(b, m1, rx1, tx1) == iflist_walk(
        b,
        m1 + m2,
        sat_add_u64(rx1 as int, le64(b, m1 + 96)) as u64,
        sat_add_u64(tx1 as int, le64(b, m1 + 104)) as u64,
    ));
    assert(iflist_walk(b, 0, 0, 0) == iflist_walk(b, m1, rx1, tx1));
}

/// A little-endian 64-bit value read from bytes lies in the range of `u64`.
pub proof fn lemma_le64_bounds(b: Seq<u8>, i: int)
    requires
        0 <= i,
        i + 8 <= b.len(),
    ensures
        0 <= le64(b, i) <= u64::MAX,
{
    let x0 = b[i] as int;
    let x1 = b[i + 1] as int;
    let x2 = b[i + 2] as int;
    let x3 = b[i + 3] as int;
    let x4 = b[i + 4] as int;
    let x5 = b[i + 5] as int;
    let x6 = b[i + 6] as int;
    let x7 = b[i + 7] as int;
    assert(0 <= x0 + 256 * (x1 + 256 * (x2 + 256 * x3)) <= 4294967295) by (nonlinear_arith)
        requires
            0 <= x0 <= 255,
            0 <= x1 <= 255,
            0 <= x2 <= 255,
            0 <= x3 <= 255,
    ;
    assert(0 <= x4 + 256 * (x5 + 256 * (x6 + 256 * x7)) <= 4294967295) by (nonlinear_arith)
        requires
            0 <= x4 <= 255,
            0 <= x5 <= 255,
            0 <= x6 <= 255,
            0 <= x7 <= 255,
    ;
    let lo = le32(b, i);
    let hi = le32(b, i + 4);
    assert(0 <= lo + 4294967296 * hi <= u64::MAX) by (nonlinear_arith)
        requires
            0 <= lo <= 4294967295,
            0 <= hi <= 4294967295,
    ;
}

/// Received and sent byte totals over all interfaces of an `NET_RT_IFLIST2`
/// buffer, or `NetlinkFailed` when the buffer is malformed.
pub open spec fn network_of(buffer: Seq<u8>) -> Result<NetworkInformation, SlaccStatsError> {
    match iflist_walk(buffer, 0, 0, 0) {
        Some(t) => Ok(NetworkInformation { read_bytes: t.0, write_bytes: t.1 }),
        None => Err(SlaccStatsError::NetlinkFailed),
    }
}

/// Computes [`network_of`] for the interface list that was read.
pub fn interface_list_totals(buffer: &[u8]) -> (r: Result<NetworkInformation, SlaccStatsError>)
    ensures
        r == network_of(buffer@),
{
    let ghost b = buffer@;
    let total = buffer.len();
    let mut off: usize = 0;
    let mut rx: u64 = 0;
    let mut tx: u64 = 0;
    while off < total
        invariant
            total == b.len(),
            b == buffer@,
            off <= total,
            iflist_walk(b, off as int, rx, tx) == iflist_walk(b, 0, 0, 0),
        decreases total - off,
    {
        if total - off < 4 {
            return Err(SlaccStatsError::NetlinkFailed);
        }
        let msglen = read_le16(buffer, off) as usize;
        if msglen == 0 {
            return Err(SlaccStatsError::NetlinkFailed);
        }
        if buffer[off + 3] == RTM_IFINFO2 {
            if total - off < IFINFO2_READ_LEN {
                return Err(SlaccStatsError::NetlinkFailed);
            }
            rx = rx.saturating_add(read_le64(buffer, off + IFINFO2_IBYTES_OFFSET));
            tx = tx.saturating_add(read_le64(buffer, off + IFINFO2_OBYTES_OFFSET));
        }
        if msglen > total - off {
            assert(iflist_walk(b, off + msglen, rx, tx) == Some((rx, tx)));
            off = total;
        } else {
            off = off + msglen;
        }
    }
    Ok(NetworkInformation { read_bytes: rx, write_bytes: tx })
}

} // verus!
