//! The statistics the library reports, its error type, and the checks of
//! the status codes that system calls return.
use crate::counters::IoCounters;
use crate::freebsd::{self, FreeBsdMemoryReadings};
use crate::linux::LinkStatistics;
use crate::macos::{self, DeviceOperations, MacMemoryReadings};
use crate::windows::{self, DiskPerformance, VolumeSpace};
use vstd::prelude::*;

verus! {

/// Errors of the statistics readers.
#[derive(Debug, Clone, PartialEq, Eq)]
pub enum SlaccStatsError {
    /// A system call failed: the description of `errno` and its code.
    RawError(String, Option<i32>),
    /// An external function returned a null pointer.
    NullPointerReturnedError,
    /// The statistic is not available on this platform.
    NotSupportedError,
    /// A dictionary lacks the given key.
    SpecifiedKeyNotFoundError(String),
    /// Something went wrong when retrieving network information.
    NetlinkFailed,
    /// An integer conversion failed.
    TryFromIntError(std::num::TryFromIntError),
}

/// `Clone` of `std::num::TryFromIntError`, which std derives: the copy is
/// the same value.
pub assume_specification[ <std::num::TryFromIntError as std::clone::Clone>::clone ](
    e: &std::num::TryFromIntError,
) -> (r: std::num::TryFromIntError)
    ensures
        r == *e,
;

/// Memory figures, in bytes.
#[derive(Debug, Clone, Copy, PartialEq, Eq)]
pub struct MemoryInformation {
    pub used_count: u64,
    pub total_count: u64,
    pub active_count: u64,
}

/// Disk operation counts.
#[derive(Debug, Clone, Copy, PartialEq, Eq)]
pub struct DiskInformation {
    pub read_count: u64,
    pub write_count: u64,
}

/// Network byte counts.
#[derive(Debug, Clone, Copy, PartialEq, Eq)]
pub struct NetworkInformation {
    pub read_bytes: u64,
    pub write_bytes: u64,
}

/// Disk space, in bytes.
#[derive(Debug, Clone, Copy, PartialEq, Eq)]
pub struct DiskSpaceInformation {
    pub free_bytes: u64,
    pub total_bytes: u64,
}

/// The calling thread's last OS error code (`errno`).
///
/// Calls `errno::errno()` and takes its code. The value is whatever the last
/// failed system call on this thread left, so nothing is stated of it.
#[verifier::external_body]
fn last_errno_code() -> (code: i32) {
    errno::errno().0
}

/// The system's description of the OS error code `code`.
///
/// Calls `Display` of `errno::Errno`, which asks the C library
/// (`strerror_r`); the text depends on the system and its locale, so nothing
/// is stated of it.
#[verifier::external_body]
fn errno_description(code: i32) -> (text: String) {
    errno::Errno(code).to_string()
}

/// Whether `e` reports an OS error, with a description and a code.
pub open spec fn is_os_error(e: SlaccStatsError) -> bool {
    e matches SlaccStatsError::RawError(_, Some(_))
}

/// The error reported for the OS error code `code`, described by `text`.
pub fn os_error(text: String, code: i32) -> (e: SlaccStatsError)
    ensures
        e == SlaccStatsError::RawError(text, Some(code)),
{
    SlaccStatsError::RawError(text, Some(code))
}

/// The error for the calling thread's current `errno`: its description and
/// its code.
pub fn last_os_error() -> (e: SlaccStatsError)
    ensures
        is_os_error(e),
{
    let code = last_errno_code();
    os_error(errno_description(code), code)
}

/// The index of the first zero byte of `b` at or after `i`, or the length
/// of `b` when there is none.
pub open spec fn nul_index(b: Seq<u8>, i: int) -> int
    decreases b.len() - i,
{
    if i < 0 || i >= b.len() {
        b.len() as int
    } else if b[i] == 0 {
        i
    } else {
        nul_index(b, i + 1)
    }
}

/// The bytes of the C string held in `b`: those before its first zero byte.
pub open spec fn c_string_bytes(b: Seq<u8>) -> Seq<u8> {
    b.take(nul_index(b, 0))
}

/// The text that `String::from_utf8_lossy` makes of `b`.
pub uninterp spec fn lossy_text(b: Seq<u8>) -> Seq<char>;

/// Calls `String::from_utf8_lossy`, which std documents as converting the
/// bytes to text, with each invalid UTF-8 sequence replaced by U+FFFD: so
/// valid UTF-8 gives back the text it encodes.
#[verifier::external_body]
fn from_utf8_lossy(b: &[u8]) -> (text: String)
    ensures
        text@ == lossy_text(b@),
        vstd::utf8::valid_utf8(b@) ==> text@ == vstd::utf8::decode_utf8(b@),
{
    String::from_utf8_lossy(b).into_owned()
}

impl SlaccStatsError {
    /// The error for a failure that a C library reported as a message in
    /// `buffer` (a NUL-terminated string), without an error code.
    pub fn from_c_message(buffer: &[u8]) -> (e: SlaccStatsError)
        ensures
            e matches SlaccStatsError::RawError(text, None) && text@ == lossy_text(
                c_string_bytes(buffer@),
            ) && (vstd::utf8::valid_utf8(c_string_bytes(buffer@)) ==> text@
                == vstd::utf8::decode_utf8(c_string_bytes(buffer@))),
    {
        let n = buffer.len();
        let mut i: usize = 0;
        while i < n && buffer[i] != 0
            invariant
                n == buffer@.len(),
                i <= n,
                nul_index(buffer@, i as int) == nul_index(buffer@, 0),
            decreases n - i,
        {
            i = i + 1;
        }
        let (message, _) = buffer.split_at(i);
        assert(message@ =~= c_string_bytes(buffer@));
        SlaccStatsError::RawError(from_utf8_lossy(message), None)
    }
}

/// Checks the status that a system call returned: zero is success; any other
/// value fails with the current `errno`.
pub fn into_errno(status: i32) -> (r: Result<(), SlaccStatsError>)
    ensures
        r is Ok <==> status == 0,
        r is Err ==> is_os_error(r->Err_0),
{
    if status != 0 {
        Err(last_os_error())
    } else {
        Ok(())
    }
}

/// Checks the value that a system call returned: a negative value fails
/// with the current `errno`; any other value is handed back.
pub fn into_errno2(value: i32) -> (r: Result<i32, SlaccStatsError>)
    ensures
        value >= 0 ==> r == Ok::<i32, SlaccStatsError>(value),
        value < 0 ==> r is Err && is_os_error(r->Err_0),
{
    if value < 0 {
        Err(last_os_error())
    } else {
        Ok(value)
    }
}

/// Checks the value that a system call returned with `accept`: a rejected
/// value fails with the current `errno`.
pub fn into_error_with<F: Fn(i32) -> bool>(value: i32, accept: F) -> (r: Result<
    (),
    SlaccStatsError,
>)
    requires
        call_requires(accept, (value,)),
    ensures
        exists|accepted: bool|
            #[trigger] call_ensures(accept, (value,), accepted) && (r is Ok <==> accepted),
        r is Err ==> is_os_error(r->Err_0),
{
    if !accept(value) {
        Err(last_os_error())
    } else {
        Ok(())
    }
}

/// Like [`into_errno`], and calls `release` before failing, so that what
/// the caller holds is given back.
pub fn into_error_release<F: FnOnce()>(status: i32, release: F) -> (r: Result<
    (),
    SlaccStatsError,
>)
    requires
        status != 0 ==> call_requires(release, ()),
    ensures
        r is Ok <==> status == 0,
        r is Err ==> is_os_error(r->Err_0),
{
    let r = into_errno(status);
    if r.is_err() {
        release();
    }
    r
}

/// Checks a file descriptor: a negative one means the netlink socket could
/// not be opened.
pub fn valid_fd(fd: i32) -> (r: Result<i32, SlaccStatsError>)
    ensures
        fd >= 0 ==> r == Ok::<i32, SlaccStatsError>(fd),
        fd < 0 ==> r == Err::<i32, SlaccStatsError>(SlaccStatsError::NetlinkFailed),
{
    if fd >= 0 {
        Ok(fd)
    } else {
        Err(SlaccStatsError::NetlinkFailed)
    }
}

/// What the disk operation counters were read from, by platform.
pub enum DiskIoReadings {
    /// The operation counts of each block storage driver (IOKit).
    MacOs(Vec<DeviceOperations>),
    /// The read and write operation counts of each device (devstat).
    FreeBsd(Vec<IoCounters>),
    /// The performance record of each physical drive.
    Windows(Vec<DiskPerformance>),
    /// The platform offers no disk operation counters.
    Unsupported,
}

/// What the disk space was read from, by platform.
pub enum DiskSpaceReadings {
    /// The figures of `GetDiskFreeSpaceExW`.
    Windows(VolumeSpace),
    /// The platform offers no disk space figures.
    Unsupported,
}

/// What the memory figures were read from, by platform.
pub enum MemoryReadings {
    /// The Mach host statistics and the memory sysctls.
    MacOs(MacMemoryReadings),
    /// The memory sysctls.
    FreeBsd(FreeBsdMemoryReadings),
    /// The platform offers no memory figures.
    Unsupported,
}

/// What the network counters were read from, by platform.
pub enum NetworkReadings {
    /// The octet counters of each interface row.
    Windows(Vec<IoCounters>),
    /// The `NET_RT_IFLIST2` interface list, as received.
    MacOs(Vec<u8>),
    /// The byte counters of each interface of the interface MIB.
    FreeBsd(Vec<IoCounters>),
    /// The totals of a complete netlink link dump.
    Linux(LinkStatistics),
    /// The platform offers no network counters.
    Unsupported,
}

/// The disk information that the readings give.
pub open spec fn disk_io_result(readings: DiskIoReadings) -> Result<DiskInformation, SlaccStatsError> {
    match readings {
        DiskIoReadings::MacOs(devices) => Ok(macos::disk_io_of(devices@)),
        DiskIoReadings::FreeBsd(devices) => Ok(freebsd::disk_io_of(devices@)),
        DiskIoReadings::Windows(drives) => Ok(windows::disk_io_of(drives@)),
        DiskIoReadings::Unsupported => Err(SlaccStatsError::NotSupportedError),
    }
}

/// The disk space information that the readings give.
pub open spec fn disk_space_result(readings: DiskSpaceReadings) -> Result<DiskSpaceInformation, SlaccStatsError> {
    match readings {
        DiskSpaceReadings::Windows(space) => Ok(windows::disk_space_of(space)),
        DiskSpaceReadings::Unsupported => Err(SlaccStatsError::NotSupportedError),
    }
}

/// The memory information that the readings give.
pub open spec fn memory_result(readings: MemoryReadings) -> Result<MemoryInformation, SlaccStatsError> {
    match readings {
        MemoryReadings::MacOs(m) => Ok(macos::memory_of(m)),
        MemoryReadings::FreeBsd(m) => Ok(freebsd::memory_of(m)),
        MemoryReadings::Unsupported => Err(SlaccStatsError::NotSupportedError),
    }
}

/// The network information that the readings give.
pub open spec fn network_result(readings: NetworkReadings) -> Result<NetworkInformation, SlaccStatsError> {
    match readings {
        NetworkReadings::Windows(rows) => Ok(windows::network_of(rows@)),
        NetworkReadings::MacOs(list) => macos::network_of(list@),
        NetworkReadings::FreeBsd(interfaces) => Ok(freebsd::network_of(interfaces@)),
        NetworkReadings::Linux(stats) => Ok(
            NetworkInformation { read_bytes: stats.read_bytes, write_bytes: stats.write_bytes },
        ),
        NetworkReadings::Unsupported => Err(SlaccStatsError::NotSupportedError),
    }
}

/// Retrieving disk information.
pub fn get_disk_io(readings: &DiskIoReadings) -> (r: Result<DiskInformation, SlaccStatsError>)
    ensures
        r == disk_io_result(*readings),
{
    match readings {
        DiskIoReadings::MacOs(devices) => Ok(macos::disk_io_totals(devices.as_slice())),
        DiskIoReadings::FreeBsd(devices) => Ok(freebsd::disk_io_totals(devices.as_slice())),
        DiskIoReadings::Windows(drives) => Ok(windows::disk_io_totals(drives.as_slice())),
        DiskIoReadings::Unsupported => Err(SlaccStatsError::NotSupportedError),
    }
}

/// Retrieving disk space information.
pub fn get_disk_space(readings: &DiskSpaceReadings) -> (r: Result<DiskSpaceInformation, SlaccStatsError>)
    ensures
        r == disk_space_result(*readings),
{
    match readings {
        DiskSpaceReadings::Windows(space) => Ok(windows::disk_space_information(space)),
        DiskSpaceReadings::Unsupported => Err(SlaccStatsError::NotSupportedError),
    }
}

/// Retrieving memory information.
pub fn get_memory_info(readings: &MemoryReadings) -> (r: Result<MemoryInformation, SlaccStatsError>)
    ensures
        r == memory_result(*readings),
{
    match readings {
        MemoryReadings::MacOs(m) => Ok(macos::memory_information(m)),
        MemoryReadings::FreeBsd(m) => Ok(freebsd::memory_information(m)),
        MemoryReadings::Unsupported => Err(SlaccStatsError::NotSupportedError),
    }
}

/// Retrieving network information.
pub fn get_network_info(readings: &NetworkReadings) -> (r: Result<NetworkInformation, SlaccStatsError>)
    ensures
        r == network_result(*readings),
{
    match readings {
        NetworkReadings::Windows(rows) => Ok(windows::network_totals(rows.as_slice())),
        NetworkReadings::MacOs(list) => macos::interface_list_totals(list.as_slice()),
        NetworkReadings::FreeBsd(interfaces) => Ok(freebsd::network_totals(interfaces.as_slice())),
        NetworkReadings::Linux(stats) => Ok(
            NetworkInformation { read_bytes: stats.read_bytes, write_bytes: stats.write_bytes },
        ),
        NetworkReadings::Unsupported => Err(SlaccStatsError::NotSupportedError),
    }
}

} // verus!
