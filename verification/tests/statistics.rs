use slacc::bytes::{read_le16, read_le32, read_le64};
use slacc::counters::{sum_counters, IoCounters};
use slacc::freebsd::{self, FreeBsdMemoryReadings};
use slacc::imp::{into_errno, into_errno2, into_error_release, into_error_with, valid_fd};
use slacc::linux::LinkStatistics;
use slacc::macos::{self, DeviceOperations, MacMemoryReadings, VmStatistics};
use slacc::windows::{self, DiskPerformance, VolumeSpace};
use slacc::{
    get_disk_io, get_disk_space, get_memory_info, get_network_info, DiskInformation,
    DiskIoReadings, DiskSpaceInformation, DiskSpaceReadings, MemoryInformation, MemoryReadings,
    NetworkInformation, NetworkReadings, SlaccStatsError,
};
use slacc::{MisskeyStatsArguments, Report};
use std::cell::Cell;

fn c(read: u64, write: u64) -> IoCounters {
    IoCounters { read, write }
}

#[test]
fn little_endian_reads() {
    let b = [1u8, 2, 3, 4, 5, 6, 7, 8, 9];
    assert_eq!(read_le16(&b, 1), 0x0302);
    assert_eq!(read_le32(&b, 0), 0x04030201);
    assert_eq!(read_le64(&b, 1), 0x0908070605040302);
}

#[test]
fn sums_saturate_instead_of_wrapping() {
    assert_eq!(sum_counters(&[]), c(0, 0));
    assert_eq!(sum_counters(&[c(1, 2), c(3, 4)]), c(4, 6));
    assert_eq!(sum_counters(&[c(u64::MAX - 1, 1), c(5, 1)]), c(u64::MAX, 2));
}

#[test]
fn unsupported_platforms_are_reported() {
    assert_eq!(get_disk_io(&DiskIoReadings::Unsupported), Err(SlaccStatsError::NotSupportedError));
    assert_eq!(
        get_disk_space(&DiskSpaceReadings::Unsupported),
        Err(SlaccStatsError::NotSupportedError)
    );
    assert_eq!(
        get_memory_info(&MemoryReadings::Unsupported),
        Err(SlaccStatsError::NotSupportedError)
    );
    assert_eq!(
        get_network_info(&NetworkReadings::Unsupported),
        Err(SlaccStatsError::NotSupportedError)
    );
}

#[test]
fn freebsd_memory_figures() {
    let m = FreeBsdMemoryReadings { real_memory: 8192, page_size: 4096, free_pages: 1, active_pages: 1 };
    assert_eq!(
        get_memory_info(&MemoryReadings::FreeBsd(m)),
        Ok(MemoryInformation { used_count: 4096, total_count: 8192, active_count: 4096 })
    );
    let big = FreeBsdMemoryReadings {
        real_memory: 100,
        page_size: u64::MAX,
        free_pages: 2,
        active_pages: 3,
    };
    assert_eq!(
        freebsd::memory_information(&big),
        MemoryInformation { used_count: 0, total_count: 100, active_count: u64::MAX }
    );
}

#[test]
fn freebsd_disk_and_network_totals() {
    assert_eq!(
        get_disk_io(&DiskIoReadings::FreeBsd(vec![c(1, 2), c(10, 20)])),
        Ok(DiskInformation { read_count: 11, write_count: 22 })
    );
    assert_eq!(
        get_network_info(&NetworkReadings::FreeBsd(vec![c(u64::MAX, 2), c(1, 3)])),
        Ok(NetworkInformation { read_bytes: u64::MAX, write_bytes: 5 })
    );
}

#[test]
fn windows_totals() {
    let drives = vec![
        DiskPerformance { read_count: u32::MAX, write_count: 1 },
        DiskPerformance { read_count: u32::MAX, write_count: 2 },
    ];
    assert_eq!(
        get_disk_io(&DiskIoReadings::Windows(drives)),
        Ok(DiskInformation { read_count: 2 * (u32::MAX as u64), write_count: 3 })
    );
    assert_eq!(
        get_network_info(&NetworkReadings::Windows(vec![c(7, 8), c(1, 1)])),
        Ok(NetworkInformation { read_bytes: 8, write_bytes: 9 })
    );
    assert_eq!(
        get_disk_space(&DiskSpaceReadings::Windows(VolumeSpace { free_bytes: 5, total_bytes: 9 })),
        Ok(DiskSpaceInformation { free_bytes: 5, total_bytes: 9 })
    );
    assert_eq!(
        windows::disk_io_totals(&[]),
        DiskInformation { read_count: 0, write_count: 0 }
    );
}

#[test]
fn linux_network_totals() {
    assert_eq!(
        get_network_info(&NetworkReadings::Linux(LinkStatistics { read_bytes: 3, write_bytes: 4 })),
        Ok(NetworkInformation { read_bytes: 3, write_bytes: 4 })
    );
}

#[test]
fn macos_disk_totals_saturate_in_i64() {
    let devices = vec![
        DeviceOperations { read_count: i64::MAX, write_count: 1 },
        DeviceOperations { read_count: 5, write_count: 2 },
    ];
    assert_eq!(
        get_disk_io(&DiskIoReadings::MacOs(devices)),
        Ok(DiskInformation { read_count: i64::MAX as u64, write_count: 3 })
    );
}

#[test]
fn macos_negative_disk_totals_are_reinterpreted() {
    let devices = vec![DeviceOperations { read_count: -1, write_count: i64::MIN }];
    assert_eq!(
        macos::disk_io_totals(&devices),
        DiskInformation { read_count: u64::MAX, write_count: 1u64 << 63 }
    );
    assert_eq!(macos::reinterpret_unsigned(-2), u64::MAX - 1);
    assert_eq!(macos::reinterpret_unsigned(42), 42);
}

#[test]
fn macos_memory_figures() {
    let readings = MacMemoryReadings {
        vm: VmStatistics { active_count: 10, wire_count: 5, speculative_count: 2, compressor_page_count: 3 },
        page_size: 16384,
        memory_size: 1 << 34,
    };
    assert_eq!(
        get_memory_info(&MemoryReadings::MacOs(readings)),
        Ok(MemoryInformation { used_count: 20 * 16384, total_count: 1 << 34, active_count: 10 * 16384 })
    );
    let saturated = MacMemoryReadings {
        vm: VmStatistics {
            active_count: u32::MAX,
            wire_count: 5,
            speculative_count: 0,
            compressor_page_count: 0,
        },
        page_size: 2,
        memory_size: 0,
    };
    assert_eq!(
        macos::memory_information(&saturated),
        MemoryInformation {
            used_count: 2 * (u32::MAX as u64),
            total_count: 0,
            active_count: 2 * (u32::MAX as u64),
        }
    );
}

fn ifinfo2(ibytes: u64, obytes: u64) -> Vec<u8> {
    let mut r = vec![0u8; 160];
    r[0..2].copy_from_slice(&160u16.to_le_bytes());
    r[2] = 5;
    r[3] = macos::RTM_IFINFO2;
    r[96..104].copy_from_slice(&ibytes.to_le_bytes());
    r[104..112].copy_from_slice(&obytes.to_le_bytes());
    r
}

#[test]
fn macos_interface_list_totals() {
    let mut list = ifinfo2(100, 200);
    let mut other = vec![0u8; 20];
    other[0..2].copy_from_slice(&20u16.to_le_bytes());
    other[3] = 0x0c;
    list.extend(other);
    list.extend(ifinfo2(1, 2));
    assert_eq!(
        get_network_info(&NetworkReadings::MacOs(list)),
        Ok(NetworkInformation { read_bytes: 101, write_bytes: 202 })
    );
    assert_eq!(
        macos::interface_list_totals(&[]),
        Ok(NetworkInformation { read_bytes: 0, write_bytes: 0 })
    );
}

#[test]
fn macos_interface_list_totals_saturate() {
    let mut list = ifinfo2(u64::MAX, 1);
    list.extend(ifinfo2(1, 1));
    assert_eq!(
        macos::interface_list_totals(&list),
        Ok(NetworkInformation { read_bytes: u64::MAX, write_bytes: 2 })
    );
}

#[test]
fn macos_malformed_interface_lists_fail() {
    let mut zero_length = ifinfo2(1, 1);
    zero_length[0] = 0;
    zero_length[1] = 0;
    assert_eq!(macos::interface_list_totals(&zero_length), Err(SlaccStatsError::NetlinkFailed));
    let short = ifinfo2(1, 1)[..100].to_vec();
    assert_eq!(macos::interface_list_totals(&short), Err(SlaccStatsError::NetlinkFailed));
    assert_eq!(macos::interface_list_totals(&[4, 0]), Err(SlaccStatsError::NetlinkFailed));
}

#[test]
fn status_checks() {
    assert_eq!(into_errno(0), Ok(()));
    assert_eq!(into_errno2(17), Ok(17));
    assert_eq!(valid_fd(3), Ok(3));
    assert_eq!(valid_fd(-1), Err(SlaccStatsError::NetlinkFailed));
    assert_eq!(into_error_with(5, |v: i32| v >= 0), Ok(()));
}

#[test]
fn failed_calls_report_errno() {
    errno::set_errno(errno::Errno(libc::ENOENT));
    match into_errno(-1) {
        Err(SlaccStatsError::RawError(text, Some(code))) => {
            assert_eq!(code, libc::ENOENT);
            assert_eq!(text, errno::Errno(libc::ENOENT).to_string());
            assert!(!text.is_empty());
        }
        other => panic!("unexpected {:?}", other),
    }
    errno::set_errno(errno::Errno(libc::EACCES));
    match into_errno2(-1) {
        Err(SlaccStatsError::RawError(_, Some(code))) => assert_eq!(code, libc::EACCES),
        other => panic!("unexpected {:?}", other),
    }
    errno::set_errno(errno::Errno(libc::EINVAL));
    match into_error_with(-3, |v: i32| v >= 0) {
        Err(SlaccStatsError::RawError(_, Some(code))) => assert_eq!(code, libc::EINVAL),
        other => panic!("unexpected {:?}", other),
    }
}

#[test]
fn release_runs_only_on_failure() {
    let released = Cell::new(0);
    assert_eq!(into_error_release(0, || released.set(released.get() + 1)), Ok(()));
    assert_eq!(released.get(), 0);
    errno::set_errno(errno::Errno(libc::EIO));
    assert!(into_error_release(1, || released.set(released.get() + 1)).is_err());
    assert_eq!(released.get(), 1);
}

#[test]
fn errors_from_c_messages() {
    let mut buffer = vec![0u8; 16];
    buffer[..6].copy_from_slice(b"failed");
    buffer[7] = b'x';
    assert_eq!(
        SlaccStatsError::from_c_message(&buffer),
        SlaccStatsError::RawError("failed".to_string(), None)
    );
    assert_eq!(
        SlaccStatsError::from_c_message(b"no terminator"),
        SlaccStatsError::RawError("no terminator".to_string(), None)
    );
    assert_eq!(
        SlaccStatsError::from_c_message(&[0, b'a']),
        SlaccStatsError::RawError(String::new(), None)
    );
    assert_eq!(
        SlaccStatsError::from_c_message(&[b'a', 0xff, b'b', 0]),
        SlaccStatsError::RawError("a\u{fffd}b".to_string(), None)
    );
}

#[test]
fn requested_reports_follow_the_switches() {
    let all = MisskeyStatsArguments { disk_io: true, memory_info: true, network_info: true, disk_space_info: true };
    assert_eq!(
        all.requested_reports(),
        vec![Report::DiskIo, Report::MemoryInfo, Report::NetworkInfo, Report::DiskSpaceInfo]
    );
    let none = MisskeyStatsArguments { disk_io: false, memory_info: false, network_info: false, disk_space_info: false };
    assert!(none.requested_reports().is_empty());
    let some = MisskeyStatsArguments { disk_io: false, memory_info: false, network_info: true, disk_space_info: true };
    assert_eq!(some.requested_reports(), vec![Report::NetworkInfo, Report::DiskSpaceInfo]);
}
