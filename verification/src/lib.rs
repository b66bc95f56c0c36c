//! System statistics for Misskey, a multi-pattern matcher and an RSA signer.
//!
//! The statistics part turns what the operating system reports (netlink
//! link dumps on Linux, interface lists, IOKit and Mach figures on macOS,
//! devstat and sysctls on FreeBSD, IP helper and disk figures on Windows)
//! into disk, memory, network and disk-space totals. The platform calls
//! themselves are made by the caller, which hands the values and buffers it
//! obtained to the functions here.
pub mod arguments;
pub mod bytes;
pub mod counters;
pub mod freebsd;
pub mod imp;
pub mod linux;
pub mod macos;
pub mod pattern_match;
pub mod rsa_signing;
pub mod windows;

pub use arguments::{MisskeyStatsArguments, Report};
pub use imp::{
    get_disk_io, get_disk_space, get_memory_info, get_network_info, DiskInformation,
    DiskIoReadings, DiskSpaceInformation, DiskSpaceReadings, MemoryInformation, MemoryReadings,
    NetworkInformation, NetworkReadings, SlaccStatsError,
};
pub use pattern_match::{AhoCorasick, JsAhoCorasick, PatternError};
pub use rsa_signing::{JsRsaKeyPair, RsaKeyPair, SigningError};
