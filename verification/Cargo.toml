[package]
name = "slacc"
version = "0.1.0"
edition = "2021"
publish = false

[dependencies]
aho-corasick = "*"
aws-lc-rs = "*"
rustls-pki-types = "*"
errno = "*"
libc = "*"
num = "*"
thiserror = "*"
miette = "*"
clap = { version = "4", features = ["derive"] }
rayon = "*"
napi = { version = "*", features = ["napi4"] }
napi-derive = "*"
core-foundation-sys = "*"
windows = { version = "*", features = ["Win32_Foundation", "Win32_NetworkManagement_IpHelper", "Win32_NetworkManagement_Ndis", "Win32_Networking_WinSock", "Win32_Storage_FileSystem", "Win32_System_Ioctl", "Win32_System_IO", "Win32_Security"] }
