//! Integers read from received bytes, little-endian or in the byte order of the machine.
use vstd::prelude::*;

verus! {

/// The little-endian 16-bit value at `b[i..i + 2]`.
pub open spec fn le16(b: Seq<u8>, i: int) -> int {
    b[i] + 256 * b[i + 1]
}

/// The little-endian 32-bit value at `b[i..i + 4]`.
pub open spec fn le32(b: Seq<u8>, i: int) -> int {
    b[i] + 256 * (b[i + 1] + 256 * (b[i + 2] + 256 * b[i + 3]))
}

/// The little-endian 64-bit value at `b[i..i + 8]`.
pub open spec fn le64(b: Seq<u8>, i: int) -> int {
    le32(b, i) + 4294967296 * le32(b, i + 4)
}

/// Reads the little-endian 16-bit value at `b[i..i + 2]`.
pub fn read_le16(b: &[u8], i: usize) -> (r: u16)
    requires
        i + 2 <= b.len(),
    ensures
        r == le16(b@, i as int),
{
    let lo = b[i] as u16;
    let hi = b[i + 1] as u16;
    assert(lo <= 255 && hi <= 255);
    lo + hi * 256
}

/// Reads the little-endian 32-bit value at `b[i..i + 4]`.
pub fn read_le32(b: &[u8], i: usize) -> (r: u64)
    requires
        i + 4 <= b.len(),
    ensures
        r == le32(b@, i as int),
        r <= u32::MAX,
{
    let b3 = b[i + 3] as u64;
    let b2 = b[i + 2] as u64;
    let b1 = b[i + 1] as u64;
    let b0 = b[i] as u64;
    assert(b3 <= 255 && b2 <= 255 && b1 <= 255 && b0 <= 255);
    let v2 = b2 + 256 * b3;
    let v1 = b1 + 256 * v2;
    b0 + 256 * v1
}

/// Reads the little-endian 64-bit value at `b[i..i + 8]`.
pub fn read_le64(b: &[u8], i: usize) -> (r: u64)
    requires
        i + 8 <= b.len(),
    ensures
        r == le64(b@, i as int),
{
    let lo = read_le32(b, i);
    let hi = read_le32(b, i + 4);
    lo + 4294967296 * hi
}

/// The big-endian 16-bit value at `b[i..i + 2]`.
pub open spec fn be16(b: Seq<u8>, i: int) -> int {
    256 * b[i] + b[i + 1]
}

/// The big-endian 32-bit value at `b[i..i + 4]`.
pub open spec fn be32(b: Seq<u8>, i: int) -> int {
    b[i + 3] + 256 * (b[i + 2] + 256 * (b[i + 1] + 256 * b[i]))
}

/// The 16-bit value at `b[i..i + 2]` in the byte order of the machine:
/// big-endian when `big`, little-endian otherwise.
pub open spec fn ne16(b: Seq<u8>, i: int, big: bool) -> int {
    if big {
        be16(b, i)
    } else {
        le16(b, i)
    }
}

/// The 32-bit value at `b[i..i + 4]` in the byte order of the machine.
pub open spec fn ne32(b: Seq<u8>, i: int, big: bool) -> int {
    if big {
        be32(b, i)
    } else {
        le32(b, i)
    }
}

/// The 64-bit value at `b[i..i + 8]` in the byte order of the machine.
pub open spec fn ne64(b: Seq<u8>, i: int, big: bool) -> int {
    if big {
        b[i + 7] + 256 * (b[i + 6] + 256 * (b[i + 5] + 256 * (b[i + 4] + 256 * (b[i + 3] + 256 * (
        b[i + 2] + 256 * (b[i + 1] + 256 * b[i]))))))
    } else {
        b[i] + 256 * (b[i + 1] + 256 * (b[i + 2] + 256 * (b[i + 3] + 256 * (b[i + 4] + 256 * (
        b[i + 5] + 256 * (b[i + 6] + 256 * b[i + 7]))))))
    }
}

/// Reads the 16-bit value at `b[i..i + 2]` in the byte order of the
/// machine.
pub fn read_ne16(b: &[u8], i: usize, big: bool) -> (r: u16)
    requires
        i + 2 <= b.len(),
    ensures
        r == ne16(b@, i as int, big),
{
    if big {
        let hi = b[i] as u16;
        let lo = b[i + 1] as u16;
        assert(lo <= 255 && hi <= 255);
        hi * 256 + lo
    } else {
        read_le16(b, i)
    }
}

/// Reads the 32-bit value at `b[i..i + 4]` in the byte order of the
/// machine.
pub fn read_ne32(b: &[u8], i: usize, big: bool) -> (r: u64)
    requires
        i + 4 <= b.len(),
    ensures
        r == ne32(b@, i as int, big),
        r <= u32::MAX,
{
    if big {
        let b0 = b[i] as u64;
        let b1 = b[i + 1] as u64;
        let b2 = b[i + 2] as u64;
        let b3 = b[i + 3] as u64;
        assert(b3 <= 255 && b2 <= 255 && b1 <= 255 && b0 <= 255);
        let v2 = b1 + 256 * b0;
        let v1 = b2 + 256 * v2;
        b3 + 256 * v1
    } else {
        read_le32(b, i)
    }
}

} // verus!
