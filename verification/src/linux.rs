//! Network statistics on Linux, from an rtnetlink link dump.
//!
//! The caller opens a `NETLINK_ROUTE` socket, sends the bytes of
//! [`link_dump_request`], then hands each buffer it receives to
//! [`receive_link_dump`] until that reports the dump complete or failed.
//! Netlink messages are in the byte order of the machine; the caller says
//! which it is (`big` for big-endian).
use crate::bytes::{ne16, ne32, ne64, read_ne16, read_ne32};
use crate::imp::SlaccStatsError;
use vstd::prelude::*;

verus! {

/// Length of a netlink message header (`struct nlmsghdr`).
pub const NLMSG_HEADER_LEN: usize = 16;

/// Message type of an error report (`NLMSG_ERROR`).
pub const NLMSG_ERROR: u16 = 2;

/// Message type that ends a dump (`NLMSG_DONE`).
pub const NLMSG_DONE: u16 = 3;

/// Header flag of a request (`NLM_F_REQUEST`).
pub const NLM_F_REQUEST: u16 = 0x1;

/// Header flag asking for a dump (`NLM_F_DUMP`).
pub const NLM_F_DUMP: u16 = 0x300;

/// Header flag set when a dump was interrupted (`NLM_F_DUMP_INTR`).
pub const NLM_F_DUMP_INTR: u16 = 0x10;

/// Message type describing one link (`RTM_NEWLINK`).
pub const RTM_NEWLINK: u16 = 16;

/// Message type asking for the links (`RTM_GETLINK`).
pub const RTM_GETLINK: u16 = 18;

/// Attribute type of the 64-bit link statistics (`IFLA_STATS64`).
pub const IFLA_STATS64: u16 = 23;

/// Offset of the first attribute in a link message: the header and the
/// `struct ifinfomsg` that follows it, aligned to four bytes.
pub const LINK_ATTRIBUTES_OFFSET: usize = 32;

/// Length of an attribute header (`struct rtattr`).
pub const RTATTR_HEADER_LEN: usize = 4;

/// Length of `struct rtnl_link_stats64`.
pub const LINK_STATS64_LEN: usize = 192;

/// Offset of `rx_bytes` in `struct rtnl_link_stats64`.
pub const STATS_RX_BYTES_OFFSET: usize = 16;

/// Offset of `tx_bytes` in `struct rtnl_link_stats64`.
pub const STATS_TX_BYTES_OFFSET: usize = 24;

/// Length of the link dump request: a header and `struct rtgenmsg`, padded to
/// the alignment of the header.
pub const LINK_DUMP_REQUEST_LEN: usize = 20;

/// Received and sent byte totals accumulated over the links of a dump.
#[derive(Debug, Clone, Copy, PartialEq, Eq, Default)]
pub struct LinkStatistics {
    pub read_bytes: u64,
    pub write_bytes: u64,
}

/// What one received buffer of a link dump leads to.
#[derive(Debug, PartialEq, Eq)]
pub enum LinkDumpStep {
    /// The buffer ended without the end of the dump: receive the next one
    /// and continue from these totals.
    Pending(LinkStatistics),
    /// The dump ended: these are the totals over all links.
    Complete(LinkStatistics),
    /// The kernel reported an error or an interrupted dump, or the buffer is
    /// malformed.
    Failed(SlaccStatsError),
    /// A total would go beyond `u64::MAX`.
    CounterOverflow,
}

/// How a walk over received messages stopped.
pub enum DumpStatus {
    Pending,
    Complete,
    Failed,
}

/// `n` rounded up to a multiple of four, the netlink alignment.
pub open spec fn align4(n: int) -> int {
    n + (4 - n % 4) % 4
}

/// Rounding up to the alignment moves forward by at least four bytes and by
/// less than four beyond the length.
pub proof fn lemma_align4(n: int)
    requires
        n >= 1,
    ensures
        align4(n) >= 4,
        n <= align4(n) <= n + 3,
{
}

fn align4_exec(n: usize) -> (r: usize)
    requires
        n <= usize::MAX - 3,
    ensures
        r == align4(n as int),
{
    n + (4 - n % 4) % 4
}

/// Byte `i` of a statistics structure of which only the first `n` bytes were
/// sent, starting at `b[start]`: the bytes that were not sent read as zero.
pub open spec fn payload_byte(b: Seq<u8>, start: int, n: int, i: int) -> int {
    if i < n {
        b[start + i] as int
    } else {
        0
    }
}

/// The 64-bit field at offset `k` of a statistics structure of which only
/// the first `n` bytes were sent, starting at `b[start]`, in the byte order
/// of the machine (big-endian when `big`).
pub open spec fn payload_u64(b: Seq<u8>, start: int, n: int, k: int, big: bool) -> int {
    if big {
        payload_byte(b, start, n, k + 7) + 256 * (payload_byte(b, start, n, k + 6) + 256 * (
        payload_byte(b, start, n, k + 5) + 256 * (payload_byte(b, start, n, k + 4) + 256 * (
        payload_byte(b, start, n, k + 3) + 256 * (payload_byte(b, start, n, k + 2) + 256 * (
        payload_byte(b, start, n, k + 1) + 256 * payload_byte(b, start, n, k)))))))
    } else {
        payload_byte(b, start, n, k) + 256 * (payload_byte(b, start, n, k + 1) + 256 * (
        payload_byte(b, start, n, k + 2) + 256 * (payload_byte(b, start, n, k + 3) + 256 * (
        payload_byte(b, start, n, k + 4) + 256 * (payload_byte(b, start, n, k + 5) + 256 * (
        payload_byte(b, start, n, k + 6) + 256 * payload_byte(b, start, n, k + 7)))))))
    }
}

/// The byte of the message header at `b[off]` that holds the low bits of
/// its flags, which include `NLM_F_DUMP_INTR`.
pub open spec fn flags_low(b: Seq<u8>, off: int, big: bool) -> u8 {
    if big {
        b[off + 7]
    } else {
        b[off + 6]
    }
}

/// How many bytes of a statistics attribute of length `rta_len` are read:
/// its payload, but no more than `struct rtnl_link_stats64`.
pub open spec fn stats_copy_len(rta_len: int) -> int {
    if rta_len - 4 < 192 {
        rta_len - 4
    } else {
        192
    }
}

/// Walks the attributes of the link message that starts at `b[base]` and is
/// `len` bytes long, from attribute offset `a`, adding the received and sent
/// bytes of every `IFLA_STATS64` attribute to `rx` and `tx`.
///
/// Returns whether the attributes are well formed, and the totals reached.
/// An attribute of length zero, or a statistics attribute shorter than its
/// own header, is malformed.
pub open spec fn attr_walk(b: Seq<u8>, base: int, len: int, a: int, rx: int, tx: int, big: bool) -> (bool, int, int)
    decreases (if a > len { 0 } else { len - a + 1 }),
{
    if a + 4 > len {
        (true, rx, tx)
    } else {
        let rta_len = ne16(b, base + a, big);
        let rta_type = ne16(b, base + a + 2, big);
        if rta_len == 0 {
            (false, rx, tx)
        } else if a + rta_len <= len && rta_type == IFLA_STATS64 {
            if rta_len < 4 {
                (false, rx, tx)
            } else {
                let start = base + a + 4;
                let n = stats_copy_len(rta_len);
                proof {
                    lemma_align4(rta_len);
                }
                attr_walk(
                    b,
                    base,
                    len,
                    a + align4(rta_len),
                    rx + payload_u64(b, start, n, 16, big),
                    tx + payload_u64(b, start, n, 24, big), big,
                )
            }
        } else {
            proof {
                assert(rta_len >= 1) by {
                    assert(b[base + a] >= 0 && b[base + a + 1] >= 0);
                }
                lemma_align4(rta_len);
            }
            attr_walk(b, base, len, a + align4(rta_len), rx, tx, big)
        }
    }
}

/// Walks the netlink messages of `b` from offset `off`, adding the link
/// statistics to `rx` and `tx`, and returns how the walk stopped with the
/// totals reached at that point.
///
/// The messages are read in order: an interrupted dump, an error message, a
/// message that runs past the buffer, malformed attributes or a message of
/// length zero fail the walk; `NLMSG_DONE` completes it; a buffer with less
/// than a header left leaves it pending.
pub open spec fn dump_walk(b: Seq<u8>, off: int, rx: int, tx: int, big: bool) -> (DumpStatus, int, int)
    decreases (if off > b.len() { 0 } else { b.len() - off + 1 }),
{
    if off < 0 || off + 16 > b.len() {
        (DumpStatus::Pending, rx, tx)
    } else {
        let len = ne32(b, off, big);
        let msg_type = ne16(b, off + 4, big);
        if flags_low(b, off, big) & 0x10u8 != 0u8 {
            (DumpStatus::Failed, rx, tx)
        } else if msg_type == NLMSG_DONE {
            (DumpStatus::Complete, rx, tx)
        } else if msg_type == NLMSG_ERROR {
            (DumpStatus::Failed, rx, tx)
        } else if off + len > b.len() {
            (DumpStatus::Failed, rx, tx)
        } else {
            let step = if msg_type == RTM_NEWLINK {
                attr_walk(b, off, len, 32, rx, tx, big)
            } else {
                (true, rx, tx)
            };
            if !step.0 || len == 0 {
                (DumpStatus::Failed, step.1, step.2)
            } else {
                proof {
                    lemma_align4(len);
                }
                dump_walk(b, off + align4(len), step.1, step.2, big)
            }
        }
    }
}

/// What [`receive_link_dump`] returns for `stats` and the received bytes `b`.
pub open spec fn link_dump_step(stats: LinkStatistics, b: Seq<u8>, big: bool) -> LinkDumpStep {
    let w = dump_walk(b, 0, stats.read_bytes as int, stats.write_bytes as int, big);
    if w.1 > u64::MAX || w.2 > u64::MAX {
        LinkDumpStep::CounterOverflow
    } else {
        let totals = LinkStatistics { read_bytes: w.1 as u64, write_bytes: w.2 as u64 };
        match w.0 {
            DumpStatus::Pending => LinkDumpStep::Pending(totals),
            DumpStatus::Complete => LinkDumpStep::Complete(totals),
            DumpStatus::Failed => LinkDumpStep::Failed(SlaccStatsError::NetlinkFailed),
        }
    }
}

/// The link dump request, in the byte order of the machine: a header of
/// length 20, type `RTM_GETLINK`, flags `NLM_F_DUMP | NLM_F_REQUEST`,
/// sequence number and port ID zero, followed by `struct rtgenmsg` with
/// family `AF_UNSPEC` and three bytes of padding.
pub open spec fn link_dump_request_bytes(big: bool) -> Seq<u8> {
    if big {
        seq![
            0u8, 0u8, 0u8, 20u8,
            0u8, 18u8,
            3u8, 1u8,
            0u8, 0u8, 0u8, 0u8,
            0u8, 0u8, 0u8, 0u8,
            0u8, 0u8, 0u8, 0u8,
        ]
    } else {
        seq![
            20u8, 0u8, 0u8, 0u8,
            18u8, 0u8,
            1u8, 3u8,
            0u8, 0u8, 0u8, 0u8,
            0u8, 0u8, 0u8, 0u8,
            0u8, 0u8, 0u8, 0u8,
        ]
    }
}

/// The bytes to send on a `NETLINK_ROUTE` socket to ask for a dump of all
/// links.
pub fn link_dump_request(big: bool) -> (r: Vec<u8>)
    ensures
        r@ == link_dump_request_bytes(big),
{
    let mut r: Vec<u8> = vec![0u8; LINK_DUMP_REQUEST_LEN];
    let flags = NLM_F_DUMP | NLM_F_REQUEST;
    assert((NLM_F_DUMP | NLM_F_REQUEST) == 0x301u16) by (bit_vector);
    if big {
        r.set(3, LINK_DUMP_REQUEST_LEN as u8);
        r.set(4, (RTM_GETLINK / 256) as u8);
        r.set(5, (RTM_GETLINK % 256) as u8);
        r.set(6, (flags / 256) as u8);
        r.set(7, (flags % 256) as u8);
    } else {
        r.set(0, LINK_DUMP_REQUEST_LEN as u8);
        r.set(4, (RTM_GETLINK % 256) as u8);
        r.set(5, (RTM_GETLINK / 256) as u8);
        r.set(6, (flags % 256) as u8);
        r.set(7, (flags / 256) as u8);
    }
    assert(r@ =~= link_dump_request_bytes(big));
    r
}

/// Decoding the request gives back what it asks for: a header as long as
/// the request, of type `RTM_GETLINK`, with the request and dump flags set
/// and the interrupted flag clear.
pub proof fn lemma_link_dump_request_decodes(big: bool)
    ensures
        link_dump_request_bytes(big).len() == LINK_DUMP_REQUEST_LEN,
        ne32(link_dump_request_bytes(big), 0, big) == LINK_DUMP_REQUEST_LEN,
        ne16(link_dump_request_bytes(big), 4, big) == RTM_GETLINK,
        ne16(link_dump_request_bytes(big), 6, big) == (NLM_F_DUMP | NLM_F_REQUEST) as int,
        flags_low(link_dump_request_bytes(big), 0, big) & 0x10u8 == 0u8,
        link_dump_request_bytes(big)[16] == 0,
{
    assert((NLM_F_DUMP | NLM_F_REQUEST) == 0x301u16) by (bit_vector);
    assert(1u8 & 0x10u8 == 0u8) by (bit_vector);
}

fn read_payload_byte(b: &[u8], start: usize, n: usize, i: usize) -> (r: u64)
    requires
        start + n <= b.len(),
    ensures
        r == payload_byte(b@, start as int, n as int, i as int),
        r < 256,
{
    if i < n {
        b[start + i] as u64
    } else {
        0
    }
}

fn read_payload_u64(b: &[u8], start: usize, n: usize, k: usize, big: bool) -> (r: u64)
    requires
        start + n <= b.len(),
        k + 8 <= usize::MAX,
    ensures
        r == payload_u64(b@, start as int, n as int, k as int, big),
{
    let x7 = read_payload_byte(b, start, n, k + 7);
    let x6 = read_payload_byte(b, start, n, k + 6);
    let x5 = read_payload_byte(b, start, n, k + 5);
    let x4 = read_payload_byte(b, start, n, k + 4);
    let x3 = read_payload_byte(b, start, n, k + 3);
    let x2 = read_payload_byte(b, start, n, k + 2);
    let x1 = read_payload_byte(b, start, n, k + 1);
    let x0 = read_payload_byte(b, start, n, k);
    if big {
        let v6 = x1 + 256 * x0;
        let v5 = x2 + 256 * v6;
        let v4 = x3 + 256 * v5;
        let v3 = x4 + 256 * v4;
        let v2 = x5 + 256 * v3;
        let v1 = x6 + 256 * v2;
        x7 + 256 * v1
    } else {
        let v6 = x6 + 256 * x7;
        let v5 = x5 + 256 * v6;
        let v4 = x4 + 256 * v5;
        let v3 = x3 + 256 * v4;
        let v2 = x2 + 256 * v3;
        let v1 = x1 + 256 * v2;
        x0 + 256 * v1
    }
}

/// The totals of an attribute walk are never below where it started.
pub proof fn lemma_attr_walk_monotone(b: Seq<u8>, base: int, len: int, a: int, rx: int, tx: int, big: bool)
    ensures
        attr_walk(b, base, len, a, rx, tx, big).1 >= rx,
        attr_walk(b, base, len, a, rx, tx, big).2 >= tx,
    decreases (if a > len { 0 } else { len - a + 1 }),
{
    if a + 4 <= len {
        let rta_len = ne16(b, base + a, big);
        let rta_type = ne16(b, base + a + 2, big);
        if rta_len != 0 {
            if a + rta_len <= len && rta_type == IFLA_STATS64 {
                if rta_len >= 4 {
                    let start = base + a + 4;
                    let n = stats_copy_len(rta_len);
                    lemma_attr_walk_monotone(
                        b,
                        base,
                        len,
                        a + align4(rta_len),
                        rx + payload_u64(b, start, n, 16, big),
                        tx + payload_u64(b, start, n, 24, big), big,
                    );
                }
            } else {
                lemma_attr_walk_monotone(b, base, len, a + align4(rta_len), rx, tx, big);
            }
        }
    }
}

/// The totals of a dump walk are never below where it started.
pub proof fn lemma_dump_walk_monotone(b: Seq<u8>, off: int, rx: int, tx: int, big: bool)
    ensures
        dump_walk(b, off, rx, tx, big).1 >= rx,
        dump_walk(b, off, rx, tx, big).2 >= tx,
    decreases (if off > b.len() { 0 } else { b.len() - off + 1 }),
{
    if off >= 0 && off + 16 <= b.len() {
        let len = ne32(b, off, big);
        let msg_type = ne16(b, off + 4, big);
        if msg_type == RTM_NEWLINK {
            lemma_attr_walk_monotone(b, off, len, 32, rx, tx, big);
        }
        let step = if msg_type == RTM_NEWLINK {
            attr_walk(b, off, len, 32, rx, tx, big)
        } else {
            (true, rx, tx)
        };
        if off + len <= b.len() && step.0 && len != 0 {
            lemma_dump_walk_monotone(b, off + align4(len), step.1, step.2, big);
        }
    }
}

/// What the attributes of a message add to the totals does not depend on
/// the totals they are added to.
pub proof fn lemma_attr_walk_additive(b: Seq<u8>, base: int, len: int, a: int, rx: int, tx: int, big: bool)
    ensures
        attr_walk(b, base, len, a, rx, tx, big) == (
            attr_walk(b, base, len, a, 0, 0, big).0,
            rx + attr_walk(b, base, len, a, 0, 0, big).1,
            tx + attr_walk(b, base, len, a, 0, 0, big).2,
        ),
    decreases (if a > len { 0 } else { len - a + 1 }),
{
    if a + 4 <= len {
        let rta_len = ne16(b, base + a, big);
        let rta_type = ne16(b, base + a + 2, big);
        if rta_len != 0 {
            if a + rta_len <= len && rta_type == IFLA_STATS64 {
                if rta_len >= 4 {
                    let start = base + a + 4;
                    let n = stats_copy_len(rta_len);
                    let dx = payload_u64(b, start, n, 16, big);
                    let dy = payload_u64(b, start, n, 24, big);
                    lemma_align4(rta_len);
                    lemma_attr_walk_additive(b, base, len, a + align4(rta_len), rx + dx, tx + dy, big);
                    lemma_attr_walk_additive(b, base, len, a + align4(rta_len), dx, dy, big);
                }
            } else {
                assert(rta_len >= 1) by {
                    assert(b[base + a] >= 0 && b[base + a + 1] >= 0);
                }
                lemma_align4(rta_len);
                lemma_attr_walk_additive(b, base, len, a + align4(rta_len), rx, tx, big);
            }
        }
    }
}

/// What a received buffer adds to the totals, and how its walk ends, do not
/// depend on the totals it continues from: the links of a dump can be
/// counted buffer by buffer.
pub proof fn lemma_dump_walk_additive(b: Seq<u8>, off: int, rx: int, tx: int, big: bool)
    ensures
        dump_walk(b, off, rx, tx, big) == (
            dump_walk(b, off, 0, 0, big).0,
            rx + dump_walk(b, off, 0, 0, big).1,
            tx + dump_walk(b, off, 0, 0, big).2,
        ),
    decreases (if off > b.len() { 0 } else { b.len() - off + 1 }),
{
    if off >= 0 && off + 16 <= b.len() {
        let len = ne32(b, off, big);
        let msg_type = ne16(b, off + 4, big);
        if msg_type == RTM_NEWLINK {
            lemma_attr_walk_additive(b, off, len, 32, rx, tx, big);
        }
        let step = if msg_type == RTM_NEWLINK {
            attr_walk(b, off, len, 32, rx, tx, big)
        } else {
            (true, rx, tx)
        };
        let step0 = if msg_type == RTM_NEWLINK {
            attr_walk(b, off, len, 32, 0, 0, big)
        } else {
            (true, 0int, 0int)
        };
        if off + len <= b.len() && step.0 && len != 0 {
            lemma_align4(len);
            lemma_dump_walk_additive(b, off + align4(len), step.1, step.2, big);
            lemma_dump_walk_additive(b, off + align4(len), step0.1, step0.2, big);
        }
    }
}

/// The received and sent byte counts of the statistics attributes that an
/// attribute walk from offset `a` adds, in order: the `IFLA_STATS64`
/// attributes that lie wholly inside the message, up to where the walk
/// stops.
pub open spec fn attr_stats(b: Seq<u8>, base: int, len: int, a: int, big: bool) -> Seq<(int, int)>
    decreases (if a > len { 0 } else { len - a + 1 }),
{
    if a + 4 > len {
        Seq::empty()
    } else {
        let rta_len = ne16(b, base + a, big);
        let rta_type = ne16(b, base + a + 2, big);
        if rta_len == 0 {
            Seq::empty()
        } else if a + rta_len <= len && rta_type == IFLA_STATS64 {
            if rta_len < 4 {
                Seq::empty()
            } else {
                let start = base + a + 4;
                let n = stats_copy_len(rta_len);
                proof {
                    lemma_align4(rta_len);
                }
                seq![(payload_u64(b, start, n, 16, big), payload_u64(b, start, n, 24, big))] + attr_stats(
                    b,
                    base,
                    len,
                    a + align4(rta_len), big,
                )
            }
        } else {
            proof {
                assert(rta_len >= 1) by {
                    assert(b[base + a] >= 0 && b[base + a + 1] >= 0);
                }
                lemma_align4(rta_len);
            }
            attr_stats(b, base, len, a + align4(rta_len), big)
        }
    }
}

/// The received and sent byte counts of the statistics attributes of the
/// `RTM_NEWLINK` messages that a dump walk from offset `off` adds, in order,
/// up to where the walk stops.
pub open spec fn dump_stats(b: Seq<u8>, off: int, big: bool) -> Seq<(int, int)>
    decreases (if off > b.len() { 0 } else { b.len() - off + 1 }),
{
    if off < 0 || off + 16 > b.len() {
        Seq::empty()
    } else {
        let len = ne32(b, off, big);
        let msg_type = ne16(b, off + 4, big);
        if flags_low(b, off, big) & 0x10u8 != 0u8 || msg_type == NLMSG_DONE || msg_type == NLMSG_ERROR
            || off + len > b.len() {
            Seq::empty()
        } else {
            let ok = if msg_type == RTM_NEWLINK {
                attr_walk(b, off, len, 32, 0, 0, big).0
            } else {
                true
            };
            let here = if msg_type == RTM_NEWLINK {
                attr_stats(b, off, len, 32, big)
            } else {
                Seq::empty()
            };
            if !ok || len == 0 {
                here
            } else {
                proof {
                    lemma_align4(len);
                }
                here + dump_stats(b, off + align4(len), big)
            }
        }
    }
}

/// The sum of the first counts of `s`.
pub open spec fn sum_first(s: Seq<(int, int)>) -> int
    decreases s.len(),
{
    if s.len() == 0 {
        0
    } else {
        s[0].0 + sum_first(s.drop_first())
    }
}

/// The sum of the second counts of `s`.
pub open spec fn sum_second(s: Seq<(int, int)>) -> int
    decreases s.len(),
{
    if s.len() == 0 {
        0
    } else {
        s[0].1 + sum_second(s.drop_first())
    }
}

/// Summing a concatenation sums its two parts.
pub proof fn lemma_sums_concat(s: Seq<(int, int)>, t: Seq<(int, int)>)
    ensures
        sum_first(s + t) == sum_first(s) + sum_first(t),
        sum_second(s + t) == sum_second(s) + sum_second(t),
    decreases s.len(),
{
    if s.len() > 0 {
        assert((s + t).drop_first() =~= s.drop_first() + t);
        lemma_sums_concat(s.drop_first(), t);
    } else {
        assert(s + t =~= t);
    }
}

/// An attribute walk adds exactly the counts of the statistics attributes
/// it passes.
pub proof fn lemma_attr_walk_sums(b: Seq<u8>, base: int, len: int, a: int, rx: int, tx: int, big: bool)
    ensures
        attr_walk(b, base, len, a, rx, tx, big).1 == rx + sum_first(attr_stats(b, base, len, a, big)),
        attr_walk(b, base, len, a, rx, tx, big).2 == tx + sum_second(attr_stats(b, base, len, a, big)),
    decreases (if a > len { 0 } else { len - a + 1 }),
{
    if a + 4 <= len {
        let rta_len = ne16(b, base + a, big);
        let rta_type = ne16(b, base + a + 2, big);
        if rta_len != 0 {
            if a + rta_len <= len && rta_type == IFLA_STATS64 {
                if rta_len >= 4 {
                    let start = base + a + 4;
                    let n = stats_copy_len(rta_len);
                    let dx = payload_u64(b, start, n, 16, big);
                    let dy = payload_u64(b, start, n, 24, big);
                    lemma_align4(rta_len);
                    let rest = attr_stats(b, base, len, a + align4(rta_len), big);
                    lemma_attr_walk_sums(b, base, len, a + align4(rta_len), rx + dx, tx + dy, big);
                    lemma_sums_concat(seq![(dx, dy)], rest);
                    assert(seq![(dx, dy)].drop_first() =~= Seq::<(int, int)>::empty());
                    assert(sum_first(Seq::<(int, int)>::empty()) == 0);
                    assert(sum_second(Seq::<(int, int)>::empty()) == 0);
                    assert(sum_first(seq![(dx, dy)]) == dx);
                    assert(sum_second(seq![(dx, dy)]) == dy);
                }
            } else {
                assert(rta_len >= 1) by {
                    assert(b[base + a] >= 0 && b[base + a + 1] >= 0);
                }
                lemma_align4(rta_len);
                lemma_attr_walk_sums(b, base, len, a + align4(rta_len), rx, tx, big);
            }
        }
    }
}

/// A dump walk adds exactly the counts of the statistics attributes of the
/// link messages it passes: the totals of a dump are the sums of
/// `rx_bytes` and `tx_bytes` over those attributes.
pub proof fn lemma_dump_walk_sums(b: Seq<u8>, off: int, rx: int, tx: int, big: bool)
    ensures
        dump_walk(b, off, rx, tx, big).1 == rx + sum_first(dump_stats(b, off, big)),
        dump_walk(b, off, rx, tx, big).2 == tx + sum_second(dump_stats(b, off, big)),
    decreases (if off > b.len() { 0 } else { b.len() - off + 1 }),
{
    if off >= 0 && off + 16 <= b.len() {
        let len = ne32(b, off, big);
        let msg_type = ne16(b, off + 4, big);
        if !(flags_low(b, off, big) & 0x10u8 != 0u8 || msg_type == NLMSG_DONE || msg_type == NLMSG_ERROR
            || off + len > b.len()) {
            let here = if msg_type == RTM_NEWLINK {
                attr_stats(b, off, len, 32, big)
            } else {
                Seq::empty()
            };
            if msg_type == RTM_NEWLINK {
                lemma_attr_walk_sums(b, off, len, 32, rx, tx, big);
                lemma_attr_walk_additive(b, off, len, 32, rx, tx, big);
            }
            let step = if msg_type == RTM_NEWLINK {
                attr_walk(b, off, len, 32, rx, tx, big)
            } else {
                (true, rx, tx)
            };
            if step.0 && len != 0 {
                lemma_align4(len);
                lemma_dump_walk_sums(b, off + align4(len), step.1, step.2, big);
                lemma_sums_concat(here, dump_stats(b, off + align4(len), big));
            }
        }
    }
}

/// The totals that a buffer of the link dump leads to are the totals it
/// continues from plus the `rx_bytes` and `tx_bytes` of the statistics
/// attributes of its link messages.
pub proof fn lemma_link_dump_totals(stats: LinkStatistics, b: Seq<u8>, big: bool)
    ensures
        link_dump_step(stats, b, big) matches LinkDumpStep::Complete(t) ==> t.read_bytes
            == stats.read_bytes + sum_first(dump_stats(b, 0, big)) && t.write_bytes
            == stats.write_bytes + sum_second(dump_stats(b, 0, big)),
        link_dump_step(stats, b, big) matches LinkDumpStep::Pending(t) ==> t.read_bytes
            == stats.read_bytes + sum_first(dump_stats(b, 0, big)) && t.write_bytes
            == stats.write_bytes + sum_second(dump_stats(b, 0, big)),
{
    lemma_dump_walk_sums(b, 0, stats.read_bytes as int, stats.write_bytes as int, big);
    lemma_dump_walk_monotone(b, 0, stats.read_bytes as int, stats.write_bytes as int, big);
}

/// A dump of one link ends with that link's counters added: a buffer that
/// holds an `RTM_NEWLINK` message whose only attribute after the
/// `ifinfomsg` is an `IFLA_STATS64` attribute of any length from 36 bytes
/// (header and the first four counters) up, followed by `NLMSG_DONE`,
/// completes the dump with `rx_bytes` (payload offset 16) and `tx_bytes`
/// (payload offset 24) added to the totals it continues from.
pub proof fn lemma_one_link_dump(stats: LinkStatistics, b: Seq<u8>, big: bool, len: int, rta_len: int)
    requires
        ne32(b, 0, big) == len,
        ne16(b, 4, big) == RTM_NEWLINK,
        flags_low(b, 0, big) & 0x10u8 == 0u8,
        ne16(b, 32, big) == rta_len,
        ne16(b, 34, big) == IFLA_STATS64,
        36 <= rta_len,
        32 + rta_len <= len < 36 + align4(rta_len),
        align4(len) + 16 <= b.len(),
        ne16(b, align4(len) + 4, big) == NLMSG_DONE,
        flags_low(b, align4(len), big) & 0x10u8 == 0u8,
        stats.read_bytes + ne64(b, 52, big) <= u64::MAX,
        stats.write_bytes + ne64(b, 60, big) <= u64::MAX,
    ensures
        link_dump_step(stats, b, big) == LinkDumpStep::Complete(
            LinkStatistics {
                read_bytes: (stats.read_bytes + ne64(b, 52, big)) as u64,
                write_bytes: (stats.write_bytes + ne64(b, 60, big)) as u64,
            },
        ),
{
    lemma_align4(rta_len);
    lemma_align4(len);
    let n = stats_copy_len(rta_len);
    assert(n >= 32);
    assert forall|k: int| 0 <= k < 32 implies payload_byte(b, 36, n, k) == b[36 + k] by {}
    assert(payload_u64(b, 36, n, 16, big) == ne64(b, 52, big));
    assert(payload_u64(b, 36, n, 24, big) == ne64(b, 60, big));
    let rx = stats.read_bytes as int;
    let tx = stats.write_bytes as int;
    let x = ne64(b, 52, big);
    let y = ne64(b, 60, big);
    assert(attr_walk(b, 0, len, 32 + align4(rta_len), rx + x, tx + y, big) == (true, rx + x, tx
        + y));
    assert(attr_walk(b, 0, len, 32, rx, tx, big) == (true, rx + x, tx + y));
    assert(NLMSG_DONE != NLMSG_ERROR);
    assert(dump_walk(b, align4(len), rx + x, tx + y, big) == (DumpStatus::Complete, rx + x, tx + y));
    assert(dump_walk(b, 0, rx, tx, big) == (DumpStatus::Complete, rx + x, tx + y));
}

/// How each message decides a dump walk: an interrupted dump, an error
/// message or a message running past the buffer fails it; `NLMSG_DONE`
/// completes it with the totals reached; any other whole message is passed
/// over (its link statistics added) to the next one.
pub proof fn lemma_dump_walk_step(b: Seq<u8>, off: int, rx: int, tx: int, big: bool)
    requires
        0 <= off,
        off + 16 <= b.len(),
    ensures
        flags_low(b, off, big) & 0x10u8 != 0u8 ==> dump_walk(b, off, rx, tx, big).0 is Failed,
        flags_low(b, off, big) & 0x10u8 == 0u8 && ne16(b, off + 4, big) == NLMSG_DONE ==> dump_walk(b, off, rx, tx, big)
            == (DumpStatus::Complete, rx, tx),
        flags_low(b, off, big) & 0x10u8 == 0u8 && ne16(b, off + 4, big) == NLMSG_ERROR ==> dump_walk(
            b,
            off,
            rx,
            tx, big,
        ).0 is Failed,
        flags_low(b, off, big) & 0x10u8 == 0u8 && ne16(b, off + 4, big) != NLMSG_DONE && ne16(b, off + 4, big)
            != NLMSG_ERROR && off + ne32(b, off, big) > b.len() ==> dump_walk(b, off, rx, tx, big).0 is Failed,
        flags_low(b, off, big) & 0x10u8 == 0u8 && ne16(b, off + 4, big) != NLMSG_DONE && ne16(b, off + 4, big)
            != NLMSG_ERROR && ne16(b, off + 4, big) != RTM_NEWLINK && ne32(b, off, big) != 0 && off + ne32(
            b,
            off, big,
        ) <= b.len() ==> dump_walk(b, off, rx, tx, big) == dump_walk(
            b,
            off + align4(ne32(b, off, big)),
            rx,
            tx, big,
        ),
{
}

/// A failed walk makes the buffer fail the dump with `NetlinkFailed`, and no
/// totals, unless a total went beyond `u64::MAX` first.
pub proof fn lemma_failed_walk_fails_dump(stats: LinkStatistics, b: Seq<u8>, big: bool)
    requires
        dump_walk(b, 0, stats.read_bytes as int, stats.write_bytes as int, big).0 is Failed,
        dump_walk(b, 0, stats.read_bytes as int, stats.write_bytes as int, big).1 <= u64::MAX,
        dump_walk(b, 0, stats.read_bytes as int, stats.write_bytes as int, big).2 <= u64::MAX,
    ensures
        link_dump_step(stats, b, big) == LinkDumpStep::Failed(SlaccStatsError::NetlinkFailed),
{
}

/// Reads the messages of one buffer received from the link dump, adding the
/// received and sent bytes of every link to `stats`.
#[verifier::rlimit(50)]
pub fn receive_link_dump(stats: LinkStatistics, buffer: &[u8], big: bool) -> (r: LinkDumpStep)
    ensures
        r == link_dump_step(stats, buffer@, big),
{
    let ghost b = buffer@;
    let ghost rx0 = stats.read_bytes as int;
    let ghost tx0 = stats.write_bytes as int;
    let total = buffer.len();
    let mut off: usize = 0;
    let mut rx: u64 = stats.read_bytes;
    let mut tx: u64 = stats.write_bytes;
    while off <= total && total - off >= NLMSG_HEADER_LEN
        invariant
            total == b.len(),
            b == buffer@,
            rx0 == stats.read_bytes,
            tx0 == stats.write_bytes,
            off <= total,
            dump_walk(b, off as int, rx as int, tx as int, big) == dump_walk(b, 0, rx0, tx0, big),
        decreases total - off,
    {
        let len = read_ne32(buffer, off, big);
        let msg_type = read_ne16(buffer, off + 4, big);
        if buffer[if big { off + 7 } else { off + 6 }] & 0x10u8 != 0u8 {
            return LinkDumpStep::Failed(SlaccStatsError::NetlinkFailed);
        }
        if msg_type == NLMSG_DONE {
            return LinkDumpStep::Complete(LinkStatistics { read_bytes: rx, write_bytes: tx });
        }
        if msg_type == NLMSG_ERROR {
            return LinkDumpStep::Failed(SlaccStatsError::NetlinkFailed);
        }
        if len > (total - off) as u64 {
            return LinkDumpStep::Failed(SlaccStatsError::NetlinkFailed);
        }
        let len = len as usize;
        let ghost rx_m = rx as int;
        let ghost tx_m = tx as int;
        if msg_type == RTM_NEWLINK {
            let mut a: usize = LINK_ATTRIBUTES_OFFSET;
            while a <= len && len - a >= RTATTR_HEADER_LEN
                invariant
                    total == b.len(),
                    b == buffer@,
                    rx0 == stats.read_bytes,
                    tx0 == stats.write_bytes,
                    off + len <= total,
                    off + 16 <= total,
                    flags_low(b, off as int, big) & 0x10u8 == 0u8,
                    a <= len || a == LINK_ATTRIBUTES_OFFSET,
                    len == ne32(b, off as int, big),
                    ne16(b, off + 4, big) == RTM_NEWLINK,
                    dump_walk(b, off as int, rx_m, tx_m, big) == dump_walk(b, 0, rx0, tx0, big),
                    attr_walk(b, off as int, len as int, a as int, rx as int, tx as int, big)
                        == attr_walk(b, off as int, len as int, 32, rx_m, tx_m, big),
                decreases len - a,
            {
                let ghost a_old = a as int;
                let ghost rx_old = rx as int;
                let ghost tx_old = tx as int;
                let rta_len = read_ne16(buffer, off + a, big);
                let rta_type = read_ne16(buffer, off + a + 2, big);
                if rta_len == 0 {
                    return LinkDumpStep::Failed(SlaccStatsError::NetlinkFailed);
                }
                let step = align4_exec(rta_len as usize);
                proof {
                    lemma_align4(rta_len as int);
                }
                if (rta_len as usize) <= len - a && rta_type == IFLA_STATS64 {
                    if (rta_len as usize) < RTATTR_HEADER_LEN {
                        return LinkDumpStep::Failed(SlaccStatsError::NetlinkFailed);
                    }
                    let start = off + a + RTATTR_HEADER_LEN;
                    let n = if (rta_len as usize) - RTATTR_HEADER_LEN < LINK_STATS64_LEN {
                        (rta_len as usize) - RTATTR_HEADER_LEN
                    } else {
                        LINK_STATS64_LEN
                    };
                    let rx_add = read_payload_u64(buffer, start, n, STATS_RX_BYTES_OFFSET, big);
                    let tx_add = read_payload_u64(buffer, start, n, STATS_TX_BYTES_OFFSET, big);
                    proof {
                        lemma_attr_walk_monotone(
                            b,
                            off as int,
                            len as int,
                            a + align4(rta_len as int),
                            rx + rx_add,
                            tx + tx_add, big,
                        );
                        lemma_attr_walk_monotone(b, off as int, len as int, 32, rx_m, tx_m, big);
                        let st = attr_walk(b, off as int, len as int, 32, rx_m, tx_m, big);
                        if st.0 && len != 0 {
                            lemma_dump_walk_monotone(b, off + align4(len as int), st.1, st.2, big);
                        }
                    }
                    match rx.checked_add(rx_add) {
                        Some(v) => {
                            rx = v;
                        },
                        None => {
                            return LinkDumpStep::CounterOverflow;
                        },
                    }
                    match tx.checked_add(tx_add) {
                        Some(v) => {
                            tx = v;
                        },
                        None => {
                            return LinkDumpStep::CounterOverflow;
                        },
                    }
                }
                assert(attr_walk(b, off as int, len as int, a_old, rx_old, tx_old, big) == attr_walk(
                    b,
                    off as int,
                    len as int,
                    a_old + align4(rta_len as int),
                    rx as int,
                    tx as int, big,
                ));
                if step > len - a {
                    assert(attr_walk(
                        b,
                        off as int,
                        len as int,
                        a_old + align4(rta_len as int),
                        rx as int,
                        tx as int, big,
                    ) == (true, rx as int, tx as int));
                    a = len;
                    assert(attr_walk(b, off as int, len as int, a as int, rx as int, tx as int, big) == (
                        true,
                        rx as int,
                        tx as int,
                    ));
                } else {
                    a = a + step;
                }
            }
            assert(attr_walk(b, off as int, len as int, a as int, rx as int, tx as int, big) == (
                true,
                rx as int,
                tx as int,
            ));
        }
        proof {
            let st = attr_walk(b, off as int, len as int, 32, rx_m, tx_m, big);
            if msg_type == RTM_NEWLINK && st.0 && len != 0 {
                lemma_dump_walk_monotone(b, off + align4(len as int), st.1, st.2, big);
            }
        }
        if len == 0 {
            return LinkDumpStep::Failed(SlaccStatsError::NetlinkFailed);
        }
        let pad = (4 - len % 4) % 4;
        assert(dump_walk(b, off as int, rx_m, tx_m, big) == dump_walk(
            b,
            off + align4(len as int),
            rx as int,
            tx as int, big,
        ));
        if pad > total - off - len {
            assert(dump_walk(b, off + align4(len as int), rx as int, tx as int, big) == (
                DumpStatus::Pending,
                rx as int,
                tx as int,
            ));
            return LinkDumpStep::Pending(LinkStatistics { read_bytes: rx, write_bytes: tx });
        }
        off = off + len + pad;
    }
    LinkDumpStep::Pending(LinkStatistics { read_bytes: rx, write_bytes: tx })
}

} // verus!
