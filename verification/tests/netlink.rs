use slacc::linux::{
    link_dump_request, receive_link_dump, LinkDumpStep, LinkStatistics, IFLA_STATS64,
    LINK_DUMP_REQUEST_LEN, NLMSG_DONE, NLMSG_ERROR, NLM_F_DUMP, NLM_F_DUMP_INTR,
    NLM_F_REQUEST, RTM_GETLINK, RTM_NEWLINK,
};
use slacc::SlaccStatsError;

fn pad4(v: &mut Vec<u8>) {
    while v.len() % 4 != 0 {
        v.push(0);
    }
}

fn message(msg_type: u16, flags: u16, payload: &[u8]) -> Vec<u8> {
    let len = (16 + payload.len()) as u32;
    let mut m = Vec::new();
    m.extend_from_slice(&len.to_le_bytes());
    m.extend_from_slice(&msg_type.to_le_bytes());
    m.extend_from_slice(&flags.to_le_bytes());
    m.extend_from_slice(&[0u8; 8]);
    m.extend_from_slice(payload);
    pad4(&mut m);
    m
}

fn attribute(attr_type: u16, data: &[u8]) -> Vec<u8> {
    let len = (4 + data.len()) as u16;
    let mut a = Vec::new();
    a.extend_from_slice(&len.to_le_bytes());
    a.extend_from_slice(&attr_type.to_le_bytes());
    a.extend_from_slice(data);
    pad4(&mut a);
    a
}

fn stats64(rx: u64, tx: u64) -> Vec<u8> {
    let mut s = vec![0u8; 192];
    s[0..8].copy_from_slice(&7u64.to_le_bytes());
    s[16..24].copy_from_slice(&rx.to_le_bytes());
    s[24..32].copy_from_slice(&tx.to_le_bytes());
    s
}

fn link(rx: u64, tx: u64) -> Vec<u8> {
    let mut payload = vec![0u8; 16];
    payload.extend(attribute(3, b"eth0\0"));
    payload.extend(attribute(IFLA_STATS64, &stats64(rx, tx)));
    message(RTM_NEWLINK, 2, &payload)
}

fn receive_link_dump_le(stats: LinkStatistics, b: &[u8]) -> LinkDumpStep {
    receive_link_dump(stats, b, false)
}

fn zero() -> LinkStatistics {
    LinkStatistics { read_bytes: 0, write_bytes: 0 }
}

#[test]
fn constants_agree_with_the_kernel_headers() {
    assert_eq!(NLMSG_DONE as i32, libc::NLMSG_DONE);
    assert_eq!(NLMSG_ERROR as i32, libc::NLMSG_ERROR);
    assert_eq!(NLM_F_REQUEST as i32, libc::NLM_F_REQUEST);
    assert_eq!(NLM_F_DUMP as i32, libc::NLM_F_DUMP);
    assert_eq!(NLM_F_DUMP_INTR as i32, libc::NLM_F_DUMP_INTR);
    assert_eq!(RTM_NEWLINK, libc::RTM_NEWLINK);
    assert_eq!(RTM_GETLINK, libc::RTM_GETLINK);
    assert_eq!(IFLA_STATS64, libc::IFLA_STATS64);
    assert_eq!(std::mem::size_of::<libc::nlmsghdr>(), 16);
}

#[test]
fn link_dump_request_is_a_dump_of_all_links() {
    let r = link_dump_request(false);
    assert_eq!(r.len(), LINK_DUMP_REQUEST_LEN);
    assert_eq!(u32::from_le_bytes([r[0], r[1], r[2], r[3]]), 20);
    assert_eq!(u16::from_le_bytes([r[4], r[5]]), libc::RTM_GETLINK);
    assert_eq!(
        u16::from_le_bytes([r[6], r[7]]) as i32,
        libc::NLM_F_DUMP | libc::NLM_F_REQUEST
    );
    assert_eq!(r[16], libc::AF_UNSPEC as u8);
    assert!(r[8..].iter().all(|b| *b == 0));
}

#[test]
fn links_are_added_up_until_done() {
    let mut b = link(100, 10);
    b.extend(link(200, 20));
    b.extend(message(NLMSG_DONE, 2, &[0u8; 4]));
    assert_eq!(
        receive_link_dump_le(zero(), &b),
        LinkDumpStep::Complete(LinkStatistics { read_bytes: 300, write_bytes: 30 })
    );
}

#[test]
fn a_dump_continues_over_several_buffers() {
    let first = link(5, 6);
    let step = receive_link_dump_le(zero(), &first);
    let stats = match step {
        LinkDumpStep::Pending(s) => s,
        other => panic!("unexpected {:?}", other),
    };
    assert_eq!(stats, LinkStatistics { read_bytes: 5, write_bytes: 6 });
    let mut second = link(1, 2);
    second.extend(message(NLMSG_DONE, 2, &[0u8; 4]));
    assert_eq!(
        receive_link_dump_le(stats, &second),
        LinkDumpStep::Complete(LinkStatistics { read_bytes: 6, write_bytes: 8 })
    );
}

#[test]
fn an_empty_buffer_leaves_the_dump_pending() {
    let s = LinkStatistics { read_bytes: 3, write_bytes: 4 };
    assert_eq!(receive_link_dump_le(s, &[]), LinkDumpStep::Pending(s));
    assert_eq!(receive_link_dump_le(s, &[1, 2, 3]), LinkDumpStep::Pending(s));
}

#[test]
fn an_error_message_fails_the_dump() {
    let mut b = link(1, 1);
    b.extend(message(NLMSG_ERROR, 0, &[0u8; 20]));
    assert_eq!(
        receive_link_dump_le(zero(), &b),
        LinkDumpStep::Failed(SlaccStatsError::NetlinkFailed)
    );
}

#[test]
fn an_interrupted_dump_fails() {
    let b = message(RTM_NEWLINK, 2 | NLM_F_DUMP_INTR, &[0u8; 16]);
    assert_eq!(
        receive_link_dump_le(zero(), &b),
        LinkDumpStep::Failed(SlaccStatsError::NetlinkFailed)
    );
}

#[test]
fn a_message_past_the_buffer_fails() {
    let mut b = link(1, 1);
    let n = b.len();
    b.truncate(n - 8);
    assert_eq!(
        receive_link_dump_le(zero(), &b),
        LinkDumpStep::Failed(SlaccStatsError::NetlinkFailed)
    );
}

#[test]
fn a_message_of_length_zero_fails() {
    let mut b = vec![0u8; 16];
    b[4] = RTM_NEWLINK as u8;
    assert_eq!(
        receive_link_dump_le(zero(), &b),
        LinkDumpStep::Failed(SlaccStatsError::NetlinkFailed)
    );
}

#[test]
fn other_messages_are_skipped() {
    let mut b = message(20, 2, &[9u8; 12]);
    b.extend(link(4, 5));
    b.extend(message(NLMSG_DONE, 2, &[]));
    assert_eq!(
        receive_link_dump_le(zero(), &b),
        LinkDumpStep::Complete(LinkStatistics { read_bytes: 4, write_bytes: 5 })
    );
}

#[test]
fn a_short_statistics_attribute_reads_missing_fields_as_zero() {
    let full = stats64(77, 88);
    let mut payload = vec![0u8; 16];
    payload.extend(attribute(IFLA_STATS64, &full[..24]));
    let mut b = message(RTM_NEWLINK, 2, &payload);
    b.extend(message(NLMSG_DONE, 2, &[]));
    assert_eq!(
        receive_link_dump_le(zero(), &b),
        LinkDumpStep::Complete(LinkStatistics { read_bytes: 77, write_bytes: 0 })
    );
}

#[test]
fn an_attribute_of_length_zero_fails() {
    let mut payload = vec![0u8; 16];
    payload.extend_from_slice(&[0, 0, 1, 0]);
    let b = message(RTM_NEWLINK, 2, &payload);
    assert_eq!(
        receive_link_dump_le(zero(), &b),
        LinkDumpStep::Failed(SlaccStatsError::NetlinkFailed)
    );
}

#[test]
fn a_total_beyond_u64_is_reported() {
    let s = LinkStatistics { read_bytes: u64::MAX - 5, write_bytes: 0 };
    let b = link(10, 1);
    assert_eq!(receive_link_dump_le(s, &b), LinkDumpStep::CounterOverflow);
}

#[test]
fn what_a_buffer_adds_does_not_depend_on_the_start() {
    let mut b = link(11, 12);
    b.extend(link(13, 14));
    let from_zero = receive_link_dump_le(zero(), &b);
    let from_some = receive_link_dump_le(LinkStatistics { read_bytes: 1000, write_bytes: 2000 }, &b);
    assert_eq!(from_zero, LinkDumpStep::Pending(LinkStatistics { read_bytes: 24, write_bytes: 26 }));
    assert_eq!(
        from_some,
        LinkDumpStep::Pending(LinkStatistics { read_bytes: 1024, write_bytes: 2026 })
    );
}

fn message_be(msg_type: u16, flags: u16, payload: &[u8]) -> Vec<u8> {
    let len = (16 + payload.len()) as u32;
    let mut m = Vec::new();
    m.extend_from_slice(&len.to_be_bytes());
    m.extend_from_slice(&msg_type.to_be_bytes());
    m.extend_from_slice(&flags.to_be_bytes());
    m.extend_from_slice(&[0u8; 8]);
    m.extend_from_slice(payload);
    pad4(&mut m);
    m
}

fn link_be(rx: u64, tx: u64) -> Vec<u8> {
    let mut stats = vec![0u8; 192];
    stats[16..24].copy_from_slice(&rx.to_be_bytes());
    stats[24..32].copy_from_slice(&tx.to_be_bytes());
    let mut payload = vec![0u8; 16];
    payload.extend_from_slice(&((4 + stats.len()) as u16).to_be_bytes());
    payload.extend_from_slice(&IFLA_STATS64.to_be_bytes());
    payload.extend(stats);
    message_be(RTM_NEWLINK, 2, &payload)
}

#[test]
fn big_endian_dumps_are_read_in_their_byte_order() {
    let mut b = link_be(300, 40);
    b.extend(link_be(1, 2));
    b.extend(message_be(NLMSG_DONE, 2, &[0u8; 4]));
    assert_eq!(
        receive_link_dump(zero(), &b, true),
        LinkDumpStep::Complete(LinkStatistics { read_bytes: 301, write_bytes: 42 })
    );
    let interrupted = message_be(RTM_NEWLINK, 2 | NLM_F_DUMP_INTR, &[0u8; 16]);
    assert_eq!(
        receive_link_dump(zero(), &interrupted, true),
        LinkDumpStep::Failed(SlaccStatsError::NetlinkFailed)
    );
}

#[test]
fn big_endian_request() {
    let r = link_dump_request(true);
    assert_eq!(r.len(), LINK_DUMP_REQUEST_LEN);
    assert_eq!(u32::from_be_bytes([r[0], r[1], r[2], r[3]]), 20);
    assert_eq!(u16::from_be_bytes([r[4], r[5]]), RTM_GETLINK);
    assert_eq!(u16::from_be_bytes([r[6], r[7]]), NLM_F_DUMP | NLM_F_REQUEST);
    assert!(r[8..].iter().all(|b| *b == 0));
}
