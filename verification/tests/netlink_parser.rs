//! Decoding netlink datagrams.

use conntrack_exporter::bytes::ByteOrder;
use conntrack_exporter::event::{ConntrackEvent, NatEventType};
use conntrack_exporter::net::Ipv4Addr;
use conntrack_exporter::netlink::constants::{
    CTA_COUNTERS_BYTES, CTA_COUNTERS_ORIG, CTA_COUNTERS_PACKETS, CTA_COUNTERS_REPLY, CTA_IP_V4_DST,
    CTA_IP_V4_SRC, CTA_PROTO_DST_PORT, CTA_PROTO_NUM, CTA_PROTO_SRC_PORT, CTA_STATUS, CTA_TUPLE_IP,
    CTA_TUPLE_ORIG, CTA_TUPLE_PROTO, CTA_TUPLE_REPLY, IPCTNL_MSG_CT_DELETE, IPCTNL_MSG_CT_NEW,
    IPS_DST_NAT, IPS_SRC_NAT, NFNL_SUBSYS_CTNETLINK, NFPROTO_IPV4, NFPROTO_IPV6, NLA_ALIGNTO,
    NLA_HDRLEN, NLMSG_HDRLEN,
};
use conntrack_exporter::netlink::parse_conntrack_messages;
use conntrack_exporter::netlink::parser::{parse_conntrack_messages_in, parse_nla_tree};

const NLA_F_NESTED: u16 = 0x8000;

fn attr(nla_type: u16, payload: &[u8]) -> Vec<u8> {
    let mut out = Vec::with_capacity(NLA_HDRLEN + payload.len() + NLA_ALIGNTO - 1);
    let len = u16::try_from(NLA_HDRLEN + payload.len()).expect("attribute fits in u16");
    out.extend_from_slice(&len.to_ne_bytes());
    out.extend_from_slice(&nla_type.to_ne_bytes());
    out.extend_from_slice(payload);
    while out.len() % NLA_ALIGNTO != 0 {
        out.push(0);
    }
    out
}

fn nested(nla_type: u16, children: &[Vec<u8>]) -> Vec<u8> {
    attr(nla_type | NLA_F_NESTED, &children.concat())
}

fn tuple(
    nla_type: u16,
    src: [u8; 4],
    dst: [u8; 4],
    proto: u8,
    sport: u16,
    dport: u16,
) -> Vec<u8> {
    nested(
        nla_type,
        &[
            nested(
                CTA_TUPLE_IP,
                &[attr(CTA_IP_V4_SRC, &src), attr(CTA_IP_V4_DST, &dst)],
            ),
            nested(
                CTA_TUPLE_PROTO,
                &[
                    attr(CTA_PROTO_NUM, &[proto]),
                    attr(CTA_PROTO_SRC_PORT, &sport.to_be_bytes()),
                    attr(CTA_PROTO_DST_PORT, &dport.to_be_bytes()),
                ],
            ),
        ],
    )
}

fn counters(nla_type: u16, packets: u64, bytes: u64) -> Vec<u8> {
    nested(
        nla_type,
        &[
            attr(CTA_COUNTERS_PACKETS, &packets.to_be_bytes()),
            attr(CTA_COUNTERS_BYTES, &bytes.to_be_bytes()),
        ],
    )
}

fn message(nlmsg_type: u16, family: u8, attrs: &[Vec<u8>]) -> Vec<u8> {
    let mut body = vec![family, 0, 0, 0];
    body.extend_from_slice(&attrs.concat());

    let mut out = Vec::with_capacity(NLMSG_HDRLEN + body.len());
    let len = u32::try_from(NLMSG_HDRLEN + body.len()).expect("message fits in u32");
    out.extend_from_slice(&len.to_ne_bytes());
    out.extend_from_slice(&nlmsg_type.to_ne_bytes());
    out.extend_from_slice(&0u16.to_ne_bytes());
    out.extend_from_slice(&0u32.to_ne_bytes());
    out.extend_from_slice(&0u32.to_ne_bytes());
    out.extend_from_slice(&body);
    while out.len() % NLA_ALIGNTO != 0 {
        out.push(0);
    }
    out
}

fn ct_event(msg_type: u8, family: u8, attrs: &[Vec<u8>]) -> Vec<u8> {
    message(
        (NFNL_SUBSYS_CTNETLINK << 8) | u16::from(msg_type),
        family,
        attrs,
    )
}

fn parse(buf: &[u8]) -> Vec<ConntrackEvent> {
    parse_conntrack_messages(buf)
}

/// SNAT: 192.168.1.10:1234 -> 8.8.8.8:53, source rewritten to 203.0.113.5:40000.
fn snat_event() -> Vec<u8> {
    ct_event(
        IPCTNL_MSG_CT_NEW,
        NFPROTO_IPV4,
        &[
            tuple(CTA_TUPLE_ORIG, [192, 168, 1, 10], [8, 8, 8, 8], 6, 1234, 53),
            tuple(CTA_TUPLE_REPLY, [8, 8, 8, 8], [203, 0, 113, 5], 6, 53, 40000),
            attr(CTA_STATUS, &IPS_SRC_NAT.to_be_bytes()),
            counters(CTA_COUNTERS_ORIG, 7, 700),
            counters(CTA_COUNTERS_REPLY, 9, 900),
        ],
    )
}

#[test]
fn snat_event_reports_the_translated_source() {
    let events = parse(&snat_event());
    assert_eq!(events.len(), 1);
    let e = &events[0];

    assert_eq!(e.nat_event, NatEventType::Create);
    assert_eq!(e.protocol, 6);
    assert_eq!(e.src_ip, Ipv4Addr::new(192, 168, 1, 10));
    assert_eq!(e.src_port, 1234);
    assert_eq!(e.dst_ip, Ipv4Addr::new(8, 8, 8, 8));
    assert_eq!(e.dst_port, 53);

    // The reply tuple's destination is what the source was rewritten to.
    assert_eq!(e.post_nat_src_ip, Ipv4Addr::new(203, 0, 113, 5));
    assert_eq!(e.post_nat_src_port, 40000);
    // The destination was not translated, so it is unchanged.
    assert_eq!(e.post_nat_dst_ip, Ipv4Addr::new(8, 8, 8, 8));
    assert_eq!(e.post_nat_dst_port, 53);

    assert_eq!(e.orig_packets, 7);
    assert_eq!(e.orig_bytes, 700);
    assert_eq!(e.reply_packets, 9);
    assert_eq!(e.reply_bytes, 900);
}

#[test]
fn dnat_event_reports_the_translated_destination() {
    // 10.0.0.1:5000 -> 203.0.113.1:80, destination rewritten to 10.0.0.99:8080.
    let buf = ct_event(
        IPCTNL_MSG_CT_NEW,
        NFPROTO_IPV4,
        &[
            tuple(CTA_TUPLE_ORIG, [10, 0, 0, 1], [203, 0, 113, 1], 6, 5000, 80),
            tuple(CTA_TUPLE_REPLY, [10, 0, 0, 99], [10, 0, 0, 1], 6, 8080, 5000),
            attr(CTA_STATUS, &IPS_DST_NAT.to_be_bytes()),
        ],
    );

    let events = parse(&buf);
    assert_eq!(events.len(), 1);
    let e = &events[0];

    assert_eq!(e.post_nat_dst_ip, Ipv4Addr::new(10, 0, 0, 99));
    assert_eq!(e.post_nat_dst_port, 8080);
    // The source was not translated, so it is reported unchanged rather
    // than being confused with the rewritten destination.
    assert_eq!(e.post_nat_src_ip, Ipv4Addr::new(10, 0, 0, 1));
    assert_eq!(e.post_nat_src_port, 5000);
}

#[test]
fn delete_message_yields_a_delete_event() {
    let buf = ct_event(
        IPCTNL_MSG_CT_DELETE,
        NFPROTO_IPV4,
        &[
            tuple(CTA_TUPLE_ORIG, [192, 168, 1, 10], [8, 8, 8, 8], 17, 1234, 53),
            tuple(CTA_TUPLE_REPLY, [8, 8, 8, 8], [203, 0, 113, 5], 17, 53, 40000),
            attr(CTA_STATUS, &IPS_SRC_NAT.to_be_bytes()),
        ],
    );

    let events = parse(&buf);
    assert_eq!(events.len(), 1);
    assert_eq!(events[0].nat_event, NatEventType::Delete);
}

#[test]
fn events_without_nat_status_are_filtered() {
    let buf = ct_event(
        IPCTNL_MSG_CT_NEW,
        NFPROTO_IPV4,
        &[
            tuple(CTA_TUPLE_ORIG, [10, 0, 0, 1], [10, 0, 0, 2], 6, 1000, 2000),
            tuple(CTA_TUPLE_REPLY, [10, 0, 0, 2], [10, 0, 0, 1], 6, 2000, 1000),
            attr(CTA_STATUS, &0x0000_0188u32.to_be_bytes()),
        ],
    );

    assert!(parse(&buf).is_empty());
}

#[test]
fn events_missing_status_are_filtered() {
    let buf = ct_event(
        IPCTNL_MSG_CT_NEW,
        NFPROTO_IPV4,
        &[tuple(
            CTA_TUPLE_ORIG,
            [10, 0, 0, 1],
            [10, 0, 0, 2],
            6,
            1000,
            2000,
        )],
    );

    assert!(parse(&buf).is_empty());
}

#[test]
fn netlink_control_messages_are_not_events() {
    // NLMSG_ERROR is 0x2, the same low byte as IPCTNL_MSG_CT_DELETE. Without
    // a subsystem check this parses as a NAT session teardown.
    let buf = message(
        0x2,
        NFPROTO_IPV4,
        &[
            tuple(CTA_TUPLE_ORIG, [10, 0, 0, 1], [10, 0, 0, 2], 6, 1000, 2000),
            tuple(CTA_TUPLE_REPLY, [10, 0, 0, 2], [203, 0, 113, 9], 6, 2000, 1000),
            attr(CTA_STATUS, &IPS_SRC_NAT.to_be_bytes()),
        ],
    );

    assert!(parse(&buf).is_empty());
}

#[test]
fn other_nfnetlink_subsystems_are_ignored() {
    // Subsystem 2 is the expectation table; its message type 0 would
    // otherwise look like IPCTNL_MSG_CT_NEW.
    let subsys_ctnetlink_exp: u16 = 2;
    let exp_msg_new: u16 = 0;
    let buf = message(
        (subsys_ctnetlink_exp << 8) | exp_msg_new,
        NFPROTO_IPV4,
        &[
            tuple(CTA_TUPLE_ORIG, [10, 0, 0, 1], [10, 0, 0, 2], 6, 1000, 2000),
            attr(CTA_STATUS, &IPS_SRC_NAT.to_be_bytes()),
        ],
    );

    assert!(parse(&buf).is_empty());
}

#[test]
fn non_ipv4_events_are_skipped() {
    let buf = ct_event(
        IPCTNL_MSG_CT_NEW,
        NFPROTO_IPV6,
        &[attr(CTA_STATUS, &IPS_SRC_NAT.to_be_bytes())],
    );

    assert!(parse(&buf).is_empty());
}

#[test]
fn several_messages_in_one_datagram_are_all_parsed() {
    let mut buf = snat_event();
    buf.extend_from_slice(&snat_event());
    buf.extend_from_slice(&snat_event());

    assert_eq!(parse(&buf).len(), 3);
}

#[test]
fn a_truncated_datagram_yields_only_whole_messages() {
    let mut buf = snat_event();
    let whole = buf.len();
    buf.extend_from_slice(&snat_event());
    buf.truncate(whole + 24); // second message cut mid-attribute

    assert_eq!(parse(&buf).len(), 1);
}

#[test]
fn malformed_input_does_not_panic() {
    // Every prefix of a valid datagram, plus some obvious garbage.
    let valid = snat_event();
    for len in 0..valid.len() {
        parse(&valid[..len]);
    }
    parse(&[0xFF; 64]);
    parse(&[0x00; 64]);

    // A message claiming a length shorter than its own header must not
    // send the parser backwards or into a loop.
    let mut short = snat_event();
    short[0..4].copy_from_slice(&4u32.to_ne_bytes());
    parse(&short);
}

#[test]
fn attributes_with_short_payloads_are_ignored() {
    let buf = ct_event(
        IPCTNL_MSG_CT_NEW,
        NFPROTO_IPV4,
        &[
            nested(
                CTA_TUPLE_ORIG,
                &[nested(
                    CTA_TUPLE_IP,
                    &[
                        attr(CTA_IP_V4_SRC, &[10, 0]),
                        attr(CTA_IP_V4_DST, &[10, 0, 0, 2]),
                    ],
                )],
            ),
            attr(CTA_STATUS, &IPS_SRC_NAT.to_be_bytes()),
        ],
    );

    let events = parse(&buf);
    assert_eq!(events.len(), 1);
    // The truncated source address is left at its default, not read past.
    assert_eq!(events[0].src_ip, Ipv4Addr::unspecified());
    assert_eq!(events[0].dst_ip, Ipv4Addr::new(10, 0, 0, 2));
}

/// Turn a host-order datagram of one SNAT event into the other byte order.
fn swapped(host: &[u8]) -> Vec<u8> {
    let mut out = host.to_vec();
    out[0..4].reverse();
    out[4..6].reverse();
    swap_attributes(&mut out[20..], 0);
    out
}

/// Swap the headers of the attributes in `data`, and of those nested in them.
fn swap_attributes(data: &mut [u8], depth: usize) {
    let mut offset = 0;
    while offset + 4 <= data.len() {
        let len = u16::from_ne_bytes([data[offset], data[offset + 1]]) as usize;
        let kind = u16::from_ne_bytes([data[offset + 2], data[offset + 3]]);
        data[offset..offset + 2].reverse();
        data[offset + 2..offset + 4].reverse();
        if kind & NLA_F_NESTED != 0 && depth < 4 {
            swap_attributes(&mut data[offset + 4..offset + len], depth + 1);
        }
        offset += (len + 3) & !3;
    }
}

#[test]
fn a_datagram_in_the_other_byte_order_reads_the_same() {
    let host = snat_event();
    let (native, other) = if host_is_little() {
        (ByteOrder::Little, ByteOrder::Big)
    } else {
        (ByteOrder::Big, ByteOrder::Little)
    };

    let expected = parse(&host);
    assert_eq!(expected.len(), 1);
    assert_eq!(ByteOrder::native(), native);
    assert_eq!(parse_conntrack_messages_in(&host, native), expected);
    assert_eq!(parse_conntrack_messages_in(&swapped(&host), other), expected);
    assert!(parse_conntrack_messages_in(&host, other).is_empty());
}

fn host_is_little() -> bool {
    1u16.to_ne_bytes() == [1, 0]
}

#[test]
fn a_repeated_attribute_overrides_what_came_before() {
    let buf = ct_event(
        IPCTNL_MSG_CT_NEW,
        NFPROTO_IPV4,
        &[
            tuple(CTA_TUPLE_ORIG, [1, 1, 1, 1], [2, 2, 2, 2], 6, 11, 22),
            nested(
                CTA_TUPLE_ORIG,
                &[nested(CTA_TUPLE_IP, &[attr(CTA_IP_V4_SRC, &[3, 3, 3, 3])])],
            ),
            attr(CTA_STATUS, &IPS_SRC_NAT.to_be_bytes()),
        ],
    );

    let events = parse(&buf);
    assert_eq!(events.len(), 1);
    assert_eq!(events[0].src_ip, Ipv4Addr::new(3, 3, 3, 3));
    assert_eq!(events[0].dst_ip, Ipv4Addr::new(2, 2, 2, 2), "the rest stays");
    assert_eq!(events[0].src_port, 11);
}

#[test]
fn a_status_too_short_to_read_does_not_count() {
    let buf = ct_event(
        IPCTNL_MSG_CT_NEW,
        NFPROTO_IPV4,
        &[attr(CTA_STATUS, &[0, 0, 0x10])],
    );
    assert!(parse(&buf).is_empty());
}

#[test]
fn every_prefix_yields_a_prefix_of_the_events() {
    let mut buf = snat_event();
    let one = buf.len();
    buf.extend_from_slice(&snat_event());
    let whole = parse(&buf);
    for len in 0..=buf.len() {
        let part = parse(&buf[..len]);
        assert_eq!(part.len(), len / one);
        assert_eq!(part[..], whole[..part.len()]);
    }
}

/// Give every attribute in `data`, and every one nested in them, these flags.
fn set_flags(data: &mut [u8], flags: u16) {
    let mut offset = 0;
    while offset + 4 <= data.len() {
        let len = u16::from_ne_bytes([data[offset], data[offset + 1]]) as usize;
        let kind = u16::from_ne_bytes([data[offset + 2], data[offset + 3]]);
        let flagged = (kind & 0x3FFF) | flags;
        data[offset + 2..offset + 4].copy_from_slice(&flagged.to_ne_bytes());
        if kind & NLA_F_NESTED != 0 {
            set_flags(&mut data[offset + 4..offset + len], flags);
        }
        offset += (len + 3) & !3;
    }
}

#[test]
fn flags_beside_an_attribute_type_change_nothing() {
    let expected = parse(&snat_event());
    assert_eq!(expected.len(), 1);
    for flags in [0, 0x4000, 0x8000, 0xC000] {
        let mut buf = snat_event();
        set_flags(&mut buf[20..], flags);
        assert_eq!(parse(&buf), expected, "flags {flags:#x}");
        assert_eq!(
            parse_nla_tree(NatEventType::Create, &buf[20..], ByteOrder::native()).as_ref(),
            expected.first(),
            "flags {flags:#x}"
        );
    }
}

#[test]
fn attributes_of_unknown_kinds_change_nothing_wherever_they_stand() {
    let known = [
        tuple(CTA_TUPLE_ORIG, [192, 168, 1, 10], [8, 8, 8, 8], 6, 1234, 53),
        tuple(CTA_TUPLE_REPLY, [8, 8, 8, 8], [203, 0, 113, 5], 6, 53, 40000),
        attr(CTA_STATUS, &IPS_SRC_NAT.to_be_bytes()),
        counters(CTA_COUNTERS_ORIG, 7, 700),
        counters(CTA_COUNTERS_REPLY, 9, 900),
    ];
    let unknown = [
        attr(7, &[0, 0, 1, 44]),
        attr(8, &[1]),
        nested(4, &[attr(CTA_STATUS, &[0; 4]), attr(CTA_TUPLE_ORIG, &[1; 3])]),
        attr(0x3FFF, &[]),
    ];
    let expected = parse(&snat_event());
    for place in 0..=known.len() {
        let mut attrs = known[..place].to_vec();
        attrs.extend_from_slice(&unknown);
        attrs.extend_from_slice(&known[place..]);
        let buf = ct_event(IPCTNL_MSG_CT_NEW, NFPROTO_IPV4, &attrs);
        assert_eq!(parse(&buf), expected, "before attribute {place}");
    }

    // The same among the attributes nested in a tuple, and in its addresses.
    let orig = nested(
        CTA_TUPLE_ORIG,
        &[
            attr(3, &[0, 7]),
            nested(
                CTA_TUPLE_IP,
                &[
                    attr(CTA_IP_V4_SRC, &[192, 168, 1, 10]),
                    attr(3, &[9; 16]),
                    attr(CTA_IP_V4_DST, &[8, 8, 8, 8]),
                ],
            ),
            nested(
                CTA_TUPLE_PROTO,
                &[
                    attr(CTA_PROTO_NUM, &[6]),
                    attr(CTA_PROTO_SRC_PORT, &1234u16.to_be_bytes()),
                    attr(4, &[0, 0]),
                    attr(CTA_PROTO_DST_PORT, &53u16.to_be_bytes()),
                ],
            ),
        ],
    );
    let mut attrs = known.to_vec();
    attrs[0] = orig;
    let buf = ct_event(IPCTNL_MSG_CT_NEW, NFPROTO_IPV4, &attrs);
    assert_eq!(parse(&buf), expected);
}
