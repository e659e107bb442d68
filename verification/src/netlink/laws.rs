//! What decoding promises of whole datagrams.

use super::constants::{
    CTA_COUNTERS_BYTES, CTA_COUNTERS_ORIG, CTA_COUNTERS_PACKETS, CTA_COUNTERS_REPLY, CTA_IP_V4_DST,
    CTA_IP_V4_SRC, CTA_PROTO_DST_PORT, CTA_PROTO_NUM, CTA_PROTO_SRC_PORT, CTA_STATUS, CTA_TUPLE_IP,
    CTA_TUPLE_ORIG, CTA_TUPLE_PROTO, CTA_TUPLE_REPLY, IPCTNL_MSG_CT_DELETE, IPCTNL_MSG_CT_NEW,
    IPS_NAT_MASK, NFGENMSG_LEN, NFNL_SUBSYS_CTNETLINK, NFPROTO_IPV4, NLA_ALIGNTO, NLA_HDRLEN,
    NLMSG_HDRLEN,
};
use super::parser;
use super::parser::{Attribute, Message};
use crate::bytes;
use crate::bytes::ByteOrder;
use crate::event::{ConntrackEvent, NatEventType};
use crate::export::template;
use crate::net::Ipv4Addr;
use vstd::prelude::*;

verus! {

/// Fewer messages report the first of the events that more messages report.
proof fn lemma_events_prefix(messages: Seq<Message>, n: int, order: ByteOrder)
    requires
        0 <= n <= messages.len(),
    ensures
        parser::events_of(messages.take(n), order).is_prefix_of(
            parser::events_of(messages, order),
        ),
    decreases messages.len() - n,
{
    if n < messages.len() {
        lemma_events_prefix(messages, n + 1, order);
        assert(messages.take(n + 1).drop_last() == messages.take(n));
    } else {
        assert(messages.take(n) == messages);
    }
}

proof fn lemma_prefix_behind(first: Message, short: Seq<Message>, full: Seq<Message>)
    requires
        short.is_prefix_of(full),
    ensures
        (seq![first] + short).is_prefix_of(seq![first] + full),
{
    assert(short == full.take(short.len() as int));
    assert(seq![first] + short == (seq![first] + full).take(short.len() as int + 1));
}

proof fn lemma_messages_truncated(buf: Seq<u8>, len: int, order: ByteOrder)
    requires
        0 <= len <= buf.len(),
    ensures
        parser::messages(buf.take(len), order).is_prefix_of(parser::messages(buf, order)),
    decreases buf.len(),
{
    let cut = buf.take(len);
    let n = order.value(buf.take(4));
    let header = (NLMSG_HDRLEN + NFGENMSG_LEN) as int;
    if len < NLMSG_HDRLEN {
        assert(parser::messages(cut, order) == Seq::<Message>::empty());
    } else {
        assert(cut.take(4) == buf.take(4));
        if n < header || n > len {
            assert(parser::messages(cut, order) == Seq::<Message>::empty());
        } else {
            let next = template::aligned(n, NLA_ALIGNTO as nat);
            template::lemma_aligned(n, NLA_ALIGNTO as nat);
            assert(cut.subrange(4, 6) == buf.subrange(4, 6));
            assert(cut.subrange(header, n as int) == buf.subrange(header, n as int));
            let first = Message {
                kind: order.value(buf.subrange(4, 6)) as u16,
                family: buf[NLMSG_HDRLEN as int],
                body: buf.subrange(header, n as int),
            };
            let behind_cut = cut.skip(parser::step(n, cut.len()) as int);
            let behind = buf.skip(parser::step(n, buf.len()) as int);
            if next <= len {
                assert(behind_cut == behind.take(len - next));
                lemma_messages_truncated(behind, len - next, order);
            } else {
                assert(behind_cut.len() == 0);
                assert(parser::messages(behind_cut, order) == Seq::<Message>::empty());
            }
            lemma_prefix_behind(
                first,
                parser::messages(behind_cut, order),
                parser::messages(behind, order),
            );
        }
    }
}

/// A datagram that was cut short yields the messages that arrived whole, and
/// nothing else: its messages are the first of those the whole datagram holds,
/// and so are its events.
pub proof fn law_truncation_yields_only_whole_messages(buf: Seq<u8>, len: int, order: ByteOrder)
    requires
        0 <= len <= buf.len(),
    ensures
        parser::messages(buf.take(len), order).is_prefix_of(parser::messages(buf, order)),
        parser::events(buf.take(len), order).is_prefix_of(parser::events(buf, order)),
{
    let short = parser::messages(buf.take(len), order);
    let full = parser::messages(buf, order);
    lemma_messages_truncated(buf, len, order);
    assert(short == full.take(short.len() as int));
    lemma_events_prefix(full, short.len() as int, order);
}

/// A datagram that holds nothing but whole messages, each padded to the
/// alignment.
pub open spec fn is_whole(buf: Seq<u8>, order: ByteOrder) -> bool
    decreases buf.len(),
{
    buf.len() == 0 || {
        let len = order.value(buf.take(4));
        let next = template::aligned(len, NLA_ALIGNTO as nat);
        &&& NLMSG_HDRLEN + NFGENMSG_LEN <= len <= next <= buf.len()
        &&& is_whole(buf.skip(next as int), order)
    }
}

pub proof fn lemma_events_concat(first: Seq<Message>, second: Seq<Message>, order: ByteOrder)
    ensures
        parser::events_of(first + second, order) == parser::events_of(first, order)
            + parser::events_of(second, order),
    decreases second.len(),
{
    if second.len() > 0 {
        lemma_events_concat(first, second.drop_last(), order);
        assert((first + second).drop_last() == first + second.drop_last());
        assert(parser::events_of(first + second, order) == parser::events_of(first, order)
            + parser::events_of(second, order));
    } else {
        assert(first + second == first);
        assert(parser::events_of(second, order) == Seq::<ConntrackEvent>::empty());
    }
}

proof fn lemma_messages_concat(whole: Seq<u8>, rest: Seq<u8>, order: ByteOrder)
    requires
        is_whole(whole, order),
    ensures
        parser::messages(whole + rest, order) == parser::messages(whole, order)
            + parser::messages(rest, order),
    decreases whole.len(),
{
    let both = whole + rest;
    let behind_all = parser::messages(rest, order);
    if whole.len() > 0 {
        let len = order.value(whole.take(4));
        let next = template::aligned(len, NLA_ALIGNTO as nat) as int;
        let header = (NLMSG_HDRLEN + NFGENMSG_LEN) as int;
        let first = Message {
            kind: order.value(whole.subrange(4, 6)) as u16,
            family: whole[NLMSG_HDRLEN as int],
            body: whole.subrange(header, len as int),
        };
        let behind = parser::messages(whole.skip(next), order);
        lemma_messages_concat(whole.skip(next), rest, order);
        assert(parser::messages(whole, order) == seq![first] + behind);
        assert(parser::messages(both, order) == seq![first] + (behind + behind_all)) by {
            assert(both.take(4) == whole.take(4));
            assert(both.subrange(4, 6) == whole.subrange(4, 6));
            assert(both.subrange(header, len as int) == whole.subrange(header, len as int));
            assert(both.skip(next) == whole.skip(next) + rest);
        }
        assert(seq![first] + (behind + behind_all) == (seq![first] + behind) + behind_all);
    } else {
        assert(both == rest);
        assert(Seq::<Message>::empty() + behind_all == behind_all);
    }
}

/// Several messages in one datagram are all parsed: behind whole messages, the
/// rest of the datagram is read as if it stood alone.
pub proof fn law_concatenation(whole: Seq<u8>, rest: Seq<u8>, order: ByteOrder)
    requires
        is_whole(whole, order),
    ensures
        parser::messages(whole + rest, order) == parser::messages(whole, order)
            + parser::messages(rest, order),
        parser::events(whole + rest, order) == parser::events(whole, order) + parser::events(
            rest,
            order,
        ),
{
    lemma_messages_concat(whole, rest, order);
    lemma_events_concat(parser::messages(whole, order), parser::messages(rest, order), order);
}

/// Every event comes from a message that reports the start or the end of an
/// IPv4 session whose status says that an address was translated.
pub proof fn law_events_are_translated_ipv4_sessions(buf: Seq<u8>, order: ByteOrder, j: int) -> (i:
    int)
    requires
        0 <= j < parser::events(buf, order).len(),
    ensures
        0 <= i < parser::messages(buf, order).len(),
        ({
            let message = parser::messages(buf, order)[i];
            &&& message.family == NFPROTO_IPV4
            &&& parser::is_translated(parser::attributes(message.body, order))
            &&& parser::session_change(message.kind) == Some(
                parser::events(buf, order)[j].nat_event,
            )
            &&& parser::event_of(message, order) == Some(parser::events(buf, order)[j])
        }),
{
    lemma_event_source(parser::messages(buf, order), order, j)
}

proof fn lemma_event_source(messages: Seq<Message>, order: ByteOrder, j: int) -> (i: int)
    requires
        0 <= j < parser::events_of(messages, order).len(),
    ensures
        0 <= i < messages.len(),
        parser::event_of(messages[i], order) == Some(parser::events_of(messages, order)[j]),
    decreases messages.len(),
{
    let shorter = messages.drop_last();
    if j < parser::events_of(shorter, order).len() {
        lemma_event_source(shorter, order, j)
    } else {
        messages.len() - 1
    }
}

/// An attribute as the kernel lays it out: its length, its type, what it holds,
/// and padding up to the alignment.
#[verifier::opaque]
pub open spec fn attribute_bytes(order: ByteOrder, kind: u16, payload: Seq<u8>) -> Seq<u8> {
    let len = NLA_HDRLEN as nat + payload.len();
    order.bytes(len, 2) + order.bytes(kind as nat, 2) + payload + bytes::zeros(
        (template::aligned(len, NLA_ALIGNTO as nat) - len) as nat,
    )
}

/// An attribute that holds attributes carries the nested flag beside its type.
pub open spec fn nested_bytes(order: ByteOrder, kind: u16, payload: Seq<u8>) -> Seq<u8> {
    attribute_bytes(order, (kind + 0x8000) as u16, payload)
}

/// The addresses of a tuple.
#[verifier::opaque]
pub open spec fn addresses_bytes(order: ByteOrder, src: Ipv4Addr, dst: Ipv4Addr) -> Seq<u8> {
    attribute_bytes(order, CTA_IP_V4_SRC, src.spec_octets()) + attribute_bytes(
        order,
        CTA_IP_V4_DST,
        dst.spec_octets(),
    )
}

/// The protocol and the ports of a tuple.
#[verifier::opaque]
pub open spec fn ports_bytes(
    order: ByteOrder,
    protocol: u8,
    src_port: u16,
    dst_port: u16,
) -> Seq<u8> {
    attribute_bytes(order, CTA_PROTO_NUM, seq![protocol]) + (attribute_bytes(
        order,
        CTA_PROTO_SRC_PORT,
        bytes::be_bytes(src_port as nat, 2),
    ) + attribute_bytes(order, CTA_PROTO_DST_PORT, bytes::be_bytes(dst_port as nat, 2)))
}

/// A tuple: addresses, protocol and ports.
#[verifier::opaque]
pub open spec fn tuple_bytes(
    order: ByteOrder,
    src: Ipv4Addr,
    dst: Ipv4Addr,
    protocol: u8,
    src_port: u16,
    dst_port: u16,
) -> Seq<u8> {
    nested_bytes(order, CTA_TUPLE_IP, addresses_bytes(order, src, dst)) + nested_bytes(
        order,
        CTA_TUPLE_PROTO,
        ports_bytes(order, protocol, src_port, dst_port),
    )
}

/// The counters of one direction.
#[verifier::opaque]
pub open spec fn counters_bytes(order: ByteOrder, packets: u64, octets: u64) -> Seq<u8> {
    attribute_bytes(order, CTA_COUNTERS_PACKETS, bytes::be_bytes(packets as nat, 8))
        + attribute_bytes(order, CTA_COUNTERS_BYTES, bytes::be_bytes(octets as nat, 8))
}

/// A message: its length, type, flags, sequence number and port, the address
/// family, and the attributes, whose length keeps the alignment.
#[verifier::opaque]
pub open spec fn message_bytes(
    order: ByteOrder,
    kind: u16,
    family: u8,
    body: Seq<u8>,
) -> Seq<u8> {
    order.bytes((NLMSG_HDRLEN + NFGENMSG_LEN) as nat + body.len(), 4) + order.bytes(
        kind as nat,
        2,
    ) + bytes::zeros(10) + seq![family, 0u8, 0u8, 0u8] + body
}

/// The attributes by which the kernel reports an event with some status.
#[verifier::opaque]
pub open spec fn event_body(order: ByteOrder, event: ConntrackEvent, status: u32) -> Seq<u8> {
    let orig = orig_tuple(order, event);
    let reply = reply_tuple(order, event);
    let sent = counters_bytes(order, event.orig_packets, event.orig_bytes);
    let returned = counters_bytes(order, event.reply_packets, event.reply_bytes);
    nested_bytes(order, CTA_TUPLE_ORIG, orig) + (nested_bytes(order, CTA_TUPLE_REPLY, reply) + (
    attribute_bytes(order, CTA_STATUS, bytes::be_bytes(status as nat, 4)) + (nested_bytes(
        order,
        CTA_COUNTERS_ORIG,
        sent,
    ) + nested_bytes(order, CTA_COUNTERS_REPLY, returned))))
}

/// The message by which the kernel reports an event with some status.
pub open spec fn event_message(order: ByteOrder, event: ConntrackEvent, status: u32) -> Seq<u8> {
    let msg_type = match event.nat_event {
        NatEventType::Create => IPCTNL_MSG_CT_NEW,
        NatEventType::Delete => IPCTNL_MSG_CT_DELETE,
    };
    message_bytes(
        order,
        (256 * NFNL_SUBSYS_CTNETLINK + msg_type) as u16,
        NFPROTO_IPV4,
        event_body(order, event, status),
    )
}

/// An attribute reads back, and so does what stands behind it.
pub proof fn law_attribute_reads_back(
    order: ByteOrder,
    kind: u16,
    payload: Seq<u8>,
    rest: Seq<u8>,
)
    requires
        NLA_HDRLEN + payload.len() < 0x1_0000,
    ensures
        attribute_bytes(order, kind, payload).len() == template::aligned(
            NLA_HDRLEN as nat + payload.len(),
            NLA_ALIGNTO as nat,
        ),
        parser::attributes(attribute_bytes(order, kind, payload) + rest, order) == seq![
            Attribute { kind: kind % 0x4000, payload },
        ] + parser::attributes(rest, order),
{
    reveal(attribute_bytes);
    let len = NLA_HDRLEN as nat + payload.len();
    let data = attribute_bytes(order, kind, payload) + rest;
    bytes::lemma_pow_256(2);
    order.lemma_value_of_bytes(len, 2);
    order.lemma_value_of_bytes(kind as nat, 2);
    template::lemma_aligned(len, NLA_ALIGNTO as nat);
    assert(data.take(2) == order.bytes(len, 2));
    assert(data.subrange(2, 4) == order.bytes(kind as nat, 2));
    assert(data.subrange(NLA_HDRLEN as int, len as int) == payload);
    assert(data.skip(parser::step(len, data.len()) as int) == rest);
}

/// A message reads back, and so does what stands behind it.
pub proof fn law_message_reads_back(
    order: ByteOrder,
    kind: u16,
    family: u8,
    body: Seq<u8>,
    rest: Seq<u8>,
)
    requires
        body.len() % (NLA_ALIGNTO as nat) == 0,
        NLMSG_HDRLEN + NFGENMSG_LEN + body.len() < 0x1_0000_0000,
    ensures
        parser::messages(message_bytes(order, kind, family, body) + rest, order) == seq![
            Message { kind, family, body },
        ] + parser::messages(rest, order),
{
    reveal(message_bytes);
    let len = (NLMSG_HDRLEN + NFGENMSG_LEN) as nat + body.len();
    let buf = message_bytes(order, kind, family, body) + rest;
    bytes::lemma_pow_256(4);
    order.lemma_value_of_bytes(len, 4);
    order.lemma_value_of_bytes(kind as nat, 2);
    assert(template::aligned(len, NLA_ALIGNTO as nat) == len) by {
        template::lemma_aligned(len, NLA_ALIGNTO as nat);
    }
    let lead = order.bytes(len, 4) + order.bytes(kind as nat, 2) + bytes::zeros(10);
    let generic = seq![family, 0u8, 0u8, 0u8];
    assert(buf == lead + (generic + (body + rest)));
    assert(lead.len() == NLMSG_HDRLEN);
    assert(buf.take(4) == order.bytes(len, 4));
    assert(buf.subrange(4, 6) == order.bytes(kind as nat, 2));
    assert(buf[NLMSG_HDRLEN as int] == family);
    assert(buf.subrange(NLMSG_HDRLEN + NFGENMSG_LEN, len as int) == body);
    assert(buf.skip(len as int) == rest);
}

proof fn lemma_last_attribute(order: ByteOrder, kind: u16, payload: Seq<u8>)
    requires
        NLA_HDRLEN + payload.len() < 0x1_0000,
    ensures
        parser::attributes(attribute_bytes(order, kind, payload), order) == seq![
            Attribute { kind: kind % 0x4000, payload },
        ],
{
    let empty = Seq::<u8>::empty();
    law_attribute_reads_back(order, kind, payload, empty);
    assert(attribute_bytes(order, kind, payload) + empty == attribute_bytes(order, kind, payload));
    assert(parser::attributes(empty, order) == Seq::<Attribute>::empty());
}

proof fn lemma_addresses_read_back(order: ByteOrder, src: Ipv4Addr, dst: Ipv4Addr, other: Ipv4Addr)
    ensures
        addresses_bytes(order, src, dst).len() == 16,
        ({
            let found = parser::attributes(addresses_bytes(order, src, dst), order);
            &&& parser::addr_value(found, CTA_IP_V4_SRC, other) == src
            &&& parser::addr_value(found, CTA_IP_V4_DST, other) == dst
        }),
{
    reveal(addresses_bytes);
    let first = Attribute { kind: CTA_IP_V4_SRC, payload: src.spec_octets() };
    let second = Attribute { kind: CTA_IP_V4_DST, payload: dst.spec_octets() };
    let none = Seq::<Attribute>::empty();
    law_attribute_reads_back(
        order,
        CTA_IP_V4_SRC,
        src.spec_octets(),
        attribute_bytes(order, CTA_IP_V4_DST, dst.spec_octets()),
    );
    law_attribute_reads_back(order, CTA_IP_V4_DST, dst.spec_octets(), Seq::empty());
    lemma_last_attribute(order, CTA_IP_V4_DST, dst.spec_octets());
    let found = parser::attributes(addresses_bytes(order, src, dst), order);
    assert(found == none.push(first).push(second));
    parser::lemma_push(none, first, CTA_IP_V4_SRC, 4);
    parser::lemma_push(none.push(first), second, CTA_IP_V4_SRC, 4);
    parser::lemma_push(none.push(first), second, CTA_IP_V4_DST, 4);
}

proof fn lemma_ports_read_back(order: ByteOrder, protocol: u8, src_port: u16, dst_port: u16)
    ensures
        ports_bytes(order, protocol, src_port, dst_port).len() == 24,
        ({
            let found = parser::attributes(
                ports_bytes(order, protocol, src_port, dst_port),
                order,
            );
            &&& parser::number_value(found, CTA_PROTO_NUM, 1, 0) == protocol
            &&& parser::number_value(found, CTA_PROTO_SRC_PORT, 2, 0) == src_port
            &&& parser::number_value(found, CTA_PROTO_DST_PORT, 2, 0) == dst_port
        }),
{
    reveal(ports_bytes);
    let src = bytes::be_bytes(src_port as nat, 2);
    let dst = bytes::be_bytes(dst_port as nat, 2);
    let first = Attribute { kind: CTA_PROTO_NUM, payload: seq![protocol] };
    let second = Attribute { kind: CTA_PROTO_SRC_PORT, payload: src };
    let third = Attribute { kind: CTA_PROTO_DST_PORT, payload: dst };
    let none = Seq::<Attribute>::empty();
    let two = none.push(first).push(second);
    bytes::lemma_pow_256(2);
    bytes::lemma_be_bytes_len(src_port as nat, 2);
    bytes::lemma_be_bytes_len(dst_port as nat, 2);
    bytes::lemma_be_value_of_be_bytes(src_port as nat, 2);
    bytes::lemma_be_value_of_be_bytes(dst_port as nat, 2);
    let third_bytes = attribute_bytes(order, CTA_PROTO_DST_PORT, dst);
    let second_bytes = attribute_bytes(order, CTA_PROTO_SRC_PORT, src);
    law_attribute_reads_back(order, CTA_PROTO_NUM, seq![protocol], second_bytes + third_bytes);
    law_attribute_reads_back(order, CTA_PROTO_SRC_PORT, src, third_bytes);
    law_attribute_reads_back(order, CTA_PROTO_DST_PORT, dst, Seq::empty());
    lemma_last_attribute(order, CTA_PROTO_DST_PORT, dst);
    let found = parser::attributes(ports_bytes(order, protocol, src_port, dst_port), order);
    assert(found == two.push(third));
    parser::lemma_push(none, first, CTA_PROTO_NUM, 1);
    parser::lemma_push(none.push(first), second, CTA_PROTO_NUM, 1);
    parser::lemma_push(two, third, CTA_PROTO_NUM, 1);
    parser::lemma_push(none.push(first), second, CTA_PROTO_SRC_PORT, 2);
    parser::lemma_push(two, third, CTA_PROTO_SRC_PORT, 2);
    parser::lemma_push(two, third, CTA_PROTO_DST_PORT, 2);
    assert(seq![protocol].take(1) == seq![protocol]);
    assert(src.take(2) == src && dst.take(2) == dst);
    reveal_with_fuel(bytes::be_value, 2);
}

proof fn lemma_counters_read_back(order: ByteOrder, packets: u64, octets: u64)
    ensures
        counters_bytes(order, packets, octets).len() == 24,
        ({
            let found = parser::attributes(counters_bytes(order, packets, octets), order);
            &&& parser::number_value(found, CTA_COUNTERS_PACKETS, 8, 0) == packets
            &&& parser::number_value(found, CTA_COUNTERS_BYTES, 8, 0) == octets
        }),
{
    reveal(counters_bytes);
    let p = bytes::be_bytes(packets as nat, 8);
    let o = bytes::be_bytes(octets as nat, 8);
    let first = Attribute { kind: CTA_COUNTERS_PACKETS, payload: p };
    let second = Attribute { kind: CTA_COUNTERS_BYTES, payload: o };
    let none = Seq::<Attribute>::empty();
    bytes::lemma_pow_256(8);
    bytes::lemma_be_bytes_len(packets as nat, 8);
    bytes::lemma_be_bytes_len(octets as nat, 8);
    bytes::lemma_be_value_of_be_bytes(packets as nat, 8);
    bytes::lemma_be_value_of_be_bytes(octets as nat, 8);
    law_attribute_reads_back(
        order,
        CTA_COUNTERS_PACKETS,
        p,
        attribute_bytes(order, CTA_COUNTERS_BYTES, o),
    );
    law_attribute_reads_back(order, CTA_COUNTERS_BYTES, o, Seq::empty());
    lemma_last_attribute(order, CTA_COUNTERS_BYTES, o);
    let found = parser::attributes(counters_bytes(order, packets, octets), order);
    assert(found == none.push(first).push(second));
    parser::lemma_push(none, first, CTA_COUNTERS_PACKETS, 8);
    parser::lemma_push(none.push(first), second, CTA_COUNTERS_PACKETS, 8);
    parser::lemma_push(none.push(first), second, CTA_COUNTERS_BYTES, 8);
    assert(p.take(8) == p && o.take(8) == o);
}

/// The nested flag is no part of an attribute's type.
proof fn lemma_nested_reads_back(order: ByteOrder, kind: u16, payload: Seq<u8>, rest: Seq<u8>)
    requires
        kind < 0x4000,
        NLA_HDRLEN + payload.len() < 0x1_0000,
        payload.len() % (NLA_ALIGNTO as nat) == 0,
    ensures
        nested_bytes(order, kind, payload).len() == NLA_HDRLEN + payload.len(),
        parser::attributes(nested_bytes(order, kind, payload) + rest, order) == seq![
            Attribute { kind, payload },
        ] + parser::attributes(rest, order),
{
    let flagged = (kind + 0x8000) as u16;
    law_attribute_reads_back(order, flagged, payload, rest);
    assert(template::aligned(NLA_HDRLEN as nat + payload.len(), NLA_ALIGNTO as nat) == NLA_HDRLEN
        + payload.len()) by {
        template::lemma_aligned(NLA_HDRLEN as nat + payload.len(), NLA_ALIGNTO as nat);
    }
}

proof fn lemma_tuple_reads_back(
    order: ByteOrder,
    src: Ipv4Addr,
    dst: Ipv4Addr,
    protocol: u8,
    src_port: u16,
    dst_port: u16,
    other: Ipv4Addr,
)
    ensures
        tuple_bytes(order, src, dst, protocol, src_port, dst_port).len() == 48,
        ({
            let found = parser::attributes(
                tuple_bytes(order, src, dst, protocol, src_port, dst_port),
                order,
            );
            &&& parser::tuple_addr(found, CTA_IP_V4_SRC, other, order) == src
            &&& parser::tuple_addr(found, CTA_IP_V4_DST, other, order) == dst
            &&& parser::tuple_number(found, CTA_PROTO_NUM, 1, 0, order) == protocol
            &&& parser::tuple_number(found, CTA_PROTO_SRC_PORT, 2, 0, order) == src_port
            &&& parser::tuple_number(found, CTA_PROTO_DST_PORT, 2, 0, order) == dst_port
        }),
{
    reveal(tuple_bytes);
    let ips = addresses_bytes(order, src, dst);
    let protos = ports_bytes(order, protocol, src_port, dst_port);
    let first = Attribute { kind: CTA_TUPLE_IP, payload: ips };
    let second = Attribute { kind: CTA_TUPLE_PROTO, payload: protos };
    let none = Seq::<Attribute>::empty();
    let empty = Seq::<u8>::empty();
    lemma_addresses_read_back(order, src, dst, other);
    lemma_ports_read_back(order, protocol, src_port, dst_port);
    lemma_nested_reads_back(
        order,
        CTA_TUPLE_IP,
        ips,
        nested_bytes(order, CTA_TUPLE_PROTO, protos),
    );
    lemma_nested_reads_back(order, CTA_TUPLE_PROTO, protos, empty);
    assert(nested_bytes(order, CTA_TUPLE_PROTO, protos) + empty == nested_bytes(
        order,
        CTA_TUPLE_PROTO,
        protos,
    ));
    assert(parser::attributes(empty, order) == none);
    let found = parser::attributes(
        tuple_bytes(order, src, dst, protocol, src_port, dst_port),
        order,
    );
    assert(found == none.push(first).push(second));
    assert(parser::nested(none, CTA_TUPLE_IP, order) == none);
    assert(parser::nested(none, CTA_TUPLE_PROTO, order) == none);
    parser::lemma_nested_push(none, first, CTA_TUPLE_IP, order);
    parser::lemma_nested_push(none, first, CTA_TUPLE_PROTO, order);
    parser::lemma_nested_push(none.push(first), second, CTA_TUPLE_IP, order);
    parser::lemma_nested_push(none.push(first), second, CTA_TUPLE_PROTO, order);
    assert(none + parser::attributes(ips, order) == parser::attributes(ips, order));
    assert(none + parser::attributes(protos, order) == parser::attributes(protos, order));
}

/// The five attributes of an event stand one after another.
proof fn lemma_five_read_back(
    order: ByteOrder,
    orig: Seq<u8>,
    reply: Seq<u8>,
    state: Seq<u8>,
    sent: Seq<u8>,
    returned: Seq<u8>,
)
    requires
        orig.len() == 48,
        reply.len() == 48,
        state.len() == 4,
        sent.len() == 24,
        returned.len() == 24,
    ensures
        ({
            let body = nested_bytes(order, CTA_TUPLE_ORIG, orig) + (nested_bytes(
                order,
                CTA_TUPLE_REPLY,
                reply,
            ) + (attribute_bytes(order, CTA_STATUS, state) + (nested_bytes(
                order,
                CTA_COUNTERS_ORIG,
                sent,
            ) + nested_bytes(order, CTA_COUNTERS_REPLY, returned))));
            &&& body.len() == 168
            &&& parser::attributes(body, order) == Seq::empty().push(
                Attribute { kind: CTA_TUPLE_ORIG, payload: orig },
            ).push(Attribute { kind: CTA_TUPLE_REPLY, payload: reply }).push(
                Attribute { kind: CTA_STATUS, payload: state },
            ).push(Attribute { kind: CTA_COUNTERS_ORIG, payload: sent }).push(
                Attribute { kind: CTA_COUNTERS_REPLY, payload: returned },
            )
        }),
{
    let empty = Seq::<u8>::empty();
    let b5 = nested_bytes(order, CTA_COUNTERS_REPLY, returned);
    let b4 = nested_bytes(order, CTA_COUNTERS_ORIG, sent) + b5;
    let b3 = attribute_bytes(order, CTA_STATUS, state) + b4;
    let b2 = nested_bytes(order, CTA_TUPLE_REPLY, reply) + b3;
    lemma_nested_reads_back(order, CTA_TUPLE_ORIG, orig, b2);
    lemma_nested_reads_back(order, CTA_TUPLE_REPLY, reply, b3);
    law_attribute_reads_back(order, CTA_STATUS, state, b4);
    lemma_nested_reads_back(order, CTA_COUNTERS_ORIG, sent, b5);
    lemma_nested_reads_back(order, CTA_COUNTERS_REPLY, returned, empty);
    assert(b5 + empty == b5);
    assert(parser::attributes(empty, order) == Seq::<Attribute>::empty());
    assert(template::aligned(8, NLA_ALIGNTO as nat) == 8);
}

/// The original tuple of an event.
pub open spec fn orig_tuple(order: ByteOrder, event: ConntrackEvent) -> Seq<u8> {
    tuple_bytes(
        order,
        event.src_ip,
        event.dst_ip,
        event.protocol,
        event.src_port,
        event.dst_port,
    )
}

/// The reply tuple of an event: what the destination was rewritten to, and what
/// the source was.
pub open spec fn reply_tuple(order: ByteOrder, event: ConntrackEvent) -> Seq<u8> {
    tuple_bytes(
        order,
        event.post_nat_dst_ip,
        event.post_nat_src_ip,
        event.protocol,
        event.post_nat_dst_port,
        event.post_nat_src_port,
    )
}

/// Attributes that hold the tuples and the counters of an event describe it.
proof fn lemma_described(order: ByteOrder, event: ConntrackEvent, found: Seq<Attribute>)
    requires
        parser::nested(found, CTA_TUPLE_ORIG, order) == parser::attributes(
            orig_tuple(order, event),
            order,
        ),
        parser::nested(found, CTA_TUPLE_REPLY, order) == parser::attributes(
            reply_tuple(order, event),
            order,
        ),
        parser::nested(found, CTA_COUNTERS_ORIG, order) == parser::attributes(
            counters_bytes(order, event.orig_packets, event.orig_bytes),
            order,
        ),
        parser::nested(found, CTA_COUNTERS_REPLY, order) == parser::attributes(
            counters_bytes(order, event.reply_packets, event.reply_bytes),
            order,
        ),
    ensures
        parser::described(event.nat_event, found, order) == event,
{
    let zero = Ipv4Addr { a: 0, b: 0, c: 0, d: 0 };
    lemma_tuple_reads_back(
        order,
        event.src_ip,
        event.dst_ip,
        event.protocol,
        event.src_port,
        event.dst_port,
        zero,
    );
    lemma_tuple_reads_back(
        order,
        event.post_nat_dst_ip,
        event.post_nat_src_ip,
        event.protocol,
        event.post_nat_dst_port,
        event.post_nat_src_port,
        zero,
    );
    lemma_counters_read_back(order, event.orig_packets, event.orig_bytes);
    lemma_counters_read_back(order, event.reply_packets, event.reply_bytes);
}

proof fn lemma_tuple_len(
    order: ByteOrder,
    src: Ipv4Addr,
    dst: Ipv4Addr,
    protocol: u8,
    src_port: u16,
    dst_port: u16,
)
    ensures
        tuple_bytes(order, src, dst, protocol, src_port, dst_port).len() == 48,
{
    lemma_tuple_reads_back(order, src, dst, protocol, src_port, dst_port, src);
}

/// The attributes of an event read back as the event, and so does its status.
proof fn lemma_body_reads_back(order: ByteOrder, event: ConntrackEvent, status: u32)
    ensures
        event_body(order, event, status).len() == 168,
        ({
            let found = parser::attributes(event_body(order, event, status), order);
            &&& parser::described(event.nat_event, found, order) == event
            &&& parser::status_value(found) == Some(status)
        }),
{
    reveal(event_body);
    let orig = orig_tuple(order, event);
    let reply = reply_tuple(order, event);
    let state = bytes::be_bytes(status as nat, 4);
    let sent = counters_bytes(order, event.orig_packets, event.orig_bytes);
    let returned = counters_bytes(order, event.reply_packets, event.reply_bytes);
    let found = parser::attributes(event_body(order, event, status), order);
    lemma_tuple_len(
        order,
        event.src_ip,
        event.dst_ip,
        event.protocol,
        event.src_port,
        event.dst_port,
    );
    lemma_tuple_len(
        order,
        event.post_nat_dst_ip,
        event.post_nat_src_ip,
        event.protocol,
        event.post_nat_dst_port,
        event.post_nat_src_port,
    );
    lemma_counters_read_back(order, event.orig_packets, event.orig_bytes);
    lemma_counters_read_back(order, event.reply_packets, event.reply_bytes);
    bytes::lemma_pow_256(4);
    bytes::lemma_be_bytes_len(status as nat, 4);
    bytes::lemma_be_value_of_be_bytes(status as nat, 4);
    assert(state.take(4) == state);
    lemma_five_read_back(order, orig, reply, state, sent, returned);
    lemma_five(
        order,
        Attribute { kind: CTA_TUPLE_ORIG, payload: orig },
        Attribute { kind: CTA_TUPLE_REPLY, payload: reply },
        Attribute { kind: CTA_STATUS, payload: state },
        Attribute { kind: CTA_COUNTERS_ORIG, payload: sent },
        Attribute { kind: CTA_COUNTERS_REPLY, payload: returned },
    );
    lemma_described(order, event, found);
}

/// Of five attributes of the five kinds, each is the only one of its kind.
proof fn lemma_five(
    order: ByteOrder,
    a1: Attribute,
    a2: Attribute,
    a3: Attribute,
    a4: Attribute,
    a5: Attribute,
)
    requires
        a1.kind == CTA_TUPLE_ORIG,
        a2.kind == CTA_TUPLE_REPLY,
        a3.kind == CTA_STATUS,
        a3.payload.len() == 4,
        a4.kind == CTA_COUNTERS_ORIG,
        a5.kind == CTA_COUNTERS_REPLY,
    ensures
        ({
            let all = Seq::<Attribute>::empty().push(a1).push(a2).push(a3).push(a4).push(a5);
            &&& parser::nested(all, CTA_TUPLE_ORIG, order) == parser::attributes(
                a1.payload,
                order,
            )
            &&& parser::nested(all, CTA_TUPLE_REPLY, order) == parser::attributes(
                a2.payload,
                order,
            )
            &&& parser::nested(all, CTA_COUNTERS_ORIG, order) == parser::attributes(
                a4.payload,
                order,
            )
            &&& parser::nested(all, CTA_COUNTERS_REPLY, order) == parser::attributes(
                a5.payload,
                order,
            )
            &&& parser::last_value(all, CTA_STATUS, 4) == Some(a3.payload.take(4))
        }),
{
    let none = Seq::<Attribute>::empty();
    let s1 = none.push(a1);
    let s2 = s1.push(a2);
    let s3 = s2.push(a3);
    let s4 = s3.push(a4);
    assert forall|kind: u16| true implies #[trigger] parser::nested(s4.push(a5), kind, order) == (
    if kind == CTA_TUPLE_ORIG {
        parser::attributes(a1.payload, order)
    } else if kind == CTA_TUPLE_REPLY {
        parser::attributes(a2.payload, order)
    } else if kind == CTA_STATUS {
        parser::attributes(a3.payload, order)
    } else if kind == CTA_COUNTERS_ORIG {
        parser::attributes(a4.payload, order)
    } else if kind == CTA_COUNTERS_REPLY {
        parser::attributes(a5.payload, order)
    } else {
        none
    }) by {
        parser::lemma_nested_push(none, a1, kind, order);
        parser::lemma_nested_push(s1, a2, kind, order);
        parser::lemma_nested_push(s2, a3, kind, order);
        parser::lemma_nested_push(s3, a4, kind, order);
        parser::lemma_nested_push(s4, a5, kind, order);
        assert(parser::nested(none, kind, order) == none);
    }
    parser::lemma_push(s2, a3, CTA_STATUS, 4);
    parser::lemma_push(s3, a4, CTA_STATUS, 4);
    parser::lemma_push(s4, a5, CTA_STATUS, 4);
}

/// What the kernel reports of a translated session is what comes out: the
/// message for an event yields exactly that event, in front of whatever the rest
/// of the datagram yields.
pub proof fn law_event_reads_back(
    order: ByteOrder,
    event: ConntrackEvent,
    status: u32,
    rest: Seq<u8>,
)
    requires
        status & IPS_NAT_MASK != 0,
    ensures
        parser::events(event_message(order, event, status) + rest, order) == seq![event]
            + parser::events(rest, order),
{
    let body = event_body(order, event, status);
    let msg_type = match event.nat_event {
        NatEventType::Create => IPCTNL_MSG_CT_NEW,
        NatEventType::Delete => IPCTNL_MSG_CT_DELETE,
    };
    let kind = (256 * NFNL_SUBSYS_CTNETLINK + msg_type) as u16;
    let message = Message { kind, family: NFPROTO_IPV4, body };
    lemma_body_reads_back(order, event, status);
    law_message_reads_back(order, kind, NFPROTO_IPV4, body, rest);
    lemma_events_concat(seq![message], parser::messages(rest, order), order);
    assert(seq![message].drop_last() == Seq::<Message>::empty());
    assert(parser::session_change(kind) == Some(event.nat_event));
    assert(parser::event_of(message, order) == Some(event));
    assert(parser::events_of(Seq::<Message>::empty(), order) == Seq::<ConntrackEvent>::empty());
    assert(parser::events_of(seq![message], order) == seq![event]);
}

/// A session that was not translated yields nothing.
pub proof fn law_untranslated_events_are_filtered(
    order: ByteOrder,
    event: ConntrackEvent,
    status: u32,
    rest: Seq<u8>,
)
    requires
        status & IPS_NAT_MASK == 0,
    ensures
        parser::events(event_message(order, event, status) + rest, order) == parser::events(
            rest,
            order,
        ),
{
    let body = event_body(order, event, status);
    let msg_type = match event.nat_event {
        NatEventType::Create => IPCTNL_MSG_CT_NEW,
        NatEventType::Delete => IPCTNL_MSG_CT_DELETE,
    };
    let kind = (256 * NFNL_SUBSYS_CTNETLINK + msg_type) as u16;
    let message = Message { kind, family: NFPROTO_IPV4, body };
    lemma_body_reads_back(order, event, status);
    law_message_reads_back(order, kind, NFPROTO_IPV4, body, rest);
    lemma_events_concat(seq![message], parser::messages(rest, order), order);
    assert(seq![message].drop_last() == Seq::<Message>::empty());
    assert(parser::events_of(Seq::<Message>::empty(), order) == Seq::<ConntrackEvent>::empty());
    assert(parser::events_of(seq![message], order) == Seq::<ConntrackEvent>::empty());
}

/// A direction that was not translated repeats the original value: where the
/// reply tuple answers the original one, the event reports the same endpoint
/// before and after translation.
pub proof fn law_untranslated_direction_repeats_the_original(
    nat_event: NatEventType,
    attributes: Seq<Attribute>,
    order: ByteOrder,
)
    ensures
        ({
            let zero = Ipv4Addr { a: 0, b: 0, c: 0, d: 0 };
            let orig = parser::nested(attributes, CTA_TUPLE_ORIG, order);
            let reply = parser::nested(attributes, CTA_TUPLE_REPLY, order);
            let event = parser::described(nat_event, attributes, order);
            &&& parser::tuple_addr(reply, CTA_IP_V4_DST, zero, order) == parser::tuple_addr(
                orig,
                CTA_IP_V4_SRC,
                zero,
                order,
            ) ==> event.post_nat_src_ip == event.src_ip
            &&& parser::tuple_addr(reply, CTA_IP_V4_SRC, zero, order) == parser::tuple_addr(
                orig,
                CTA_IP_V4_DST,
                zero,
                order,
            ) ==> event.post_nat_dst_ip == event.dst_ip
            &&& parser::tuple_number(reply, CTA_PROTO_DST_PORT, 2, 0, order)
                == parser::tuple_number(orig, CTA_PROTO_SRC_PORT, 2, 0, order)
                ==> event.post_nat_src_port == event.src_port
            &&& parser::tuple_number(reply, CTA_PROTO_SRC_PORT, 2, 0, order)
                == parser::tuple_number(orig, CTA_PROTO_DST_PORT, 2, 0, order)
                ==> event.post_nat_dst_port == event.dst_port
        }),
{
}

/// Where attributes stand: among those of an event, or nested in one of them.
pub enum Place {
    Event,
    Tuple,
    Addresses,
    Ports,
    Counters,
}

impl Place {
    /// Attributes of a kind say something about an event here.
    pub open spec fn knows(self, kind: u16) -> bool {
        match self {
            Place::Event => {
                ||| kind == CTA_TUPLE_ORIG
                ||| kind == CTA_TUPLE_REPLY
                ||| kind == CTA_STATUS
                ||| kind == CTA_COUNTERS_ORIG
                ||| kind == CTA_COUNTERS_REPLY
            },
            Place::Tuple => kind == CTA_TUPLE_IP || kind == CTA_TUPLE_PROTO,
            Place::Addresses => kind == CTA_IP_V4_SRC || kind == CTA_IP_V4_DST,
            Place::Ports => {
                ||| kind == CTA_PROTO_NUM
                ||| kind == CTA_PROTO_SRC_PORT
                ||| kind == CTA_PROTO_DST_PORT
            },
            Place::Counters => kind == CTA_COUNTERS_PACKETS || kind == CTA_COUNTERS_BYTES,
        }
    }

    /// What an attribute of a kind holds here, if it holds attributes.
    pub open spec fn inside(self, kind: u16) -> Option<Place> {
        match self {
            Place::Event => if kind == CTA_TUPLE_ORIG || kind == CTA_TUPLE_REPLY {
                Some(Place::Tuple)
            } else if kind == CTA_COUNTERS_ORIG || kind == CTA_COUNTERS_REPLY {
                Some(Place::Counters)
            } else {
                None
            },
            Place::Tuple => if kind == CTA_TUPLE_IP {
                Some(Place::Addresses)
            } else if kind == CTA_TUPLE_PROTO {
                Some(Place::Ports)
            } else {
                None
            },
            _ => None,
        }
    }

    /// How deep attributes are nested in those that stand here.
    pub open spec fn depth(self) -> nat {
        match self {
            Place::Event => 2,
            Place::Tuple => 1,
            _ => 0,
        }
    }
}

/// Two runs of attributes say the same: apart from attributes of unknown kinds,
/// which may stand anywhere, they are of the same kinds in the same order, and
/// hold either the same bytes or attributes that say the same.
pub open spec fn alike(place: Place, a: Seq<Attribute>, b: Seq<Attribute>, order: ByteOrder) -> bool
    decreases place.depth(), a.len() + b.len(),
{
    if a.len() > 0 && !place.knows(a.last().kind) {
        alike(place, a.drop_last(), b, order)
    } else if b.len() > 0 && !place.knows(b.last().kind) {
        alike(place, a, b.drop_last(), order)
    } else if a.len() > 0 && b.len() > 0 {
        &&& a.last().kind == b.last().kind
        &&& a.last().payload == b.last().payload || {
            match place.inside(a.last().kind) {
                Some(inner) => alike(
                    inner,
                    parser::attributes(a.last().payload, order),
                    parser::attributes(b.last().payload, order),
                    order,
                ),
                None => false,
            }
        }
        &&& alike(place, a.drop_last(), b.drop_last(), order)
    } else {
        a.len() == 0 && b.len() == 0
    }
}

proof fn lemma_alike_itself(place: Place, a: Seq<Attribute>, order: ByteOrder)
    ensures
        alike(place, a, a, order),
    decreases a.len(),
{
    if a.len() > 0 {
        lemma_alike_itself(place, a.drop_last(), order);
        if !place.knows(a.last().kind) {
            lemma_unknown_last(place, a.drop_last(), a, order);
        }
    }
}

/// An attribute of an unknown kind may stand at the end of the second run, too,
/// whatever stands at the end of the first.
proof fn lemma_unknown_last(
    place: Place,
    a: Seq<Attribute>,
    b: Seq<Attribute>,
    order: ByteOrder,
)
    requires
        b.len() > 0,
        !place.knows(b.last().kind),
    ensures
        alike(place, a, b, order) == alike(place, a, b.drop_last(), order),
    decreases a.len(),
{
    if a.len() > 0 && !place.knows(a.last().kind) {
        lemma_unknown_last(place, a.drop_last(), b, order);
    }
}

proof fn lemma_alike_concat(
    place: Place,
    a1: Seq<Attribute>,
    b1: Seq<Attribute>,
    a2: Seq<Attribute>,
    b2: Seq<Attribute>,
    order: ByteOrder,
)
    requires
        alike(place, a1, b1, order),
        alike(place, a2, b2, order),
    ensures
        alike(place, a1 + a2, b1 + b2, order),
    decreases a2.len() + b2.len(),
{
    let a = a1 + a2;
    let b = b1 + b2;
    if a2.len() > 0 {
        assert(a.drop_last() == a1 + a2.drop_last());
    }
    if b2.len() > 0 {
        assert(b.drop_last() == b1 + b2.drop_last());
    }
    if a2.len() > 0 && !place.knows(a2.last().kind) {
        lemma_alike_concat(place, a1, b1, a2.drop_last(), b2, order);
    } else if b2.len() > 0 && !place.knows(b2.last().kind) {
        lemma_alike_concat(place, a1, b1, a2, b2.drop_last(), order);
        lemma_unknown_last(place, a, b, order);
    } else if a2.len() > 0 && b2.len() > 0 {
        lemma_alike_concat(place, a1, b1, a2.drop_last(), b2.drop_last(), order);
    } else {
        assert(a == a1 && b == b1);
    }
}

/// Runs that say the same give the same values.
proof fn lemma_alike_value(
    place: Place,
    a: Seq<Attribute>,
    b: Seq<Attribute>,
    order: ByteOrder,
    kind: u16,
    len: nat,
)
    requires
        alike(place, a, b, order),
        place.knows(kind),
        place.inside(kind) is None,
    ensures
        parser::last_value(a, kind, len) == parser::last_value(b, kind, len),
    decreases a.len() + b.len(),
{
    if a.len() > 0 && !place.knows(a.last().kind) {
        lemma_alike_value(place, a.drop_last(), b, order, kind, len);
    } else if b.len() > 0 && !place.knows(b.last().kind) {
        lemma_alike_value(place, a, b.drop_last(), order, kind, len);
    } else if a.len() > 0 && b.len() > 0 {
        lemma_alike_value(place, a.drop_last(), b.drop_last(), order, kind, len);
    }
}

/// What is nested in runs that say the same says the same.
proof fn lemma_alike_nested(
    place: Place,
    a: Seq<Attribute>,
    b: Seq<Attribute>,
    order: ByteOrder,
    kind: u16,
    inner: Place,
)
    requires
        alike(place, a, b, order),
        place.inside(kind) == Some(inner),
    ensures
        alike(inner, parser::nested(a, kind, order), parser::nested(b, kind, order), order),
    decreases a.len() + b.len(),
{
    if a.len() > 0 && !place.knows(a.last().kind) {
        lemma_alike_nested(place, a.drop_last(), b, order, kind, inner);
    } else if b.len() > 0 && !place.knows(b.last().kind) {
        lemma_alike_nested(place, a, b.drop_last(), order, kind, inner);
    } else if a.len() > 0 && b.len() > 0 {
        lemma_alike_nested(place, a.drop_last(), b.drop_last(), order, kind, inner);
        if a.last().kind == kind {
            lemma_alike_itself(inner, parser::attributes(a.last().payload, order), order);
            lemma_alike_concat(
                inner,
                parser::nested(a.drop_last(), kind, order),
                parser::nested(b.drop_last(), kind, order),
                parser::attributes(a.last().payload, order),
                parser::attributes(b.last().payload, order),
                order,
            );
        }
    }
}

/// Tuples that say the same give the same addresses and ports.
proof fn lemma_alike_tuples(a: Seq<Attribute>, b: Seq<Attribute>, order: ByteOrder)
    requires
        alike(Place::Tuple, a, b, order),
    ensures
        ({
            let none = Ipv4Addr { a: 0, b: 0, c: 0, d: 0 };
            &&& parser::tuple_addr(a, CTA_IP_V4_SRC, none, order) == parser::tuple_addr(
                b,
                CTA_IP_V4_SRC,
                none,
                order,
            )
            &&& parser::tuple_addr(a, CTA_IP_V4_DST, none, order) == parser::tuple_addr(
                b,
                CTA_IP_V4_DST,
                none,
                order,
            )
            &&& parser::tuple_number(a, CTA_PROTO_NUM, 1, 0, order) == parser::tuple_number(
                b,
                CTA_PROTO_NUM,
                1,
                0,
                order,
            )
            &&& parser::tuple_number(a, CTA_PROTO_SRC_PORT, 2, 0, order) == parser::tuple_number(
                b,
                CTA_PROTO_SRC_PORT,
                2,
                0,
                order,
            )
            &&& parser::tuple_number(a, CTA_PROTO_DST_PORT, 2, 0, order) == parser::tuple_number(
                b,
                CTA_PROTO_DST_PORT,
                2,
                0,
                order,
            )
        }),
{
    let a_ip = parser::nested(a, CTA_TUPLE_IP, order);
    let b_ip = parser::nested(b, CTA_TUPLE_IP, order);
    let a_proto = parser::nested(a, CTA_TUPLE_PROTO, order);
    let b_proto = parser::nested(b, CTA_TUPLE_PROTO, order);
    lemma_alike_nested(Place::Tuple, a, b, order, CTA_TUPLE_IP, Place::Addresses);
    lemma_alike_nested(Place::Tuple, a, b, order, CTA_TUPLE_PROTO, Place::Ports);
    lemma_alike_value(Place::Addresses, a_ip, b_ip, order, CTA_IP_V4_SRC, 4);
    lemma_alike_value(Place::Addresses, a_ip, b_ip, order, CTA_IP_V4_DST, 4);
    lemma_alike_value(Place::Ports, a_proto, b_proto, order, CTA_PROTO_NUM, 1);
    lemma_alike_value(Place::Ports, a_proto, b_proto, order, CTA_PROTO_SRC_PORT, 2);
    lemma_alike_value(Place::Ports, a_proto, b_proto, order, CTA_PROTO_DST_PORT, 2);
}

/// Counters that say the same give the same numbers.
proof fn lemma_alike_counters(a: Seq<Attribute>, b: Seq<Attribute>, order: ByteOrder)
    requires
        alike(Place::Counters, a, b, order),
    ensures
        parser::number_value(a, CTA_COUNTERS_BYTES, 8, 0) == parser::number_value(
            b,
            CTA_COUNTERS_BYTES,
            8,
            0,
        ),
        parser::number_value(a, CTA_COUNTERS_PACKETS, 8, 0) == parser::number_value(
            b,
            CTA_COUNTERS_PACKETS,
            8,
            0,
        ),
{
    lemma_alike_value(Place::Counters, a, b, order, CTA_COUNTERS_BYTES, 8);
    lemma_alike_value(Place::Counters, a, b, order, CTA_COUNTERS_PACKETS, 8);
}

/// Attributes of unknown kinds change nothing, wherever they stand and at
/// whatever depth: of runs of attributes that say the same otherwise, the same is
/// reported.
pub proof fn law_unknown_attributes_say_nothing(
    nat_event: NatEventType,
    a: Seq<Attribute>,
    b: Seq<Attribute>,
    order: ByteOrder,
)
    requires
        alike(Place::Event, a, b, order),
    ensures
        parser::reported(nat_event, a, order) == parser::reported(nat_event, b, order),
{
    lemma_alike_value(Place::Event, a, b, order, CTA_STATUS, 4);
    lemma_alike_nested(Place::Event, a, b, order, CTA_TUPLE_ORIG, Place::Tuple);
    lemma_alike_nested(Place::Event, a, b, order, CTA_TUPLE_REPLY, Place::Tuple);
    lemma_alike_nested(Place::Event, a, b, order, CTA_COUNTERS_ORIG, Place::Counters);
    lemma_alike_nested(Place::Event, a, b, order, CTA_COUNTERS_REPLY, Place::Counters);
    lemma_alike_tuples(
        parser::nested(a, CTA_TUPLE_ORIG, order),
        parser::nested(b, CTA_TUPLE_ORIG, order),
        order,
    );
    lemma_alike_tuples(
        parser::nested(a, CTA_TUPLE_REPLY, order),
        parser::nested(b, CTA_TUPLE_REPLY, order),
        order,
    );
    lemma_alike_counters(
        parser::nested(a, CTA_COUNTERS_ORIG, order),
        parser::nested(b, CTA_COUNTERS_ORIG, order),
        order,
    );
    lemma_alike_counters(
        parser::nested(a, CTA_COUNTERS_REPLY, order),
        parser::nested(b, CTA_COUNTERS_REPLY, order),
        order,
    );
}

/// Data that differ in nothing but the two flags beside each attribute's type,
/// whether the attribute stands here or is nested in one that does. What stands
/// behind the last attribute is not read, and may be anything.
pub open spec fn same_but_flags(place: Place, d1: Seq<u8>, d2: Seq<u8>, order: ByteOrder) -> bool
    decreases place.depth(), d1.len(),
{
    &&& d1.len() == d2.len()
    &&& d1.len() >= NLA_HDRLEN ==> {
        let len = order.value(d1.take(2));
        &&& d2.take(2) == d1.take(2)
        &&& NLA_HDRLEN <= len <= d1.len() ==> {
            let kind = order.value(d1.subrange(2, 4)) % 0x4000;
            let next = parser::step(len, d1.len()) as int;
            let held1 = d1.subrange(NLA_HDRLEN as int, len as int);
            let held2 = d2.subrange(NLA_HDRLEN as int, len as int);
            &&& order.value(d2.subrange(2, 4)) % 0x4000 == kind
            &&& held1 == held2 || {
                match place.inside(kind as u16) {
                    Some(inner) => same_but_flags(inner, held1, held2, order),
                    None => false,
                }
            }
            &&& same_but_flags(place, d1.skip(next), d2.skip(next), order)
        }
    }
}

proof fn lemma_alike_but_flags(place: Place, d1: Seq<u8>, d2: Seq<u8>, order: ByteOrder)
    requires
        same_but_flags(place, d1, d2, order),
    ensures
        alike(place, parser::attributes(d1, order), parser::attributes(d2, order), order),
    decreases place.depth(), d1.len(),
{
    let len = order.value(d1.take(2));
    if d1.len() >= NLA_HDRLEN && NLA_HDRLEN <= len <= d1.len() {
        let kind = (order.value(d1.subrange(2, 4)) % 0x4000) as u16;
        let next = parser::step(len, d1.len()) as int;
        let held1 = d1.subrange(NLA_HDRLEN as int, len as int);
        let held2 = d2.subrange(NLA_HDRLEN as int, len as int);
        let first1 = Attribute { kind, payload: held1 };
        let first2 = Attribute { kind, payload: held2 };
        template::lemma_aligned(len, NLA_ALIGNTO as nat);
        lemma_alike_but_flags(place, d1.skip(next), d2.skip(next), order);
        if held1 != held2 {
            lemma_alike_but_flags(place.inside(kind)->0, held1, held2, order);
        }
        let none = Seq::<Attribute>::empty();
        assert(seq![first1].drop_last() == none && seq![first2].drop_last() == none);
        assert(alike(place, none, none, order));
        if !place.knows(kind) {
            lemma_unknown_last(place, none, seq![first2], order);
        }
        assert(alike(place, seq![first1], seq![first2], order));
        lemma_alike_concat(
            place,
            seq![first1],
            seq![first2],
            parser::attributes(d1.skip(next), order),
            parser::attributes(d2.skip(next), order),
            order,
        );
    }
}

/// The two flags that share a field with an attribute's type change nothing, at
/// whatever depth: of data that differ only in them, the same is reported.
pub proof fn law_attribute_flags_say_nothing(
    nat_event: NatEventType,
    d1: Seq<u8>,
    d2: Seq<u8>,
    order: ByteOrder,
)
    requires
        same_but_flags(Place::Event, d1, d2, order),
    ensures
        parser::reported(nat_event, parser::attributes(d1, order), order) == parser::reported(
            nat_event,
            parser::attributes(d2, order),
            order,
        ),
{
    lemma_alike_but_flags(Place::Event, d1, d2, order);
    law_unknown_attributes_say_nothing(
        nat_event,
        parser::attributes(d1, order),
        parser::attributes(d2, order),
        order,
    );
}

/// Nothing but whole attributes, each padded to the alignment.
pub open spec fn is_run(data: Seq<u8>, order: ByteOrder) -> bool
    decreases data.len(),
{
    data.len() == 0 || {
        let len = order.value(data.take(2));
        let next = template::aligned(len, NLA_ALIGNTO as nat);
        &&& NLA_HDRLEN <= len <= next <= data.len()
        &&& is_run(data.skip(next as int), order)
    }
}

/// Behind whole attributes, the rest of the data is read as if it stood alone.
pub proof fn law_attributes_concatenation(run: Seq<u8>, rest: Seq<u8>, order: ByteOrder)
    requires
        is_run(run, order),
    ensures
        parser::attributes(run + rest, order) == parser::attributes(run, order)
            + parser::attributes(rest, order),
    decreases run.len(),
{
    let both = run + rest;
    let behind_all = parser::attributes(rest, order);
    if run.len() > 0 {
        let len = order.value(run.take(2));
        let next = template::aligned(len, NLA_ALIGNTO as nat) as int;
        let first = Attribute {
            kind: (order.value(run.subrange(2, 4)) % 0x4000) as u16,
            payload: run.subrange(NLA_HDRLEN as int, len as int),
        };
        let behind = parser::attributes(run.skip(next), order);
        law_attributes_concatenation(run.skip(next), rest, order);
        assert(parser::attributes(run, order) == seq![first] + behind);
        assert(parser::attributes(both, order) == seq![first] + (behind + behind_all)) by {
            assert(both.take(2) == run.take(2));
            assert(both.subrange(2, 4) == run.subrange(2, 4));
            assert(both.subrange(NLA_HDRLEN as int, len as int) == run.subrange(
                NLA_HDRLEN as int,
                len as int,
            ));
            assert(both.skip(next) == run.skip(next) + rest);
        }
        assert(seq![first] + (behind + behind_all) == (seq![first] + behind) + behind_all);
    } else {
        assert(both == rest);
        assert(Seq::<Attribute>::empty() + behind_all == behind_all);
    }
}

proof fn lemma_unknown_run(
    place: Place,
    a: Seq<Attribute>,
    unknown: Seq<Attribute>,
    order: ByteOrder,
)
    requires
        forall|i: int| 0 <= i < unknown.len() ==> !place.knows((#[trigger] unknown[i]).kind),
    ensures
        alike(place, a + unknown, a, order),
    decreases unknown.len(),
{
    if unknown.len() > 0 {
        let shorter = unknown.drop_last();
        assert forall|i: int| 0 <= i < shorter.len() implies !place.knows(
            (#[trigger] shorter[i]).kind,
        ) by {
            assert(!place.knows(unknown[i].kind));
        }
        lemma_unknown_run(place, a, shorter, order);
        assert((a + unknown).drop_last() == a + shorter);
        assert((a + unknown).last() == unknown[unknown.len() - 1]);
    } else {
        assert(a + unknown == a);
        lemma_alike_itself(place, a, order);
    }
}

/// Whole attributes of unknown kinds may be put between the attributes of an
/// event, or among those nested in one of them, and the data still say the same.
/// Between the attributes of an event, they leave what is reported as it was.
pub proof fn law_unknown_attributes_may_be_put_in(
    place: Place,
    nat_event: NatEventType,
    before: Seq<u8>,
    unknown: Seq<u8>,
    behind: Seq<u8>,
    order: ByteOrder,
)
    requires
        is_run(before, order),
        is_run(unknown, order),
        forall|i: int|
            0 <= i < parser::attributes(unknown, order).len() ==> !place.knows(
                (#[trigger] parser::attributes(unknown, order)[i]).kind,
            ),
    ensures
        alike(
            place,
            parser::attributes(before + (unknown + behind), order),
            parser::attributes(before + behind, order),
            order,
        ),
        place is Event ==> parser::reported(
            nat_event,
            parser::attributes(before + (unknown + behind), order),
            order,
        ) == parser::reported(nat_event, parser::attributes(before + behind, order), order),
{
    let a = parser::attributes(before, order);
    let u = parser::attributes(unknown, order);
    let b = parser::attributes(behind, order);
    law_attributes_concatenation(before, unknown + behind, order);
    law_attributes_concatenation(unknown, behind, order);
    law_attributes_concatenation(before, behind, order);
    lemma_unknown_run(place, a, u, order);
    lemma_alike_itself(place, b, order);
    lemma_alike_concat(place, a + u, a, b, b, order);
    assert(a + (u + b) == (a + u) + b);
    if place is Event {
        law_unknown_attributes_say_nothing(nat_event, a + (u + b), a + b, order);
    }
}

} // verus!
