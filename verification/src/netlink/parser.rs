//! Decoding conntrack events from netlink datagrams.

use super::constants::{
    CTA_COUNTERS_BYTES, CTA_COUNTERS_ORIG, CTA_COUNTERS_PACKETS, CTA_COUNTERS_REPLY, CTA_IP_V4_DST,
    CTA_IP_V4_SRC, CTA_PROTO_DST_PORT, CTA_PROTO_NUM, CTA_PROTO_SRC_PORT, CTA_STATUS, CTA_TUPLE_IP,
    CTA_TUPLE_ORIG, CTA_TUPLE_PROTO, CTA_TUPLE_REPLY, IPCTNL_MSG_CT_DELETE, IPCTNL_MSG_CT_NEW,
    IPS_NAT_MASK, NFGENMSG_LEN, NFNL_SUBSYS_CTNETLINK, NFPROTO_IPV4, NLA_ALIGNTO, NLA_HDRLEN,
    NLA_TYPE_MASK, NLMSG_HDRLEN, NLMSG_MIN_TYPE,
};
use crate::bytes;
use crate::bytes::ByteOrder;
use crate::event::{ConntrackEvent, NatEventType};
use crate::export::template;
use crate::net::Ipv4Addr;
use vstd::prelude::*;

verus! {

/// One attribute of a netlink message: what it is, and what it holds. The flags
/// that share a field with the type are left out.
pub struct Attribute {
    pub kind: u16,
    pub payload: Seq<u8>,
}

/// Where the next item starts behind one of `len` bytes, in data that has
/// `total` bytes left: at the next aligned position, or at the end.
pub open spec fn step(len: nat, total: nat) -> nat {
    let next = template::aligned(len, NLA_ALIGNTO as nat);
    if next <= total {
        next
    } else {
        total
    }
}

/// The attributes that stand one after another in `data`. What follows an
/// attribute whose length is impossible cannot be told apart and is left out.
pub open spec fn attributes(data: Seq<u8>, order: ByteOrder) -> Seq<Attribute>
    decreases data.len(),
{
    if data.len() < NLA_HDRLEN {
        Seq::empty()
    } else {
        let len = order.value(data.take(2));
        if len < NLA_HDRLEN || len > data.len() {
            Seq::empty()
        } else {
            seq![
                Attribute {
                    kind: (order.value(data.subrange(2, 4)) % 0x4000) as u16,
                    payload: data.subrange(NLA_HDRLEN as int, len as int),
                },
            ] + attributes(data.skip(step(len, data.len()) as int), order)
        }
    }
}

/// The attributes nested in all those of one kind, in order.
pub open spec fn nested(
    attributes_of: Seq<Attribute>,
    kind: u16,
    order: ByteOrder,
) -> Seq<Attribute>
    decreases attributes_of.len(),
{
    if attributes_of.len() == 0 {
        Seq::empty()
    } else {
        let before = nested(attributes_of.drop_last(), kind, order);
        if attributes_of.last().kind == kind {
            before + attributes(attributes_of.last().payload, order)
        } else {
            before
        }
    }
}

/// What the last attribute of a kind holds, among those that hold at least
/// `len` bytes.
pub open spec fn last_value(
    attributes_of: Seq<Attribute>,
    kind: u16,
    len: nat,
) -> Option<Seq<u8>>
    decreases attributes_of.len(),
{
    if attributes_of.len() == 0 {
        None
    } else if attributes_of.last().kind == kind && attributes_of.last().payload.len() >= len {
        Some(attributes_of.last().payload.take(len as int))
    } else {
        last_value(attributes_of.drop_last(), kind, len)
    }
}

/// The address an attribute gives, or `default` where none gives one.
pub open spec fn addr_value(
    attributes_of: Seq<Attribute>,
    kind: u16,
    default: Ipv4Addr,
) -> Ipv4Addr {
    match last_value(attributes_of, kind, 4) {
        Some(octets) => Ipv4Addr { a: octets[0], b: octets[1], c: octets[2], d: octets[3] },
        None => default,
    }
}

/// The number of `len` bytes an attribute gives, or `default` where none gives
/// one. Attribute values are in network order.
pub open spec fn number_value(
    attributes_of: Seq<Attribute>,
    kind: u16,
    len: nat,
    default: nat,
) -> nat {
    match last_value(attributes_of, kind, len) {
        Some(octets) => bytes::be_value(octets),
        None => default,
    }
}

/// The address a tuple gives, or `default`.
pub open spec fn tuple_addr(
    tuple: Seq<Attribute>,
    kind: u16,
    default: Ipv4Addr,
    order: ByteOrder,
) -> Ipv4Addr {
    addr_value(nested(tuple, CTA_TUPLE_IP, order), kind, default)
}

/// The protocol number or port of `len` bytes a tuple gives, or `default`.
pub open spec fn tuple_number(
    tuple: Seq<Attribute>,
    kind: u16,
    len: nat,
    default: nat,
    order: ByteOrder,
) -> nat {
    number_value(nested(tuple, CTA_TUPLE_PROTO, order), kind, len, default)
}

/// The conntrack status of an event, if it reports one.
pub open spec fn status_value(attributes_of: Seq<Attribute>) -> Option<u32> {
    match last_value(attributes_of, CTA_STATUS, 4) {
        Some(octets) => Some(bytes::be_value(octets) as u32),
        None => None,
    }
}

/// Whether the attributes say that an address was translated.
pub open spec fn is_translated(attributes_of: Seq<Attribute>) -> bool {
    status_value(attributes_of) matches Some(status) && status & IPS_NAT_MASK != 0
}

/// What the attributes of an event say about it.
///
/// The reply tuple is the original tuple with both translations applied and the
/// direction swapped: its source is what the destination was rewritten to, and
/// its destination is what the source was rewritten to. Either half is unchanged
/// when that direction is not translated.
pub open spec fn described(
    nat_event: NatEventType,
    attributes_of: Seq<Attribute>,
    order: ByteOrder,
) -> ConntrackEvent {
    let none = Ipv4Addr { a: 0, b: 0, c: 0, d: 0 };
    let orig = nested(attributes_of, CTA_TUPLE_ORIG, order);
    let reply = nested(attributes_of, CTA_TUPLE_REPLY, order);
    let sent = nested(attributes_of, CTA_COUNTERS_ORIG, order);
    let returned = nested(attributes_of, CTA_COUNTERS_REPLY, order);
    ConntrackEvent {
        nat_event,
        protocol: tuple_number(orig, CTA_PROTO_NUM, 1, 0, order) as u8,
        src_ip: tuple_addr(orig, CTA_IP_V4_SRC, none, order),
        dst_ip: tuple_addr(orig, CTA_IP_V4_DST, none, order),
        src_port: tuple_number(orig, CTA_PROTO_SRC_PORT, 2, 0, order) as u16,
        dst_port: tuple_number(orig, CTA_PROTO_DST_PORT, 2, 0, order) as u16,
        post_nat_src_ip: tuple_addr(reply, CTA_IP_V4_DST, none, order),
        post_nat_src_port: tuple_number(reply, CTA_PROTO_DST_PORT, 2, 0, order) as u16,
        post_nat_dst_ip: tuple_addr(reply, CTA_IP_V4_SRC, none, order),
        post_nat_dst_port: tuple_number(reply, CTA_PROTO_SRC_PORT, 2, 0, order) as u16,
        orig_bytes: number_value(sent, CTA_COUNTERS_BYTES, 8, 0) as u64,
        orig_packets: number_value(sent, CTA_COUNTERS_PACKETS, 8, 0) as u64,
        reply_bytes: number_value(returned, CTA_COUNTERS_BYTES, 8, 0) as u64,
        reply_packets: number_value(returned, CTA_COUNTERS_PACKETS, 8, 0) as u64,
    }
}

/// What is reported of an event with some attributes: nothing, unless they say
/// that an address was translated.
pub open spec fn reported(
    nat_event: NatEventType,
    attributes_of: Seq<Attribute>,
    order: ByteOrder,
) -> Option<ConntrackEvent> {
    if is_translated(attributes_of) {
        Some(described(nat_event, attributes_of, order))
    } else {
        None
    }
}

/// One netlink message: its type, the address family it is about, and the
/// bytes of its attributes.
pub struct Message {
    pub kind: u16,
    pub family: u8,
    pub body: Seq<u8>,
}

/// The messages that stand one after another in a datagram. What follows a
/// message whose length is impossible cannot be told apart and is left out.
pub open spec fn messages(buf: Seq<u8>, order: ByteOrder) -> Seq<Message>
    decreases buf.len(),
{
    if buf.len() < NLMSG_HDRLEN {
        Seq::empty()
    } else {
        let len = order.value(buf.take(4));
        if len < NLMSG_HDRLEN + NFGENMSG_LEN || len > buf.len() {
            Seq::empty()
        } else {
            seq![
                Message {
                    kind: order.value(buf.subrange(4, 6)) as u16,
                    family: buf[NLMSG_HDRLEN as int],
                    body: buf.subrange(NLMSG_HDRLEN + NFGENMSG_LEN, len as int),
                },
            ] + messages(buf.skip(step(len, buf.len()) as int), order)
        }
    }
}

/// What a message type says happened to a session. Only conntrack messages say
/// anything: types below `NLMSG_MIN_TYPE` are netlink control messages, and the
/// high byte tells the subsystem.
pub open spec fn session_change(kind: u16) -> Option<NatEventType> {
    if kind < NLMSG_MIN_TYPE || kind / 256 != NFNL_SUBSYS_CTNETLINK {
        None
    } else if kind % 256 == IPCTNL_MSG_CT_NEW {
        Some(NatEventType::Create)
    } else if kind % 256 == IPCTNL_MSG_CT_DELETE {
        Some(NatEventType::Delete)
    } else {
        None
    }
}

/// The event a message reports, if it reports the start or the end of an IPv4
/// session with a translated address.
pub open spec fn event_of(message: Message, order: ByteOrder) -> Option<ConntrackEvent> {
    match session_change(message.kind) {
        Some(nat_event) if message.family == NFPROTO_IPV4 => reported(
            nat_event,
            attributes(message.body, order),
            order,
        ),
        _ => None,
    }
}

/// The events some messages report, in order.
pub open spec fn events_of(messages_of: Seq<Message>, order: ByteOrder) -> Seq<ConntrackEvent>
    decreases messages_of.len(),
{
    if messages_of.len() == 0 {
        Seq::empty()
    } else {
        let before = events_of(messages_of.drop_last(), order);
        match event_of(messages_of.last(), order) {
            Some(event) => before.push(event),
            None => before,
        }
    }
}

/// The events a datagram reports, in order.
pub open spec fn events(buf: Seq<u8>, order: ByteOrder) -> Seq<ConntrackEvent> {
    events_of(messages(buf, order), order)
}

proof fn lemma_attributes_step(data: Seq<u8>, order: ByteOrder, offset: int)
    requires
        0 <= offset <= data.len(),
        data.len() - offset < NLA_HDRLEN,
    ensures
        attributes(data.skip(offset), order) == Seq::<Attribute>::empty(),
{
}

/// What stands at some place among the attributes of `data`.
struct Item {
    kind: u16,
    /// Where the payload starts and ends.
    start: usize,
    end: usize,
    /// Where the next attribute starts.
    next: usize,
}

/// Round up to the alignment of attributes and messages.
fn nla_align(len: usize) -> (rounded: usize)
    requires
        len + NLA_ALIGNTO - 1 <= usize::MAX,
    ensures
        rounded as nat == template::aligned(len as nat, NLA_ALIGNTO as nat),
{
    let up: usize = len + (NLA_ALIGNTO - 1);
    assert(up & !3usize == (up / 4) * 4) by (bit_vector);
    up & !(NLA_ALIGNTO - 1)
}

/// Find the attribute at `offset`, if there is a whole one.
fn next_attribute(data: &[u8], offset: usize, order: ByteOrder) -> (item: Option<Item>)
    requires
        offset <= data@.len(),
        offset % NLA_ALIGNTO == 0 || offset == data@.len(),
    ensures
        match item {
            Some(item) => {
                &&& offset < item.start <= item.end <= item.next <= data@.len()
                &&& item.next % NLA_ALIGNTO == 0 || item.next == data@.len()
                &&& attributes(data@.skip(offset as int), order) == seq![
                    Attribute {
                        kind: item.kind,
                        payload: data@.subrange(item.start as int, item.end as int),
                    },
                ] + attributes(data@.skip(item.next as int), order)
            },
            None => attributes(data@.skip(offset as int), order) == Seq::<Attribute>::empty(),
        },
{
    if data.len() - offset < NLA_HDRLEN {
        return None;
    }
    let nla_len: usize = read_u16(&data[offset..offset + 2], order) as usize;
    let raw_type: u16 = read_u16(&data[offset + 2..offset + 4], order);
    let ghost rest = data@.skip(offset as int);
    proof {
        assert(rest.take(2) == data@.subrange(offset as int, offset + 2));
        assert(rest.subrange(2, 4) == data@.subrange(offset + 2, offset + 4));
    }
    if nla_len < NLA_HDRLEN || nla_len > data.len() - offset {
        return None;
    }
    let start: usize = offset + NLA_HDRLEN;
    let end: usize = offset + nla_len;
    let next: usize = if data.len() - end < NLA_ALIGNTO {
        data.len()
    } else {
        nla_align(end)
    };
    assert(raw_type & 0x3FFF == raw_type % 0x4000) by (bit_vector);
    proof {
        let at = step(nla_len as nat, rest.len());
        let after = rest.skip(at as int);
        template::lemma_aligned_from(offset as nat, nla_len as nat, NLA_ALIGNTO as nat);
        template::lemma_aligned(nla_len as nat, NLA_ALIGNTO as nat);
        template::lemma_aligned(end as nat, NLA_ALIGNTO as nat);
        assert(rest.subrange(NLA_HDRLEN as int, nla_len as int) == data@.subrange(
            start as int,
            end as int,
        ));
        assert(after == data@.skip(offset + at));
        if data.len() - end < NLA_ALIGNTO {
            lemma_attributes_step(data@, order, offset + at);
            lemma_attributes_step(data@, order, next as int);
        }
    }
    Some(Item { kind: raw_type & NLA_TYPE_MASK, start, end, next })
}

// Reading host-order and network-order integers

fn read_u16(data: &[u8], order: ByteOrder) -> (value: u16)
    requires
        data@.len() == 2,
    ensures
        value as nat == order.value(data@),
{
    proof {
        order.lemma_value_bound(data@);
        bytes::lemma_pow_256(2);
    }
    order.get(data) as u16
}

fn read_u32(data: &[u8], order: ByteOrder) -> (value: u32)
    requires
        data@.len() == 4,
    ensures
        value as nat == order.value(data@),
{
    proof {
        order.lemma_value_bound(data@);
        bytes::lemma_pow_256(4);
    }
    order.get(data) as u32
}

fn read_u16_be(data: &[u8]) -> (value: u16)
    requires
        data@.len() >= 2,
    ensures
        value as nat == bytes::be_value(data@.take(2)),
{
    proof {
        bytes::lemma_be_value_bound(data@.take(2));
        bytes::lemma_pow_256(2);
        assert(data@.take(2) == data@.subrange(0, 2));
    }
    bytes::get_be(&data[0..2]) as u16
}

fn read_u32_be(data: &[u8]) -> (value: u32)
    requires
        data@.len() >= 4,
    ensures
        value as nat == bytes::be_value(data@.take(4)),
{
    proof {
        bytes::lemma_be_value_bound(data@.take(4));
        bytes::lemma_pow_256(4);
        assert(data@.take(4) == data@.subrange(0, 4));
    }
    bytes::get_be(&data[0..4]) as u32
}

fn read_u64_be(data: &[u8]) -> (value: u64)
    requires
        data@.len() >= 8,
    ensures
        value as nat == bytes::be_value(data@.take(8)),
{
    assert(data@.take(8) == data@.subrange(0, 8));
    bytes::get_be(&data[0..8])
}

/// One more attribute decides what its kind gives, if it is long enough.
pub proof fn lemma_push(done: Seq<Attribute>, next: Attribute, kind: u16, len: nat)
    ensures
        last_value(done.push(next), kind, len) == (if next.kind == kind && next.payload.len()
            >= len {
            Some(next.payload.take(len as int))
        } else {
            last_value(done, kind, len)
        }),
{
    assert(done.push(next).drop_last() == done);
}

/// Of two runs of attributes, the second decides where it says anything.
pub proof fn lemma_last_value_concat(first: Seq<Attribute>, second: Seq<Attribute>, kind: u16, len: nat)
    ensures
        last_value(first + second, kind, len) == (match last_value(second, kind, len) {
            Some(octets) => Some(octets),
            None => last_value(first, kind, len),
        }),
    decreases second.len(),
{
    if second.len() > 0 {
        lemma_last_value_concat(first, second.drop_last(), kind, len);
        assert((first + second).drop_last() == first + second.drop_last());
    } else {
        assert(first + second == first);
    }
}

pub proof fn lemma_nested_push(done: Seq<Attribute>, next: Attribute, kind: u16, order: ByteOrder)
    ensures
        nested(done.push(next), kind, order) == (if next.kind == kind {
            nested(done, kind, order) + attributes(next.payload, order)
        } else {
            nested(done, kind, order)
        }),
{
    assert(done.push(next).drop_last() == done);
}

pub proof fn lemma_nested_concat(
    first: Seq<Attribute>,
    second: Seq<Attribute>,
    kind: u16,
    order: ByteOrder,
)
    ensures
        nested(first + second, kind, order) == nested(first, kind, order) + nested(
            second,
            kind,
            order,
        ),
    decreases second.len(),
{
    if second.len() > 0 {
        lemma_nested_concat(first, second.drop_last(), kind, order);
        assert((first + second).drop_last() == first + second.drop_last());
        assert(nested(first + second, kind, order) == nested(first, kind, order) + nested(
            second,
            kind,
            order,
        ));
    } else {
        assert(first + second == first);
        assert(nested(first, kind, order) + Seq::<Attribute>::empty() == nested(
            first,
            kind,
            order,
        ));
    }
}

/// Parse `CTA_TUPLE_IP` nested attributes.
fn parse_tuple_ip(
    data: &[u8],
    order: ByteOrder,
    src_ip: &mut Ipv4Addr,
    dst_ip: &mut Ipv4Addr,
)
    ensures
        *final(src_ip) == addr_value(attributes(data@, order), CTA_IP_V4_SRC, *old(src_ip)),
        *final(dst_ip) == addr_value(attributes(data@, order), CTA_IP_V4_DST, *old(dst_ip)),
{
    let mut offset: usize = 0;
    let ghost all = attributes(data@, order);
    let ghost mut done: Seq<Attribute> = Seq::empty();
    assert(data@.skip(0) == data@ && done + all == all);
    loop
        invariant
            offset <= data@.len(),
            offset % NLA_ALIGNTO == 0 || offset == data@.len(),
            all == attributes(data@, order),
            all == done + attributes(data@.skip(offset as int), order),
            *src_ip == addr_value(done, CTA_IP_V4_SRC, *old(src_ip)),
            *dst_ip == addr_value(done, CTA_IP_V4_DST, *old(dst_ip)),
        decreases data@.len() - offset,
    {
        match next_attribute(data, offset, order) {
            None => {
                assert(all == done);
                return;
            },
            Some(item) => {
                let payload: &[u8] = &data[item.start..item.end];
                proof {
                    let next = Attribute { kind: item.kind, payload: payload@ };
                    let rest = attributes(data@.skip(item.next as int), order);
                    lemma_push(done, next, CTA_IP_V4_SRC, 4);
                    lemma_push(done, next, CTA_IP_V4_DST, 4);
                    assert(done + (seq![next] + rest) == done.push(next) + rest);
                    done = done.push(next);
                }
                match item.kind {
                    CTA_IP_V4_SRC if payload.len() >= 4 => {
                        *src_ip = Ipv4Addr::new(payload[0], payload[1], payload[2], payload[3]);
                    },
                    CTA_IP_V4_DST if payload.len() >= 4 => {
                        *dst_ip = Ipv4Addr::new(payload[0], payload[1], payload[2], payload[3]);
                    },
                    _ => {},
                }
                offset = item.next;
            },
        }
    }
}

/// Parse `CTA_TUPLE_PROTO` nested attributes.
fn parse_tuple_proto(
    data: &[u8],
    order: ByteOrder,
    protocol: &mut u8,
    src_port: &mut u16,
    dst_port: &mut u16,
)
    ensures
        *final(protocol) as nat == number_value(
            attributes(data@, order),
            CTA_PROTO_NUM,
            1,
            *old(protocol) as nat,
        ),
        *final(src_port) as nat == number_value(
            attributes(data@, order),
            CTA_PROTO_SRC_PORT,
            2,
            *old(src_port) as nat,
        ),
        *final(dst_port) as nat == number_value(
            attributes(data@, order),
            CTA_PROTO_DST_PORT,
            2,
            *old(dst_port) as nat,
        ),
{
    let mut offset: usize = 0;
    let ghost all = attributes(data@, order);
    let ghost mut done: Seq<Attribute> = Seq::empty();
    assert(data@.skip(0) == data@ && done + all == all);
    loop
        invariant
            offset <= data@.len(),
            offset % NLA_ALIGNTO == 0 || offset == data@.len(),
            all == attributes(data@, order),
            all == done + attributes(data@.skip(offset as int), order),
            *protocol as nat == number_value(done, CTA_PROTO_NUM, 1, *old(protocol) as nat),
            *src_port as nat == number_value(done, CTA_PROTO_SRC_PORT, 2, *old(src_port) as nat),
            *dst_port as nat == number_value(done, CTA_PROTO_DST_PORT, 2, *old(dst_port) as nat),
        decreases data@.len() - offset,
    {
        match next_attribute(data, offset, order) {
            None => {
                assert(all == done);
                return;
            },
            Some(item) => {
                let payload: &[u8] = &data[item.start..item.end];
                proof {
                    let next = Attribute { kind: item.kind, payload: payload@ };
                    let rest = attributes(data@.skip(item.next as int), order);
                    lemma_push(done, next, CTA_PROTO_NUM, 1);
                    lemma_push(done, next, CTA_PROTO_SRC_PORT, 2);
                    lemma_push(done, next, CTA_PROTO_DST_PORT, 2);
                    if payload@.len() >= 1 {
                        lemma_one_byte(payload@);
                    }
                    assert(done + (seq![next] + rest) == done.push(next) + rest);
                    done = done.push(next);
                }
                match item.kind {
                    CTA_PROTO_NUM if payload.len() >= 1 => {
                        *protocol = payload[0];
                    },
                    CTA_PROTO_SRC_PORT if payload.len() >= 2 => {
                        *src_port = read_u16_be(payload);
                    },
                    CTA_PROTO_DST_PORT if payload.len() >= 2 => {
                        *dst_port = read_u16_be(payload);
                    },
                    _ => {},
                }
                offset = item.next;
            },
        }
    }
}

/// Parse `CTA_COUNTERS` nested attributes.
fn parse_counters(
    data: &[u8],
    order: ByteOrder,
    octets: &mut u64,
    packets: &mut u64,
)
    ensures
        *final(octets) as nat == number_value(
            attributes(data@, order),
            CTA_COUNTERS_BYTES,
            8,
            *old(octets) as nat,
        ),
        *final(packets) as nat == number_value(
            attributes(data@, order),
            CTA_COUNTERS_PACKETS,
            8,
            *old(packets) as nat,
        ),
{
    let mut offset: usize = 0;
    let ghost all = attributes(data@, order);
    let ghost mut done: Seq<Attribute> = Seq::empty();
    assert(data@.skip(0) == data@ && done + all == all);
    loop
        invariant
            offset <= data@.len(),
            offset % NLA_ALIGNTO == 0 || offset == data@.len(),
            all == attributes(data@, order),
            all == done + attributes(data@.skip(offset as int), order),
            *octets as nat == number_value(done, CTA_COUNTERS_BYTES, 8, *old(octets) as nat),
            *packets as nat == number_value(done, CTA_COUNTERS_PACKETS, 8, *old(packets) as nat),
        decreases data@.len() - offset,
    {
        match next_attribute(data, offset, order) {
            None => {
                assert(all == done);
                return;
            },
            Some(item) => {
                let payload: &[u8] = &data[item.start..item.end];
                proof {
                    let next = Attribute { kind: item.kind, payload: payload@ };
                    let rest = attributes(data@.skip(item.next as int), order);
                    lemma_push(done, next, CTA_COUNTERS_BYTES, 8);
                    lemma_push(done, next, CTA_COUNTERS_PACKETS, 8);
                    assert(done + (seq![next] + rest) == done.push(next) + rest);
                    done = done.push(next);
                }
                match item.kind {
                    CTA_COUNTERS_PACKETS if payload.len() >= 8 => {
                        *packets = read_u64_be(payload);
                    },
                    CTA_COUNTERS_BYTES if payload.len() >= 8 => {
                        *octets = read_u64_be(payload);
                    },
                    _ => {},
                }
                offset = item.next;
            },
        }
    }
}

proof fn lemma_one_byte(payload: Seq<u8>)
    requires
        payload.len() >= 1,
    ensures
        bytes::be_value(payload.take(1)) == payload[0],
{
    reveal_with_fuel(bytes::be_value, 2);
}

/// Of two runs of attributes, the second decides an address where it gives one.
proof fn lemma_addr_concat(
    first: Seq<Attribute>,
    second: Seq<Attribute>,
    kind: u16,
    default: Ipv4Addr,
)
    ensures
        addr_value(first + second, kind, default) == addr_value(
            second,
            kind,
            addr_value(first, kind, default),
        ),
{
    lemma_last_value_concat(first, second, kind, 4);
}

/// Of two runs of attributes, the second decides a number where it gives one.
proof fn lemma_number_concat(
    first: Seq<Attribute>,
    second: Seq<Attribute>,
    kind: u16,
    len: nat,
    default: nat,
)
    ensures
        number_value(first + second, kind, len, default) == number_value(
            second,
            kind,
            len,
            number_value(first, kind, len, default),
        ),
{
    lemma_last_value_concat(first, second, kind, len);
}

/// Parse a `CTA_TUPLE` (ORIG or REPLY) nested attribute.
fn parse_tuple(
    data: &[u8],
    order: ByteOrder,
    src_ip: &mut Ipv4Addr,
    dst_ip: &mut Ipv4Addr,
    protocol: &mut u8,
    src_port: &mut u16,
    dst_port: &mut u16,
)
    ensures
        *final(src_ip) == tuple_addr(
            attributes(data@, order),
            CTA_IP_V4_SRC,
            *old(src_ip),
            order,
        ),
        *final(dst_ip) == tuple_addr(
            attributes(data@, order),
            CTA_IP_V4_DST,
            *old(dst_ip),
            order,
        ),
        *final(protocol) as nat == tuple_number(
            attributes(data@, order),
            CTA_PROTO_NUM,
            1,
            *old(protocol) as nat,
            order,
        ),
        *final(src_port) as nat == tuple_number(
            attributes(data@, order),
            CTA_PROTO_SRC_PORT,
            2,
            *old(src_port) as nat,
            order,
        ),
        *final(dst_port) as nat == tuple_number(
            attributes(data@, order),
            CTA_PROTO_DST_PORT,
            2,
            *old(dst_port) as nat,
            order,
        ),
{
    let mut offset: usize = 0;
    let ghost all = attributes(data@, order);
    let ghost mut done: Seq<Attribute> = Seq::empty();
    assert(data@.skip(0) == data@ && done + all == all);
    loop
        invariant
            offset <= data@.len(),
            offset % NLA_ALIGNTO == 0 || offset == data@.len(),
            all == attributes(data@, order),
            all == done + attributes(data@.skip(offset as int), order),
            *src_ip == tuple_addr(done, CTA_IP_V4_SRC, *old(src_ip), order),
            *dst_ip == tuple_addr(done, CTA_IP_V4_DST, *old(dst_ip), order),
            *protocol as nat == tuple_number(
                done,
                CTA_PROTO_NUM,
                1,
                *old(protocol) as nat,
                order,
            ),
            *src_port as nat == tuple_number(
                done,
                CTA_PROTO_SRC_PORT,
                2,
                *old(src_port) as nat,
                order,
            ),
            *dst_port as nat == tuple_number(
                done,
                CTA_PROTO_DST_PORT,
                2,
                *old(dst_port) as nat,
                order,
            ),
        decreases data@.len() - offset,
    {
        match next_attribute(data, offset, order) {
            None => {
                assert(all == done);
                return;
            },
            Some(item) => {
                let payload: &[u8] = &data[item.start..item.end];
                proof {
                    let next = Attribute { kind: item.kind, payload: payload@ };
                    let rest = attributes(data@.skip(item.next as int), order);
                    let inner = attributes(payload@, order);
                    let ips = nested(done, CTA_TUPLE_IP, order);
                    let protos = nested(done, CTA_TUPLE_PROTO, order);
                    lemma_nested_push(done, next, CTA_TUPLE_IP, order);
                    lemma_nested_push(done, next, CTA_TUPLE_PROTO, order);
                    lemma_addr_concat(ips, inner, CTA_IP_V4_SRC, *old(src_ip));
                    lemma_addr_concat(ips, inner, CTA_IP_V4_DST, *old(dst_ip));
                    lemma_number_concat(protos, inner, CTA_PROTO_NUM, 1, *old(protocol) as nat);
                    lemma_number_concat(
                        protos,
                        inner,
                        CTA_PROTO_SRC_PORT,
                        2,
                        *old(src_port) as nat,
                    );
                    lemma_number_concat(
                        protos,
                        inner,
                        CTA_PROTO_DST_PORT,
                        2,
                        *old(dst_port) as nat,
                    );
                    assert(done + (seq![next] + rest) == done.push(next) + rest);
                    done = done.push(next);
                }
                match item.kind {
                    CTA_TUPLE_IP => {
                        parse_tuple_ip(payload, order, src_ip, dst_ip);
                    },
                    CTA_TUPLE_PROTO => {
                        parse_tuple_proto(payload, order, protocol, src_port, dst_port);
                    },
                    _ => {},
                }
                offset = item.next;
            },
        }
    }
}

proof fn lemma_tuple_addr_concat(
    first: Seq<Attribute>,
    second: Seq<Attribute>,
    kind: u16,
    default: Ipv4Addr,
    order: ByteOrder,
)
    ensures
        tuple_addr(first + second, kind, default, order) == tuple_addr(
            second,
            kind,
            tuple_addr(first, kind, default, order),
            order,
        ),
{
    lemma_nested_concat(first, second, CTA_TUPLE_IP, order);
    lemma_addr_concat(
        nested(first, CTA_TUPLE_IP, order),
        nested(second, CTA_TUPLE_IP, order),
        kind,
        default,
    );
}

proof fn lemma_tuple_number_concat(
    first: Seq<Attribute>,
    second: Seq<Attribute>,
    kind: u16,
    len: nat,
    default: nat,
    order: ByteOrder,
)
    ensures
        tuple_number(first + second, kind, len, default, order) == tuple_number(
            second,
            kind,
            len,
            tuple_number(first, kind, len, default, order),
            order,
        ),
{
    lemma_nested_concat(first, second, CTA_TUPLE_PROTO, order);
    lemma_number_concat(
        nested(first, CTA_TUPLE_PROTO, order),
        nested(second, CTA_TUPLE_PROTO, order),
        kind,
        len,
        default,
    );
}

/// A number of `len` bytes fits in `len` bytes.
proof fn lemma_number_bound(attributes_of: Seq<Attribute>, kind: u16, len: nat)
    ensures
        number_value(attributes_of, kind, len, 0) < vstd::arithmetic::power::pow(256, len),
    decreases attributes_of.len(),
{
    vstd::arithmetic::power::lemma_pow_positive(256, len);
    if attributes_of.len() > 0 {
        lemma_number_bound(attributes_of.drop_last(), kind, len);
        if attributes_of.last().kind == kind && attributes_of.last().payload.len() >= len {
            bytes::lemma_be_value_bound(attributes_of.last().payload.take(len as int));
        }
    }
}

/// The numbers of an event, before they are brought to their width.
pub proof fn lemma_described_numbers(attributes_of: Seq<Attribute>, kind: u16, order: ByteOrder)
    ensures
        ({
            let inner = nested(attributes_of, kind, order);
            &&& tuple_number(inner, CTA_PROTO_NUM, 1, 0, order) < 0x100
            &&& tuple_number(inner, CTA_PROTO_SRC_PORT, 2, 0, order) < 0x1_0000
            &&& tuple_number(inner, CTA_PROTO_DST_PORT, 2, 0, order) < 0x1_0000
            &&& number_value(inner, CTA_COUNTERS_BYTES, 8, 0) < 0x1_0000_0000_0000_0000
            &&& number_value(inner, CTA_COUNTERS_PACKETS, 8, 0) < 0x1_0000_0000_0000_0000
        }),
{
    let inner = nested(attributes_of, kind, order);
    let protos = nested(inner, CTA_TUPLE_PROTO, order);
    lemma_number_bound(protos, CTA_PROTO_NUM, 1);
    lemma_number_bound(protos, CTA_PROTO_SRC_PORT, 2);
    lemma_number_bound(protos, CTA_PROTO_DST_PORT, 2);
    lemma_number_bound(inner, CTA_COUNTERS_BYTES, 8);
    lemma_number_bound(inner, CTA_COUNTERS_PACKETS, 8);
    bytes::lemma_pow_256(8);
    reveal_with_fuel(vstd::arithmetic::power::pow, 2);
}

/// How a nested attribute that comes next changes what is known of its kind.
proof fn lemma_nested_next(
    done: Seq<Attribute>,
    next: Attribute,
    kind: u16,
    order: ByteOrder,
)
    ensures
        ({
            let none = Ipv4Addr { a: 0, b: 0, c: 0, d: 0 };
            let before = nested(done, kind, order);
            let after = nested(done.push(next), kind, order);
            let inner = attributes(next.payload, order);
            if next.kind == kind {
                &&& tuple_addr(after, CTA_IP_V4_SRC, none, order) == tuple_addr(
                    inner,
                    CTA_IP_V4_SRC,
                    tuple_addr(before, CTA_IP_V4_SRC, none, order),
                    order,
                )
                &&& tuple_addr(after, CTA_IP_V4_DST, none, order) == tuple_addr(
                    inner,
                    CTA_IP_V4_DST,
                    tuple_addr(before, CTA_IP_V4_DST, none, order),
                    order,
                )
                &&& tuple_number(after, CTA_PROTO_NUM, 1, 0, order) == tuple_number(
                    inner,
                    CTA_PROTO_NUM,
                    1,
                    tuple_number(before, CTA_PROTO_NUM, 1, 0, order),
                    order,
                )
                &&& tuple_number(after, CTA_PROTO_SRC_PORT, 2, 0, order) == tuple_number(
                    inner,
                    CTA_PROTO_SRC_PORT,
                    2,
                    tuple_number(before, CTA_PROTO_SRC_PORT, 2, 0, order),
                    order,
                )
                &&& tuple_number(after, CTA_PROTO_DST_PORT, 2, 0, order) == tuple_number(
                    inner,
                    CTA_PROTO_DST_PORT,
                    2,
                    tuple_number(before, CTA_PROTO_DST_PORT, 2, 0, order),
                    order,
                )
                &&& number_value(after, CTA_COUNTERS_BYTES, 8, 0) == number_value(
                    inner,
                    CTA_COUNTERS_BYTES,
                    8,
                    number_value(before, CTA_COUNTERS_BYTES, 8, 0),
                )
                &&& number_value(after, CTA_COUNTERS_PACKETS, 8, 0) == number_value(
                    inner,
                    CTA_COUNTERS_PACKETS,
                    8,
                    number_value(before, CTA_COUNTERS_PACKETS, 8, 0),
                )
            } else {
                after == before
            }
        }),
{
    let none = Ipv4Addr { a: 0, b: 0, c: 0, d: 0 };
    let before = nested(done, kind, order);
    let inner = attributes(next.payload, order);
    lemma_nested_push(done, next, kind, order);
    lemma_tuple_addr_concat(before, inner, CTA_IP_V4_SRC, none, order);
    lemma_tuple_addr_concat(before, inner, CTA_IP_V4_DST, none, order);
    lemma_tuple_number_concat(before, inner, CTA_PROTO_NUM, 1, 0, order);
    lemma_tuple_number_concat(before, inner, CTA_PROTO_SRC_PORT, 2, 0, order);
    lemma_tuple_number_concat(before, inner, CTA_PROTO_DST_PORT, 2, 0, order);
    lemma_number_concat(before, inner, CTA_COUNTERS_BYTES, 8, 0);
    lemma_number_concat(before, inner, CTA_COUNTERS_PACKETS, 8, 0);
}

/// What is known of an event once one more of its attributes is: an attribute
/// overrides what came before only where it says anything.
spec fn taken(event: ConntrackEvent, next: Attribute, order: ByteOrder) -> ConntrackEvent {
    let inner = attributes(next.payload, order);
    if next.kind == CTA_TUPLE_ORIG {
        ConntrackEvent {
            protocol: tuple_number(inner, CTA_PROTO_NUM, 1, event.protocol as nat, order) as u8,
            src_ip: tuple_addr(inner, CTA_IP_V4_SRC, event.src_ip, order),
            dst_ip: tuple_addr(inner, CTA_IP_V4_DST, event.dst_ip, order),
            src_port: tuple_number(
                inner,
                CTA_PROTO_SRC_PORT,
                2,
                event.src_port as nat,
                order,
            ) as u16,
            dst_port: tuple_number(
                inner,
                CTA_PROTO_DST_PORT,
                2,
                event.dst_port as nat,
                order,
            ) as u16,
            ..event
        }
    } else if next.kind == CTA_TUPLE_REPLY {
        ConntrackEvent {
            post_nat_src_ip: tuple_addr(inner, CTA_IP_V4_DST, event.post_nat_src_ip, order),
            post_nat_src_port: tuple_number(
                inner,
                CTA_PROTO_DST_PORT,
                2,
                event.post_nat_src_port as nat,
                order,
            ) as u16,
            post_nat_dst_ip: tuple_addr(inner, CTA_IP_V4_SRC, event.post_nat_dst_ip, order),
            post_nat_dst_port: tuple_number(
                inner,
                CTA_PROTO_SRC_PORT,
                2,
                event.post_nat_dst_port as nat,
                order,
            ) as u16,
            ..event
        }
    } else if next.kind == CTA_COUNTERS_ORIG {
        ConntrackEvent {
            orig_bytes: number_value(inner, CTA_COUNTERS_BYTES, 8, event.orig_bytes as nat) as u64,
            orig_packets: number_value(
                inner,
                CTA_COUNTERS_PACKETS,
                8,
                event.orig_packets as nat,
            ) as u64,
            ..event
        }
    } else if next.kind == CTA_COUNTERS_REPLY {
        ConntrackEvent {
            reply_bytes: number_value(
                inner,
                CTA_COUNTERS_BYTES,
                8,
                event.reply_bytes as nat,
            ) as u64,
            reply_packets: number_value(
                inner,
                CTA_COUNTERS_PACKETS,
                8,
                event.reply_packets as nat,
            ) as u64,
            ..event
        }
    } else {
        event
    }
}

/// What the attributes of an event read so far say about it.
#[verifier::opaque]
spec fn so_far(
    nat_event: NatEventType,
    done: Seq<Attribute>,
    order: ByteOrder,
) -> (ConntrackEvent, Option<u32>) {
    (described(nat_event, done, order), status_value(done))
}

proof fn lemma_nothing_so_far(nat_event: NatEventType, order: ByteOrder)
    ensures
        so_far(nat_event, Seq::empty(), order) == (
            ConntrackEvent {
                nat_event,
                protocol: 0,
                src_ip: Ipv4Addr { a: 0, b: 0, c: 0, d: 0 },
                dst_ip: Ipv4Addr { a: 0, b: 0, c: 0, d: 0 },
                src_port: 0,
                dst_port: 0,
                post_nat_src_ip: Ipv4Addr { a: 0, b: 0, c: 0, d: 0 },
                post_nat_src_port: 0,
                post_nat_dst_ip: Ipv4Addr { a: 0, b: 0, c: 0, d: 0 },
                post_nat_dst_port: 0,
                orig_bytes: 0,
                orig_packets: 0,
                reply_bytes: 0,
                reply_packets: 0,
            },
            None::<u32>,
        ),
{
    reveal(so_far);
    lemma_nothing_nested(CTA_TUPLE_ORIG, order);
    lemma_nothing_nested(CTA_TUPLE_REPLY, order);
    lemma_nothing_nested(CTA_COUNTERS_ORIG, order);
    lemma_nothing_nested(CTA_COUNTERS_REPLY, order);
}

proof fn lemma_next_so_far(
    nat_event: NatEventType,
    done: Seq<Attribute>,
    next: Attribute,
    order: ByteOrder,
)
    ensures
        so_far(nat_event, done.push(next), order) == (
            taken(so_far(nat_event, done, order).0, next, order),
            if next.kind == CTA_STATUS && next.payload.len() >= 4 {
                Some(bytes::be_value(next.payload.take(4)) as u32)
            } else {
                so_far(nat_event, done, order).1
            },
        ),
{
    reveal(so_far);
    lemma_described_numbers(done, CTA_TUPLE_ORIG, order);
    lemma_described_numbers(done, CTA_TUPLE_REPLY, order);
    lemma_described_numbers(done, CTA_COUNTERS_ORIG, order);
    lemma_described_numbers(done, CTA_COUNTERS_REPLY, order);
    lemma_nested_next(done, next, CTA_TUPLE_ORIG, order);
    lemma_nested_next(done, next, CTA_TUPLE_REPLY, order);
    lemma_nested_next(done, next, CTA_COUNTERS_ORIG, order);
    lemma_nested_next(done, next, CTA_COUNTERS_REPLY, order);
    lemma_push(done, next, CTA_STATUS, 4);
}

/// Take in one attribute of an event.
fn take_attribute(
    kind: u16,
    payload: &[u8],
    order: ByteOrder,
    event: &mut ConntrackEvent,
    status: &mut Option<u32>,
)
    ensures
        *final(event) == taken(*old(event), Attribute { kind, payload: payload@ }, order),
        *final(status) == (if kind == CTA_STATUS && payload@.len() >= 4 {
            Some(bytes::be_value(payload@.take(4)) as u32)
        } else {
            *old(status)
        }),
{
    match kind {
        CTA_TUPLE_ORIG => {
            parse_tuple(
                payload,
                order,
                &mut event.src_ip,
                &mut event.dst_ip,
                &mut event.protocol,
                &mut event.src_port,
                &mut event.dst_port,
            );
        },
        CTA_TUPLE_REPLY => {
            // The reply tuple repeats the original's protocol; parse_tuple
            // needs somewhere to put it, and we have it already.
            let mut repeated_proto: u8 = 0;
            parse_tuple(
                payload,
                order,
                &mut event.post_nat_dst_ip,
                &mut event.post_nat_src_ip,
                &mut repeated_proto,
                &mut event.post_nat_dst_port,
                &mut event.post_nat_src_port,
            );
        },
        CTA_STATUS => {
            if payload.len() >= 4 {
                *status = Some(read_u32_be(payload));
            }
        },
        CTA_COUNTERS_ORIG => {
            parse_counters(payload, order, &mut event.orig_bytes, &mut event.orig_packets);
        },
        CTA_COUNTERS_REPLY => {
            parse_counters(payload, order, &mut event.reply_bytes, &mut event.reply_packets);
        },
        _ => {},
    }
}

/// Parse the NLA attribute tree within a single conntrack message. Only events
/// whose status says that an address was translated are reported.
pub fn parse_nla_tree(
    nat_event: NatEventType,
    data: &[u8],
    order: ByteOrder,
) -> (event: Option<ConntrackEvent>)
    ensures
        event == reported(nat_event, attributes(data@, order), order),
{
    let mut event: ConntrackEvent = ConntrackEvent {
        nat_event,
        protocol: 0,
        src_ip: Ipv4Addr::unspecified(),
        dst_ip: Ipv4Addr::unspecified(),
        src_port: 0,
        dst_port: 0,
        post_nat_src_ip: Ipv4Addr::unspecified(),
        post_nat_src_port: 0,
        post_nat_dst_ip: Ipv4Addr::unspecified(),
        post_nat_dst_port: 0,
        orig_bytes: 0,
        orig_packets: 0,
        reply_bytes: 0,
        reply_packets: 0,
    };
    let mut status: Option<u32> = None;

    let mut offset: usize = 0;
    let ghost all = attributes(data@, order);
    let ghost mut done: Seq<Attribute> = Seq::empty();
    proof {
        assert(data@.skip(0) == data@ && done + all == all);
        lemma_nothing_so_far(nat_event, order);
    }
    loop
        invariant
            offset <= data@.len(),
            offset % NLA_ALIGNTO == 0 || offset == data@.len(),
            all == attributes(data@, order),
            all == done + attributes(data@.skip(offset as int), order),
            (event, status) == so_far(nat_event, done, order),
        ensures
            (event, status) == so_far(nat_event, all, order),
        decreases data@.len() - offset,
    {
        match next_attribute(data, offset, order) {
            None => {
                assert(all == done);
                break;
            },
            Some(item) => {
                let payload: &[u8] = &data[item.start..item.end];
                proof {
                    let next = Attribute { kind: item.kind, payload: payload@ };
                    let rest = attributes(data@.skip(item.next as int), order);
                    lemma_next_so_far(nat_event, done, next, order);
                    assert(done + (seq![next] + rest) == done.push(next) + rest);
                    done = done.push(next);
                }
                take_attribute(item.kind, payload, order, &mut event, &mut status);
                offset = item.next;
            },
        }
    }

    // Filter: must have status with NAT bits set
    proof {
        reveal(so_far);
    }
    match status {
        Some(status) if status & IPS_NAT_MASK != 0 => Some(event),
        _ => None,
    }
}

proof fn lemma_nothing_nested(kind: u16, order: ByteOrder)
    ensures
        nested(Seq::empty(), kind, order) == Seq::<Attribute>::empty(),
        nested(nested(Seq::empty(), kind, order), CTA_TUPLE_IP, order) == Seq::<
            Attribute,
        >::empty(),
        nested(nested(Seq::empty(), kind, order), CTA_TUPLE_PROTO, order) == Seq::<
            Attribute,
        >::empty(),
{
}

proof fn lemma_messages_end(buf: Seq<u8>, order: ByteOrder, offset: int)
    requires
        0 <= offset <= buf.len(),
        buf.len() - offset < NLMSG_HDRLEN,
    ensures
        messages(buf.skip(offset), order) == Seq::<Message>::empty(),
{
}

/// What a message type says happened to a session.
fn session_change_of(nlmsg_type: u16) -> (change: Option<NatEventType>)
    ensures
        change == session_change(nlmsg_type),
{
    assert(nlmsg_type >> 8 == nlmsg_type / 256) by (bit_vector);
    assert(nlmsg_type & 0xFF == nlmsg_type % 256) by (bit_vector);
    // Only conntrack messages carry the event layout parsed here. Without
    // this check the low byte alone decides, and NLMSG_ERROR (0x2) is
    // indistinguishable from IPCTNL_MSG_CT_DELETE, as is any message from
    // another nfnetlink subsystem whose type happens to collide.
    if nlmsg_type < NLMSG_MIN_TYPE || (nlmsg_type >> 8) != NFNL_SUBSYS_CTNETLINK {
        return None;
    }
    let msg_type: u8 = (nlmsg_type & 0xFF) as u8;
    match msg_type {
        IPCTNL_MSG_CT_NEW => Some(NatEventType::Create),
        IPCTNL_MSG_CT_DELETE => Some(NatEventType::Delete),
        _ => None,
    }
}

/// What stands at some place among the messages of a datagram.
struct Envelope {
    kind: u16,
    family: u8,
    /// Where the attributes start and end.
    start: usize,
    end: usize,
    /// Where the next message starts.
    next: usize,
}

/// Find the message at `offset`, if there is a whole one.
fn next_message(buf: &[u8], offset: usize, order: ByteOrder) -> (envelope: Option<Envelope>)
    requires
        offset <= buf@.len(),
        offset % NLA_ALIGNTO == 0 || offset == buf@.len(),
    ensures
        match envelope {
            Some(envelope) => {
                &&& offset < envelope.start <= envelope.end <= envelope.next <= buf@.len()
                &&& envelope.next % NLA_ALIGNTO == 0 || envelope.next == buf@.len()
                &&& messages(buf@.skip(offset as int), order) == seq![
                    Message {
                        kind: envelope.kind,
                        family: envelope.family,
                        body: buf@.subrange(envelope.start as int, envelope.end as int),
                    },
                ] + messages(buf@.skip(envelope.next as int), order)
            },
            None => messages(buf@.skip(offset as int), order) == Seq::<Message>::empty(),
        },
{
    if buf.len() - offset < NLMSG_HDRLEN {
        return None;
    }
    // Parse nlmsghdr: u32 len, u16 type, u16 flags, u32 seq, u32 pid
    let nlmsg_len: usize = read_u32(&buf[offset..offset + 4], order) as usize;
    let kind: u16 = read_u16(&buf[offset + 4..offset + 6], order);
    let ghost rest = buf@.skip(offset as int);
    proof {
        assert(rest.take(4) == buf@.subrange(offset as int, offset + 4));
        assert(rest.subrange(4, 6) == buf@.subrange(offset + 4, offset + 6));
    }
    if nlmsg_len < NLMSG_HDRLEN + NFGENMSG_LEN || nlmsg_len > buf.len() - offset {
        return None;
    }
    // Parse nfgenmsg: u8 nfgen_family, u8 version, u16 res_id
    let family: u8 = buf[offset + NLMSG_HDRLEN];
    let start: usize = offset + NLMSG_HDRLEN + NFGENMSG_LEN;
    let end: usize = offset + nlmsg_len;
    let next: usize = if buf.len() - end < NLA_ALIGNTO {
        buf.len()
    } else {
        nla_align(end)
    };
    proof {
        let at = step(nlmsg_len as nat, rest.len());
        let after = rest.skip(at as int);
        template::lemma_aligned_from(offset as nat, nlmsg_len as nat, NLA_ALIGNTO as nat);
        template::lemma_aligned(nlmsg_len as nat, NLA_ALIGNTO as nat);
        template::lemma_aligned(end as nat, NLA_ALIGNTO as nat);
        assert(rest.subrange(NLMSG_HDRLEN + NFGENMSG_LEN, nlmsg_len as int) == buf@.subrange(
            start as int,
            end as int,
        ));
        assert(after == buf@.skip(offset + at));
        if buf.len() - end < NLA_ALIGNTO {
            lemma_messages_end(buf@, order, offset + at);
            lemma_messages_end(buf@, order, next as int);
        }
    }
    Some(Envelope { kind, family, start, end, next })
}

/// Parse all conntrack messages from a netlink recv buffer whose headers are in
/// the given byte order. Returns the valid NAT events found, in order.
pub fn parse_conntrack_messages_in(buf: &[u8], order: ByteOrder) -> (found: Vec<ConntrackEvent>)
    ensures
        found@ == events(buf@, order),
{
    let mut found: Vec<ConntrackEvent> = Vec::new();
    let mut offset: usize = 0;
    let ghost all = messages(buf@, order);
    let ghost mut done: Seq<Message> = Seq::empty();
    assert(buf@.skip(0) == buf@ && done + all == all);
    loop
        invariant
            offset <= buf@.len(),
            offset % NLA_ALIGNTO == 0 || offset == buf@.len(),
            all == messages(buf@, order),
            all == done + messages(buf@.skip(offset as int), order),
            found@ == events_of(done, order),
        decreases buf@.len() - offset,
    {
        match next_message(buf, offset, order) {
            None => {
                assert(all == done);
                return found;
            },
            Some(envelope) => {
                let body: &[u8] = &buf[envelope.start..envelope.end];
                proof {
                    let message = Message {
                        kind: envelope.kind,
                        family: envelope.family,
                        body: body@,
                    };
                    let behind = messages(buf@.skip(envelope.next as int), order);
                    assert(done + (seq![message] + behind) == done.push(message) + behind);
                    assert(done.push(message).drop_last() == done);
                    done = done.push(message);
                }
                // Only handle the start and the end of IPv4 sessions
                if let Some(nat_event) = session_change_of(envelope.kind) {
                    if envelope.family == NFPROTO_IPV4 {
                        if let Some(event) = parse_nla_tree(nat_event, body, order) {
                            found.push(event);
                        }
                    }
                }
                offset = envelope.next;
            },
        }
    }
}

/// Parse all conntrack messages from a netlink recv buffer. Returns the valid
/// NAT events found, in order.
///
/// Netlink headers are in the byte order of the machine.
pub fn parse_conntrack_messages(buf: &[u8]) -> (found: Vec<ConntrackEvent>)
    ensures
        found@ == events(buf@, bytes::native_order()),
{
    let order: ByteOrder = ByteOrder::native();
    parse_conntrack_messages_in(buf, order)
}

} // verus!
