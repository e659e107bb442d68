//! What is read where in a datagram, by the numbers of the attributes: which of them
//! gives which value of an event, and what an event is worth where they are missing.

use super::laws;
use super::parser;
use super::parser::{Attribute, Message};
use crate::bytes;
use crate::bytes::ByteOrder;
use crate::event::{ConntrackEvent, NatEventType};
use crate::export::reading;
use crate::export::template;
use crate::net::Ipv4Addr;
use vstd::prelude::*;

verus! {

/// An attribute gives a value of `len` bytes of a kind.
pub open spec fn gives(attribute: Attribute, kind: u16, len: nat) -> bool {
    attribute.kind == kind && attribute.payload.len() >= len
}

/// Of several attributes that give a value, the last one decides, and what it holds
/// beyond the value is passed over.
pub proof fn law_last_attribute_decides(attributes: Seq<Attribute>, kind: u16, len: nat, i: int)
    requires
        0 <= i < attributes.len(),
        gives(attributes[i], kind, len),
        forall|j: int| i < j < attributes.len() ==> !gives(#[trigger] attributes[j], kind, len),
    ensures
        parser::last_value(attributes, kind, len) == Some(attributes[i].payload.take(len as int)),
    decreases attributes.len(),
{
    if i < attributes.len() - 1 {
        let shorter = attributes.drop_last();
        assert(!gives(attributes[attributes.len() - 1], kind, len));
        assert forall|j: int| i < j < shorter.len() implies !gives(
            #[trigger] shorter[j],
            kind,
            len,
        ) by {
            assert(!gives(attributes[j], kind, len));
        }
        law_last_attribute_decides(shorter, kind, len, i);
    }
}

/// Where no attribute gives a value, there is none.
pub proof fn law_no_attribute_no_value(attributes: Seq<Attribute>, kind: u16, len: nat)
    requires
        forall|j: int| 0 <= j < attributes.len() ==> !gives(#[trigger] attributes[j], kind, len),
    ensures
        parser::last_value(attributes, kind, len) is None,
    decreases attributes.len(),
{
    if attributes.len() > 0 {
        let shorter = attributes.drop_last();
        assert(!gives(attributes[attributes.len() - 1], kind, len));
        assert forall|j: int| 0 <= j < shorter.len() implies !gives(
            #[trigger] shorter[j],
            kind,
            len,
        ) by {
            assert(!gives(attributes[j], kind, len));
        }
        law_no_attribute_no_value(shorter, kind, len);
    }
}

/// What is nested in attributes of a kind is what stands in each of them, one behind
/// another.
pub proof fn law_nested_attributes_add_up(
    attributes: Seq<Attribute>,
    next: Attribute,
    kind: u16,
    order: ByteOrder,
)
    ensures
        parser::nested(Seq::empty(), kind, order).len() == 0,
        parser::nested(attributes.push(next), kind, order) == parser::nested(
            attributes,
            kind,
            order,
        ) + (if next.kind == kind {
            parser::attributes(next.payload, order)
        } else {
            Seq::empty()
        }),
{
    parser::lemma_nested_push(attributes, next, kind, order);
    assert(parser::nested(attributes, kind, order) + Seq::<Attribute>::empty() == parser::nested(
        attributes,
        kind,
        order,
    ));
}

/// An address is the four octets some attributes give, or zero.
pub open spec fn is_address(addr: Ipv4Addr, attributes: Seq<Attribute>, kind: u16) -> bool {
    match parser::last_value(attributes, kind, 4) {
        Some(octets) => addr.a == octets[0] && addr.b == octets[1] && addr.c == octets[2] && addr.d
            == octets[3],
        None => addr.a == 0 && addr.b == 0 && addr.c == 0 && addr.d == 0,
    }
}

/// A number is what `len` bytes some attributes give spell in network order, or zero.
pub open spec fn is_number(value: int, attributes: Seq<Attribute>, kind: u16, len: nat) -> bool {
    match parser::last_value(attributes, kind, len) {
        Some(octets) => value == bytes::be_value(octets),
        None => value == 0,
    }
}

/// Which attribute gives which value of an event. The original tuple is in those of
/// kind one and the reply tuple in those of kind two; in a tuple, the addresses are in
/// kind one, and the protocol and the ports in kind two. The counters of the two
/// directions are in kinds nine and ten. The reply tuple is addressed to what the
/// source became, and comes from what the destination became. What no attribute gives
/// is zero.
pub proof fn law_where_values_come_from(
    nat_event: NatEventType,
    attributes: Seq<Attribute>,
    order: ByteOrder,
)
    ensures
        ({
            let event = parser::described(nat_event, attributes, order);
            let orig = parser::nested(attributes, 1, order);
            let reply = parser::nested(attributes, 2, order);
            let orig_addrs = parser::nested(orig, 1, order);
            let orig_ports = parser::nested(orig, 2, order);
            let reply_addrs = parser::nested(reply, 1, order);
            let reply_ports = parser::nested(reply, 2, order);
            let sent = parser::nested(attributes, 9, order);
            let returned = parser::nested(attributes, 10, order);
            &&& event.nat_event == nat_event
            &&& is_address(event.src_ip, orig_addrs, 1)
            &&& is_address(event.dst_ip, orig_addrs, 2)
            &&& is_number(event.protocol as int, orig_ports, 1, 1)
            &&& is_number(event.src_port as int, orig_ports, 2, 2)
            &&& is_number(event.dst_port as int, orig_ports, 3, 2)
            &&& is_address(event.post_nat_dst_ip, reply_addrs, 1)
            &&& is_address(event.post_nat_src_ip, reply_addrs, 2)
            &&& is_number(event.post_nat_dst_port as int, reply_ports, 2, 2)
            &&& is_number(event.post_nat_src_port as int, reply_ports, 3, 2)
            &&& is_number(event.orig_packets as int, sent, 1, 8)
            &&& is_number(event.orig_bytes as int, sent, 2, 8)
            &&& is_number(event.reply_packets as int, returned, 1, 8)
            &&& is_number(event.reply_bytes as int, returned, 2, 8)
        }),
{
    parser::lemma_described_numbers(attributes, 1, order);
    parser::lemma_described_numbers(attributes, 2, order);
    parser::lemma_described_numbers(attributes, 9, order);
    parser::lemma_described_numbers(attributes, 10, order);
}

/// An event is reported exactly if the last status that is given says that its source
/// or its destination was translated, by its bits for sixteen and thirty-two.
pub proof fn law_what_is_reported(
    nat_event: NatEventType,
    attributes: Seq<Attribute>,
    order: ByteOrder,
)
    ensures
        ({
            let report = parser::reported(nat_event, attributes, order);
            let translated = match parser::last_value(attributes, 3, 4) {
                Some(octets) => (bytes::be_value(octets) as int / 16) % 4 != 0,
                None => false,
            };
            &&& report is Some <==> translated
            &&& report matches Some(event) ==> event == parser::described(
                nat_event,
                attributes,
                order,
            )
        }),
{
    lemma_last_value_len(attributes, 3, 4);
    if let Some(octets) = parser::last_value(attributes, 3, 4) {
        bytes::lemma_be_value_bound(octets);
        bytes::lemma_pow_256(4);
        let status = bytes::be_value(octets) as u32;
        assert(status & 0x30 != 0 <==> (status / 16) % 4 != 0) by (bit_vector);
    }
}

proof fn lemma_last_value_len(attributes: Seq<Attribute>, kind: u16, len: nat)
    ensures
        parser::last_value(attributes, kind, len) matches Some(octets) ==> octets.len() == len,
    decreases attributes.len(),
{
    if attributes.len() > 0 {
        lemma_last_value_len(attributes.drop_last(), kind, len);
    }
}

/// Which messages are about a session: those of the conntrack subsystem, which is the
/// high byte, that say it is new, and those that say it is gone. Only IPv4 sessions
/// are reported.
pub proof fn law_which_messages_report(message: Message, order: ByteOrder)
    ensures
        parser::event_of(message, order) == (if message.family != 2 {
            None
        } else if message.kind == 0x100 {
            parser::reported(
                NatEventType::Create,
                parser::attributes(message.body, order),
                order,
            )
        } else if message.kind == 0x102 {
            parser::reported(
                NatEventType::Delete,
                parser::attributes(message.body, order),
                order,
            )
        } else {
            None
        }),
{
}

/// The events of some messages are those of each, in their order.
pub proof fn law_events_add_up(messages: Seq<Message>, next: Message, order: ByteOrder)
    ensures
        parser::events_of(Seq::empty(), order).len() == 0,
        parser::events_of(messages.push(next), order) == (match parser::event_of(next, order) {
            Some(event) => parser::events_of(messages, order).push(event),
            None => parser::events_of(messages, order),
        }),
{
    assert(messages.push(next).drop_last() == messages);
}

/// Reading attributes ends where there is no room for the header of another one, or
/// where that claims to be shorter than its header or longer than what is left.
pub proof fn law_attributes_end(data: Seq<u8>, order: ByteOrder)
    ensures
        parser::attributes(data, order).len() == 0 <==> data.len() < 4 || order.value(data.take(2))
            < 4 || order.value(data.take(2)) > data.len(),
{
}

/// Reading messages ends where there is no room for the header of another one, or
/// where that claims to be shorter than its headers or longer than what is left.
pub proof fn law_messages_end(buf: Seq<u8>, order: ByteOrder)
    ensures
        parser::messages(buf, order).len() == 0 <==> buf.len() < 16 || order.value(buf.take(4))
            < 20 || order.value(buf.take(4)) > buf.len(),
{
}

/// The last attribute needs no padding to be read.
pub proof fn law_last_attribute_needs_no_padding(order: ByteOrder, kind: u16, payload: Seq<u8>)
    requires
        4 + payload.len() < 0x1_0000,
    ensures
        parser::attributes(
            order.bytes(4 + payload.len(), 2) + order.bytes(kind as nat, 2) + payload,
            order,
        ) == seq![Attribute { kind: kind % 0x4000, payload }],
{
    let len = 4 + payload.len();
    let data = order.bytes(len, 2) + order.bytes(kind as nat, 2) + payload;
    bytes::lemma_pow_256(2);
    order.lemma_value_of_bytes(len, 2);
    order.lemma_value_of_bytes(kind as nat, 2);
    template::lemma_aligned(len, 4);
    assert(data.take(2) == order.bytes(len, 2));
    assert(data.subrange(2, 4) == order.bytes(kind as nat, 2));
    assert(data.subrange(4, len as int) == payload);
    let behind = data.skip(parser::step(len, data.len()) as int);
    assert(behind.len() == 0);
    assert(parser::attributes(behind, order) == Seq::<Attribute>::empty());
    assert(parser::attributes(data, order) == seq![Attribute { kind: kind % 0x4000, payload }]
        + Seq::<Attribute>::empty());
}

/// The last message needs no padding to be read.
pub proof fn law_last_message_needs_no_padding(
    order: ByteOrder,
    kind: u16,
    family: u8,
    body: Seq<u8>,
)
    requires
        20 + body.len() < 0x1_0000_0000,
    ensures
        parser::messages(laws::message_bytes(order, kind, family, body), order) == seq![
            Message { kind, family, body },
        ],
{
    reveal(laws::message_bytes);
    let len = 20 + body.len();
    let buf = laws::message_bytes(order, kind, family, body);
    bytes::lemma_pow_256(4);
    order.lemma_value_of_bytes(len, 4);
    order.lemma_value_of_bytes(kind as nat, 2);
    template::lemma_aligned(len, 4);
    let lead = order.bytes(len, 4) + order.bytes(kind as nat, 2) + bytes::zeros(10);
    let generic = seq![family, 0u8, 0u8, 0u8];
    assert(buf == lead + (generic + body));
    assert(lead.len() == 16);
    assert(buf.take(4) == order.bytes(len, 4));
    assert(buf.subrange(4, 6) == order.bytes(kind as nat, 2));
    assert(buf[16] == family);
    assert(buf.subrange(20, len as int) == body);
    let behind = buf.skip(parser::step(len, buf.len()) as int);
    assert(behind.len() == 0);
    assert(parser::messages(behind, order) == Seq::<Message>::empty());
    assert(parser::messages(buf, order) == seq![Message { kind, family, body }] + Seq::<
        Message,
    >::empty());
}

/// Where the next attribute or message stands behind one of `len` bytes, in `total`
/// bytes: at the next multiple of four, or at the end.
pub open spec fn next_at(len: int, total: int) -> int {
    let next = len + (4 - len % 4) % 4;
    if next <= total {
        next
    } else {
        total
    }
}

proof fn lemma_step(len: nat, total: nat)
    ensures
        parser::step(len, total) == next_at(len as int, total as int),
{
    let rounded = template::aligned(len, 4);
    assert(rounded % 4 == 0 && len <= rounded < len + 4) by {
        template::lemma_aligned(len, 4);
    }
    reading::lemma_next_multiple(len as int, rounded as int);
}

/// An attribute is its first two bytes long, its kind is in the low fourteen bits of
/// the next two, and what it holds is the rest. The next one follows at a multiple of
/// four, whatever the bytes between are.
pub proof fn law_attribute_by_attribute(data: Seq<u8>, order: ByteOrder)
    requires
        4 <= data.len(),
        4 <= order.value(data.take(2)) <= data.len(),
    ensures
        ({
            let len = order.value(data.take(2)) as int;
            let found = parser::attributes(data, order);
            &&& found.len() > 0
            &&& found[0].kind == order.value(data.subrange(2, 4)) % 0x4000
            &&& found[0].payload == data.subrange(4, len)
            &&& found.skip(1) == parser::attributes(
                data.skip(next_at(len, data.len() as int)),
                order,
            )
        }),
{
    let len = order.value(data.take(2));
    lemma_step(len, data.len());
    let rest = parser::attributes(data.skip(parser::step(len, data.len()) as int), order);
    assert(parser::attributes(data, order).skip(1) == rest);
}

/// A message is its first four bytes long, its kind is in the next two, and it is about
/// the address family in its seventeenth byte. Its attributes start behind the
/// twentieth, and the next message at a multiple of four.
pub proof fn law_message_by_message(buf: Seq<u8>, order: ByteOrder)
    requires
        16 <= buf.len(),
        20 <= order.value(buf.take(4)) <= buf.len(),
    ensures
        ({
            let len = order.value(buf.take(4)) as int;
            let found = parser::messages(buf, order);
            &&& found.len() > 0
            &&& found[0].kind == order.value(buf.subrange(4, 6))
            &&& found[0].family == buf[16]
            &&& found[0].body == buf.subrange(20, len)
            &&& found.skip(1) == parser::messages(
                buf.skip(next_at(len, buf.len() as int)),
                order,
            )
        }),
{
    let len = order.value(buf.take(4));
    lemma_step(len, buf.len());
    assert(order.value(buf.subrange(4, 6)) < 0x1_0000) by {
        order.lemma_value_bound(buf.subrange(4, 6));
        bytes::lemma_pow_256(2);
    }
    let rest = parser::messages(buf.skip(parser::step(len, buf.len()) as int), order);
    assert(parser::messages(buf, order).skip(1) == rest);
}

/// What a message says of one direction of a session. Anything may be missing: ICMP
/// has no ports.
pub struct TupleParts {
    pub src: Option<Ipv4Addr>,
    pub dst: Option<Ipv4Addr>,
    pub protocol: Option<u8>,
    pub src_port: Option<u16>,
    pub dst_port: Option<u16>,
}

/// What a message says of the traffic in one direction.
pub struct CounterParts {
    pub packets: Option<u64>,
    pub octets: Option<u64>,
}

/// What a message says of a session. Without accounting there are no counters.
pub struct EventParts {
    pub orig: Option<TupleParts>,
    pub reply: Option<TupleParts>,
    pub status: Option<u32>,
    pub sent: Option<CounterParts>,
    pub returned: Option<CounterParts>,
}

/// An attribute, if there is anything to put in it.
#[verifier::opaque]
pub open spec fn maybe_bytes(order: ByteOrder, kind: u16, payload: Option<Seq<u8>>) -> Seq<u8> {
    match payload {
        Some(payload) => laws::attribute_bytes(order, kind, payload),
        None => Seq::empty(),
    }
}

/// What is read of an attribute that may be there.
pub open spec fn maybe(kind: u16, payload: Option<Seq<u8>>) -> Seq<Attribute> {
    match payload {
        Some(payload) => seq![Attribute { kind: kind % 0x4000, payload }],
        None => Seq::empty(),
    }
}

pub open spec fn address_payload(addr: Option<Ipv4Addr>) -> Option<Seq<u8>> {
    match addr {
        Some(addr) => Some(seq![addr.a, addr.b, addr.c, addr.d]),
        None => None,
    }
}

pub open spec fn number_payload(value: Option<nat>, len: nat) -> Option<Seq<u8>> {
    match value {
        Some(value) => Some(bytes::be_bytes(value, len)),
        None => None,
    }
}

pub open spec fn widened16(value: Option<u16>) -> Option<nat> {
    match value {
        Some(value) => Some(value as nat),
        None => None,
    }
}

pub open spec fn widened64(value: Option<u64>) -> Option<nat> {
    match value {
        Some(value) => Some(value as nat),
        None => None,
    }
}

pub open spec fn protocol_payload(protocol: Option<u8>) -> Option<Seq<u8>> {
    match protocol {
        Some(protocol) => Some(seq![protocol]),
        None => None,
    }
}

pub open spec fn status_payload(status: Option<u32>) -> Option<Seq<u8>> {
    match status {
        Some(status) => Some(bytes::be_bytes(status as nat, 4)),
        None => None,
    }
}

/// The addresses of a tuple: the source is of kind one, the destination of kind two.
#[verifier::opaque]
pub open spec fn addresses_layout(order: ByteOrder, parts: TupleParts) -> Seq<u8> {
    maybe_bytes(order, 1, address_payload(parts.src)) + maybe_bytes(
        order,
        2,
        address_payload(parts.dst),
    )
}

/// The protocol and the ports of a tuple: kinds one, two and three.
#[verifier::opaque]
pub open spec fn ports_layout(order: ByteOrder, parts: TupleParts) -> Seq<u8> {
    maybe_bytes(order, 1, protocol_payload(parts.protocol)) + (maybe_bytes(
        order,
        2,
        number_payload(widened16(parts.src_port), 2),
    ) + maybe_bytes(order, 3, number_payload(widened16(parts.dst_port), 2)))
}

/// A tuple: the addresses nested in kind one, the rest nested in kind two.
#[verifier::opaque]
pub open spec fn tuple_layout(order: ByteOrder, parts: TupleParts) -> Seq<u8> {
    maybe_bytes(order, 0x8001, Some(addresses_layout(order, parts))) + maybe_bytes(
        order,
        0x8002,
        Some(ports_layout(order, parts)),
    )
}

/// The counters of a direction: the packets are of kind one, the bytes of kind two.
#[verifier::opaque]
pub open spec fn counters_layout(order: ByteOrder, parts: CounterParts) -> Seq<u8> {
    maybe_bytes(order, 1, number_payload(widened64(parts.packets), 8)) + maybe_bytes(
        order,
        2,
        number_payload(widened64(parts.octets), 8),
    )
}

pub open spec fn tuple_payload(order: ByteOrder, parts: Option<TupleParts>) -> Option<Seq<u8>> {
    match parts {
        Some(parts) => Some(tuple_layout(order, parts)),
        None => None,
    }
}

pub open spec fn counters_payload(order: ByteOrder, parts: Option<CounterParts>) -> Option<
    Seq<u8>,
> {
    match parts {
        Some(parts) => Some(counters_layout(order, parts)),
        None => None,
    }
}

/// A session, with those of its attributes that are there.
#[verifier::opaque]
pub open spec fn event_layout(order: ByteOrder, parts: EventParts) -> Seq<u8> {
    maybe_bytes(order, 0x8001, tuple_payload(order, parts.orig)) + (maybe_bytes(
        order,
        0x8002,
        tuple_payload(order, parts.reply),
    ) + (maybe_bytes(order, 3, status_payload(parts.status)) + (maybe_bytes(
        order,
        0x8009,
        counters_payload(order, parts.sent),
    ) + maybe_bytes(order, 0x800A, counters_payload(order, parts.returned)))))
}

/// An attribute that may be there reads back, and so does what stands behind it.
proof fn lemma_maybe(order: ByteOrder, kind: u16, payload: Option<Seq<u8>>, rest: Seq<u8>)
    requires
        payload matches Some(payload) ==> 4 + payload.len() < 0x1_0000,
    ensures
        parser::attributes(maybe_bytes(order, kind, payload) + rest, order) == maybe(kind, payload)
            + parser::attributes(rest, order),
        maybe_bytes(order, kind, payload).len() == (match payload {
            Some(payload) => next_at(4 + payload.len() as int, 8 + payload.len() as int),
            None => 0,
        }),
        maybe_bytes(order, kind, payload).len() % 4 == 0,
{
    reveal(maybe_bytes);
    match payload {
        Some(payload) => {
            laws::law_attribute_reads_back(order, kind, payload, rest);
            template::lemma_aligned(4 + payload.len(), 4);
        },
        None => {
            assert(Seq::<u8>::empty() + rest == rest);
            assert(Seq::<Attribute>::empty() + parser::attributes(rest, order)
                == parser::attributes(rest, order));
        },
    }
}

/// The last attribute that may be there.
proof fn lemma_maybe_last(order: ByteOrder, kind: u16, payload: Option<Seq<u8>>)
    requires
        payload matches Some(payload) ==> 4 + payload.len() < 0x1_0000,
    ensures
        parser::attributes(maybe_bytes(order, kind, payload), order) == maybe(kind, payload),
{
    let empty = Seq::<u8>::empty();
    lemma_maybe(order, kind, payload, empty);
    assert(maybe_bytes(order, kind, payload) + empty == maybe_bytes(order, kind, payload));
    assert(parser::attributes(empty, order) == Seq::<Attribute>::empty());
    assert(maybe(kind, payload) + Seq::<Attribute>::empty() == maybe(kind, payload));
}

/// The value that an attribute that may be there gives.
proof fn lemma_maybe_value(
    kind: u16,
    payload: Option<Seq<u8>>,
    rest: Seq<Attribute>,
    wanted: u16,
    len: nat,
)
    ensures
        parser::last_value(maybe(kind, payload) + rest, wanted, len) == (match parser::last_value(
            rest,
            wanted,
            len,
        ) {
            Some(octets) => Some(octets),
            None => parser::last_value(maybe(kind, payload), wanted, len),
        }),
        parser::last_value(maybe(kind, payload), wanted, len) == (match payload {
            Some(payload) if kind % 0x4000 == wanted && payload.len() >= len => Some(
                payload.take(len as int),
            ),
            _ => None,
        }),
{
    parser::lemma_last_value_concat(maybe(kind, payload), rest, wanted, len);
    let none = Seq::<Attribute>::empty();
    if let Some(payload) = payload {
        assert(maybe(kind, Some(payload)) == none.push(
            Attribute { kind: kind % 0x4000, payload },
        ));
        parser::lemma_push(none, Attribute { kind: kind % 0x4000, payload }, wanted, len);
    }
}

/// What is nested in an attribute that may be there.
proof fn lemma_maybe_nested(
    order: ByteOrder,
    kind: u16,
    payload: Option<Seq<u8>>,
    rest: Seq<Attribute>,
    wanted: u16,
)
    ensures
        parser::nested(maybe(kind, payload) + rest, wanted, order) == parser::nested(
            maybe(kind, payload),
            wanted,
            order,
        ) + parser::nested(rest, wanted, order),
        parser::nested(maybe(kind, payload), wanted, order) == (match payload {
            Some(payload) if kind % 0x4000 == wanted => parser::attributes(payload, order),
            _ => Seq::empty(),
        }),
{
    parser::lemma_nested_concat(maybe(kind, payload), rest, wanted, order);
    let none = Seq::<Attribute>::empty();
    if let Some(payload) = payload {
        let next = Attribute { kind: kind % 0x4000, payload };
        assert(maybe(kind, Some(payload)) == none.push(next));
        law_nested_attributes_add_up(none, next, wanted, order);
        assert(none + parser::attributes(payload, order) == parser::attributes(payload, order));
    }
}

/// An address that was not given is zero.
pub open spec fn address_or_zero(addr: Option<Ipv4Addr>) -> Ipv4Addr {
    match addr {
        Some(addr) => addr,
        None => Ipv4Addr { a: 0, b: 0, c: 0, d: 0 },
    }
}

pub open spec fn port_or_zero(port: Option<u16>) -> u16 {
    match port {
        Some(port) => port,
        None => 0,
    }
}

pub open spec fn count_or_zero(count: Option<u64>) -> u64 {
    match count {
        Some(count) => count,
        None => 0,
    }
}

proof fn lemma_addresses(order: ByteOrder, parts: TupleParts)
    ensures
        addresses_layout(order, parts).len() <= 16,
        addresses_layout(order, parts).len() % 4 == 0,
        ({
            let found = parser::attributes(addresses_layout(order, parts), order);
            &&& is_address(address_or_zero(parts.src), found, 1)
            &&& is_address(address_or_zero(parts.dst), found, 2)
        }),
{
    reveal(addresses_layout);
    let src = address_payload(parts.src);
    let dst = address_payload(parts.dst);
    lemma_maybe(order, 1, src, maybe_bytes(order, 2, dst));
    lemma_maybe(order, 2, dst, Seq::empty());
    lemma_maybe_last(order, 2, dst);
    lemma_maybe_value(1, src, maybe(2, dst), 1, 4);
    lemma_maybe_value(1, src, maybe(2, dst), 2, 4);
    lemma_maybe_value(2, dst, Seq::empty(), 1, 4);
    lemma_maybe_value(2, dst, Seq::empty(), 2, 4);
}

proof fn lemma_number_value(value: nat, len: nat)
    requires
        len == 2 && value < 0x1_0000 || len == 4 && value < 0x1_0000_0000 || len == 8 && value
            < 0x1_0000_0000_0000_0000,
    ensures
        bytes::be_bytes(value, len).len() == len,
        bytes::be_bytes(value, len).take(len as int) == bytes::be_bytes(value, len),
        bytes::be_value(bytes::be_bytes(value, len)) == value,
{
    bytes::lemma_pow_256(len);
    bytes::lemma_be_bytes_len(value, len);
    bytes::lemma_be_value_of_be_bytes(value, len);
    assert(bytes::be_bytes(value, len).take(len as int) == bytes::be_bytes(value, len));
}

proof fn lemma_ports(order: ByteOrder, parts: TupleParts)
    ensures
        ports_layout(order, parts).len() <= 24,
        ports_layout(order, parts).len() % 4 == 0,
        ({
            let found = parser::attributes(ports_layout(order, parts), order);
            &&& is_number(
                (match parts.protocol {
                    Some(protocol) => protocol as int,
                    None => 0,
                }),
                found,
                1,
                1,
            )
            &&& is_number(port_or_zero(parts.src_port) as int, found, 2, 2)
            &&& is_number(port_or_zero(parts.dst_port) as int, found, 3, 2)
        }),
{
    reveal(ports_layout);
    let protocol = protocol_payload(parts.protocol);
    let src = number_payload(widened16(parts.src_port), 2);
    let dst = number_payload(widened16(parts.dst_port), 2);
    lemma_number_value(port_or_zero(parts.src_port) as nat, 2);
    lemma_number_value(port_or_zero(parts.dst_port) as nat, 2);
    let behind = maybe_bytes(order, 2, src) + maybe_bytes(order, 3, dst);
    lemma_maybe(order, 1, protocol, behind);
    lemma_maybe(order, 2, src, maybe_bytes(order, 3, dst));
    lemma_maybe(order, 3, dst, Seq::empty());
    lemma_maybe_last(order, 3, dst);
    let two = maybe(2, src) + maybe(3, dst);
    lemma_maybe_value(1, protocol, two, 1, 1);
    lemma_maybe_value(1, protocol, two, 2, 2);
    lemma_maybe_value(1, protocol, two, 3, 2);
    lemma_maybe_value(2, src, maybe(3, dst), 1, 1);
    lemma_maybe_value(2, src, maybe(3, dst), 2, 2);
    lemma_maybe_value(2, src, maybe(3, dst), 3, 2);
    lemma_maybe_value(3, dst, Seq::empty(), 1, 1);
    lemma_maybe_value(3, dst, Seq::empty(), 2, 2);
    lemma_maybe_value(3, dst, Seq::empty(), 3, 2);
    if let Some(protocol) = parts.protocol {
        assert(seq![protocol].take(1) == seq![protocol]);
        bytes::law_bytes_spell(seq![protocol]);
    }
}

proof fn lemma_counters(order: ByteOrder, parts: CounterParts)
    ensures
        counters_layout(order, parts).len() <= 24,
        counters_layout(order, parts).len() % 4 == 0,
        ({
            let found = parser::attributes(counters_layout(order, parts), order);
            &&& is_number(count_or_zero(parts.packets) as int, found, 1, 8)
            &&& is_number(count_or_zero(parts.octets) as int, found, 2, 8)
        }),
{
    reveal(counters_layout);
    let packets = number_payload(widened64(parts.packets), 8);
    let octets = number_payload(widened64(parts.octets), 8);
    lemma_number_value(count_or_zero(parts.packets) as nat, 8);
    lemma_number_value(count_or_zero(parts.octets) as nat, 8);
    lemma_maybe(order, 1, packets, maybe_bytes(order, 2, octets));
    lemma_maybe(order, 2, octets, Seq::empty());
    lemma_maybe_last(order, 2, octets);
    lemma_maybe_value(1, packets, maybe(2, octets), 1, 8);
    lemma_maybe_value(1, packets, maybe(2, octets), 2, 8);
    lemma_maybe_value(2, octets, Seq::empty(), 1, 8);
    lemma_maybe_value(2, octets, Seq::empty(), 2, 8);
}

/// One more attribute that may be there, in front of others.
proof fn lemma_one_in_front(
    order: ByteOrder,
    kind: u16,
    payload: Option<Seq<u8>>,
    rest: Seq<u8>,
    found: Seq<Attribute>,
    most: nat,
)
    requires
        payload matches Some(payload) ==> payload.len() <= most,
        most <= 48,
        most % 4 == 0,
        parser::attributes(rest, order) == found,
        rest.len() % 4 == 0,
    ensures
        parser::attributes(maybe_bytes(order, kind, payload) + rest, order) == maybe(kind, payload)
            + found,
        (maybe_bytes(order, kind, payload) + rest).len() % 4 == 0,
        (maybe_bytes(order, kind, payload) + rest).len() <= 4 + most + rest.len(),
{
    lemma_maybe(order, kind, payload, rest);
    let len = maybe_bytes(order, kind, payload).len();
    assert(len <= 4 + most) by {
        if let Some(payload) = payload {
            lemma_next_at(payload.len() as int, most as int);
        }
    }
    assert((maybe_bytes(order, kind, payload) + rest).len() == len + rest.len());
}

proof fn lemma_next_at(len: int, most: int)
    requires
        0 <= len <= most,
        most % 4 == 0,
    ensures
        next_at(4 + len, 8 + len) <= 4 + most,
{
}

proof fn lemma_tuple(order: ByteOrder, parts: TupleParts)
    ensures
        tuple_layout(order, parts).len() <= 48,
        tuple_layout(order, parts).len() % 4 == 0,
        ({
            let found = parser::attributes(tuple_layout(order, parts), order);
            &&& parser::nested(found, 1, order) == parser::attributes(
                addresses_layout(order, parts),
                order,
            )
            &&& parser::nested(found, 2, order) == parser::attributes(
                ports_layout(order, parts),
                order,
            )
        }),
{
    reveal(tuple_layout);
    let addresses = Some(addresses_layout(order, parts));
    let ports = Some(ports_layout(order, parts));
    assert(addresses->0.len() <= 16) by {
        lemma_addresses(order, parts);
    }
    assert(ports->0.len() <= 24) by {
        lemma_ports(order, parts);
    }
    let second = maybe_bytes(order, 0x8002, ports);
    assert(parser::attributes(second, order) == maybe(0x8002, ports) && second.len() % 4 == 0
        && second.len() <= 28) by {
        lemma_maybe(order, 0x8002, ports, Seq::empty());
        lemma_maybe_last(order, 0x8002, ports);
        lemma_next_at(ports->0.len() as int, 24);
    }
    lemma_one_in_front(order, 0x8001, addresses, second, maybe(0x8002, ports), 16);
    lemma_two_nested(order, addresses->0, ports->0);
}

proof fn lemma_two_nested(order: ByteOrder, addresses: Seq<u8>, ports: Seq<u8>)
    ensures
        ({
            let found = maybe(0x8001, Some(addresses)) + maybe(0x8002, Some(ports));
            &&& parser::nested(found, 1, order) == parser::attributes(addresses, order)
            &&& parser::nested(found, 2, order) == parser::attributes(ports, order)
        }),
{
    let none = Seq::<Attribute>::empty();
    let behind = maybe(0x8002, Some(ports));
    lemma_maybe_nested(order, 0x8001, Some(addresses), behind, 1);
    lemma_maybe_nested(order, 0x8001, Some(addresses), behind, 2);
    lemma_maybe_nested(order, 0x8002, Some(ports), none, 1);
    lemma_maybe_nested(order, 0x8002, Some(ports), none, 2);
    let first = parser::attributes(addresses, order);
    let second = parser::attributes(ports, order);
    assert(first + none == first && none + second == second);
}

/// The attributes of a session, as far as they are there.
pub open spec fn event_attributes(order: ByteOrder, parts: EventParts) -> Seq<Attribute> {
    maybe(0x8001, tuple_payload(order, parts.orig)) + (maybe(
        0x8002,
        tuple_payload(order, parts.reply),
    ) + (maybe(3, status_payload(parts.status)) + (maybe(
        0x8009,
        counters_payload(order, parts.sent),
    ) + maybe(0x800A, counters_payload(order, parts.returned)))))
}

proof fn lemma_payload_lens(order: ByteOrder, parts: EventParts)
    ensures
        tuple_payload(order, parts.orig) matches Some(payload) ==> payload.len() <= 48,
        tuple_payload(order, parts.reply) matches Some(payload) ==> payload.len() <= 48,
        status_payload(parts.status) matches Some(payload) ==> payload.len() == 4,
        counters_payload(order, parts.sent) matches Some(payload) ==> payload.len() <= 24,
        counters_payload(order, parts.returned) matches Some(payload) ==> payload.len() <= 24,
{
    if let Some(tuple) = parts.orig {
        lemma_tuple(order, tuple);
    }
    if let Some(tuple) = parts.reply {
        lemma_tuple(order, tuple);
    }
    if let Some(status) = parts.status {
        bytes::lemma_be_bytes_len(status as nat, 4);
    }
    if let Some(counters) = parts.sent {
        lemma_counters(order, counters);
    }
    if let Some(counters) = parts.returned {
        lemma_counters(order, counters);
    }
}

proof fn lemma_event_attributes(order: ByteOrder, parts: EventParts)
    ensures
        parser::attributes(event_layout(order, parts), order) == event_attributes(order, parts),
        event_layout(order, parts).len() <= 168,
        event_layout(order, parts).len() % 4 == 0,
{
    lemma_payload_lens(order, parts);
    lemma_five_in_a_row(
        order,
        tuple_payload(order, parts.orig),
        tuple_payload(order, parts.reply),
        status_payload(parts.status),
        counters_payload(order, parts.sent),
        counters_payload(order, parts.returned),
    );
    reveal(event_layout);
}

proof fn lemma_five_in_a_row(
    order: ByteOrder,
    orig: Option<Seq<u8>>,
    reply: Option<Seq<u8>>,
    status: Option<Seq<u8>>,
    sent: Option<Seq<u8>>,
    returned: Option<Seq<u8>>,
)
    requires
        orig matches Some(payload) ==> payload.len() <= 48,
        reply matches Some(payload) ==> payload.len() <= 48,
        status matches Some(payload) ==> payload.len() == 4,
        sent matches Some(payload) ==> payload.len() <= 24,
        returned matches Some(payload) ==> payload.len() <= 24,
    ensures
        ({
            let layout = maybe_bytes(order, 0x8001, orig) + (maybe_bytes(order, 0x8002, reply) + (
            maybe_bytes(order, 3, status) + (maybe_bytes(order, 0x8009, sent) + maybe_bytes(
                order,
                0x800A,
                returned,
            ))));
            &&& parser::attributes(layout, order) == maybe(0x8001, orig) + (maybe(0x8002, reply) + (
            maybe(3, status) + (maybe(0x8009, sent) + maybe(0x800A, returned))))
            &&& layout.len() <= 168
            &&& layout.len() % 4 == 0
        }),
{
    let b5 = maybe_bytes(order, 0x800A, returned);
    let b4 = maybe_bytes(order, 0x8009, sent) + b5;
    let b3 = maybe_bytes(order, 3, status) + b4;
    let b2 = maybe_bytes(order, 0x8002, reply) + b3;
    let a5 = maybe(0x800A, returned);
    let a4 = maybe(0x8009, sent) + a5;
    let a3 = maybe(3, status) + a4;
    let a2 = maybe(0x8002, reply) + a3;
    assert(parser::attributes(b5, order) == a5 && b5.len() % 4 == 0 && b5.len() <= 28) by {
        lemma_maybe(order, 0x800A, returned, Seq::empty());
        lemma_maybe_last(order, 0x800A, returned);
    }
    lemma_one_in_front(order, 0x8009, sent, b5, a5, 24);
    lemma_one_in_front(order, 3, status, b4, a4, 4);
    lemma_one_in_front(order, 0x8002, reply, b3, a3, 48);
    lemma_one_in_front(order, 0x8001, orig, b2, a2, 48);
}

/// What is nested in the attributes of a session of one kind.
proof fn lemma_event_nested(order: ByteOrder, parts: EventParts, kind: u16)
    ensures
        parser::nested(event_attributes(order, parts), kind, order) == (match (if kind == 1 {
            tuple_payload(order, parts.orig)
        } else if kind == 2 {
            tuple_payload(order, parts.reply)
        } else if kind == 3 {
            status_payload(parts.status)
        } else if kind == 9 {
            counters_payload(order, parts.sent)
        } else if kind == 10 {
            counters_payload(order, parts.returned)
        } else {
            None
        }) {
            Some(payload) => parser::attributes(payload, order),
            None => Seq::empty(),
        }),
{
    let none = Seq::<Attribute>::empty();
    let orig = tuple_payload(order, parts.orig);
    let reply = tuple_payload(order, parts.reply);
    let status = status_payload(parts.status);
    let sent = counters_payload(order, parts.sent);
    let returned = counters_payload(order, parts.returned);
    let a5 = maybe(0x800A, returned);
    let a4 = maybe(0x8009, sent) + a5;
    let a3 = maybe(3, status) + a4;
    let a2 = maybe(0x8002, reply) + a3;
    lemma_maybe_nested(order, 0x8001, orig, a2, kind);
    lemma_maybe_nested(order, 0x8002, reply, a3, kind);
    lemma_maybe_nested(order, 3, status, a4, kind);
    lemma_maybe_nested(order, 0x8009, sent, a5, kind);
    lemma_maybe_nested(order, 0x800A, returned, none, kind);
    let n5 = parser::nested(a5, kind, order);
    let n4 = parser::nested(a4, kind, order);
    let n3 = parser::nested(a3, kind, order);
    let n2 = parser::nested(a2, kind, order);
    let n1 = parser::nested(event_attributes(order, parts), kind, order);
    assert(none + n5 == n5 && none + n4 == n4 && none + n3 == n3 && none + n2 == n2);
    assert forall|s: Seq<Attribute>| #[trigger] (s + none) == s by {}
}

/// The status of a session, if it is there.
proof fn lemma_event_status(order: ByteOrder, parts: EventParts)
    ensures
        parser::last_value(event_attributes(order, parts), 3, 4) == (match parts.status {
            Some(status) => Some(bytes::be_bytes(status as nat, 4)),
            None => None,
        }),
{
    let none = Seq::<Attribute>::empty();
    let orig = tuple_payload(order, parts.orig);
    let reply = tuple_payload(order, parts.reply);
    let status = status_payload(parts.status);
    let sent = counters_payload(order, parts.sent);
    let returned = counters_payload(order, parts.returned);
    let a5 = maybe(0x800A, returned);
    let a4 = maybe(0x8009, sent) + a5;
    let a3 = maybe(3, status) + a4;
    let a2 = maybe(0x8002, reply) + a3;
    lemma_maybe_value(0x8001, orig, a2, 3, 4);
    lemma_maybe_value(0x8002, reply, a3, 3, 4);
    lemma_maybe_value(3, status, a4, 3, 4);
    lemma_maybe_value(0x8009, sent, a5, 3, 4);
    lemma_maybe_value(0x800A, returned, none, 3, 4);
    if let Some(status) = parts.status {
        lemma_number_value(status as nat, 4);
    }
}

/// The tuple of an event, if it is there, and one that says nothing otherwise.
pub open spec fn tuple_or_nothing(parts: Option<TupleParts>) -> TupleParts {
    match parts {
        Some(parts) => parts,
        None => TupleParts {
            src: None,
            dst: None,
            protocol: None,
            src_port: None,
            dst_port: None,
        },
    }
}

/// The counters of a direction, if they are there, and ones that say nothing otherwise.
pub open spec fn counters_or_nothing(parts: Option<CounterParts>) -> CounterParts {
    match parts {
        Some(parts) => parts,
        None => CounterParts { packets: None, octets: None },
    }
}

/// The values of a tuple, whether or not it is there.
proof fn lemma_tuple_values(order: ByteOrder, tuple: Option<TupleParts>, found: Seq<Attribute>)
    requires
        found == (match tuple_payload(order, tuple) {
            Some(payload) => parser::attributes(payload, order),
            None => Seq::empty(),
        }),
    ensures
        ({
            let parts = tuple_or_nothing(tuple);
            let addrs = parser::nested(found, 1, order);
            let ports = parser::nested(found, 2, order);
            &&& is_address(address_or_zero(parts.src), addrs, 1)
            &&& is_address(address_or_zero(parts.dst), addrs, 2)
            &&& is_number(
                (match parts.protocol {
                    Some(protocol) => protocol as int,
                    None => 0,
                }),
                ports,
                1,
                1,
            )
            &&& is_number(port_or_zero(parts.src_port) as int, ports, 2, 2)
            &&& is_number(port_or_zero(parts.dst_port) as int, ports, 3, 2)
        }),
{
    match tuple {
        Some(parts) => {
            lemma_tuple(order, parts);
            lemma_addresses(order, parts);
            lemma_ports(order, parts);
        },
        None => {
            let none = Seq::<Attribute>::empty();
            assert(parser::nested(none, 1, order) == none);
            assert(parser::nested(none, 2, order) == none);
        },
    }
}

proof fn lemma_counter_values(
    order: ByteOrder,
    counters: Option<CounterParts>,
    found: Seq<Attribute>,
)
    requires
        found == (match counters_payload(order, counters) {
            Some(payload) => parser::attributes(payload, order),
            None => Seq::empty(),
        }),
    ensures
        ({
            let parts = counters_or_nothing(counters);
            &&& is_number(count_or_zero(parts.packets) as int, found, 1, 8)
            &&& is_number(count_or_zero(parts.octets) as int, found, 2, 8)
        }),
{
    if let Some(parts) = counters {
        lemma_counters(order, parts);
    }
}

/// The event that some parts make up: what they give, and zero for what they leave out.
pub open spec fn event_of_parts(nat_event: NatEventType, parts: EventParts) -> ConntrackEvent {
    let orig = tuple_or_nothing(parts.orig);
    let reply = tuple_or_nothing(parts.reply);
    let sent = counters_or_nothing(parts.sent);
    let returned = counters_or_nothing(parts.returned);
    ConntrackEvent {
        nat_event,
        protocol: match orig.protocol {
            Some(protocol) => protocol,
            None => 0,
        },
        src_ip: address_or_zero(orig.src),
        dst_ip: address_or_zero(orig.dst),
        src_port: port_or_zero(orig.src_port),
        dst_port: port_or_zero(orig.dst_port),
        post_nat_src_ip: address_or_zero(reply.dst),
        post_nat_src_port: port_or_zero(reply.dst_port),
        post_nat_dst_ip: address_or_zero(reply.src),
        post_nat_dst_port: port_or_zero(reply.src_port),
        orig_bytes: count_or_zero(sent.octets),
        orig_packets: count_or_zero(sent.packets),
        reply_bytes: count_or_zero(returned.octets),
        reply_packets: count_or_zero(returned.packets),
    }
}

/// Whatever a message says of a session and whatever it leaves out, what is read back
/// is what it says, and zero for the rest: without its counters, a direction has
/// carried no bytes and no packets. It is reported if the status says that an address
/// was translated, and otherwise, or without a status, it is not.
pub proof fn law_parts_read_back(order: ByteOrder, nat_event: NatEventType, parts: EventParts)
    ensures
        parser::reported(nat_event, parser::attributes(event_layout(order, parts), order), order)
            == (match parts.status {
            Some(status) if (status / 16) % 4 != 0 => Some(event_of_parts(nat_event, parts)),
            _ => None,
        }),
{
    let found = event_attributes(order, parts);
    lemma_event_attributes(order, parts);
    law_what_is_reported(nat_event, found, order);
    lemma_event_status(order, parts);
    if let Some(status) = parts.status {
        lemma_number_value(status as nat, 4);
    }
    lemma_event_nested(order, parts, 1);
    lemma_event_nested(order, parts, 2);
    lemma_event_nested(order, parts, 9);
    lemma_event_nested(order, parts, 10);
    lemma_tuple_values(order, parts.orig, parser::nested(found, 1, order));
    lemma_tuple_values(order, parts.reply, parser::nested(found, 2, order));
    lemma_counter_values(order, parts.sent, parser::nested(found, 9, order));
    lemma_counter_values(order, parts.returned, parser::nested(found, 10, order));
    law_where_values_come_from(nat_event, found, order);
    assert(parser::described(nat_event, found, order) == event_of_parts(nat_event, parts));
}

/// The same of a whole message in a datagram: one about a new session, or one that is
/// gone, yields exactly the event its parts make up, in front of what the rest of the
/// datagram yields, and nothing unless an address was translated.
pub proof fn law_message_of_parts_reads_back(
    order: ByteOrder,
    nat_event: NatEventType,
    parts: EventParts,
    rest: Seq<u8>,
)
    ensures
        parser::events(
            laws::message_bytes(
                order,
                (match nat_event {
                    NatEventType::Create => 0x100u16,
                    NatEventType::Delete => 0x102u16,
                }),
                2,
                event_layout(order, parts),
            ) + rest,
            order,
        ) == (match parts.status {
            Some(status) if (status / 16) % 4 != 0 => seq![event_of_parts(nat_event, parts)],
            _ => Seq::empty(),
        }) + parser::events(rest, order),
{
    let kind: u16 = match nat_event {
        NatEventType::Create => 0x100,
        NatEventType::Delete => 0x102,
    };
    let body = event_layout(order, parts);
    let message = Message { kind, family: 2, body };
    let none = Seq::<Message>::empty();
    lemma_event_attributes(order, parts);
    laws::law_message_reads_back(order, kind, 2, body, rest);
    law_which_messages_report(message, order);
    law_parts_read_back(order, nat_event, parts);
    law_events_add_up(none, message, order);
    assert(none.push(message) == seq![message]);
    laws::lemma_events_concat(seq![message], parser::messages(rest, order), order);
    assert(parser::events_of(seq![message], order) == (match parts.status {
        Some(status) if (status / 16) % 4 != 0 => seq![event_of_parts(nat_event, parts)],
        _ => Seq::empty(),
    }));
}

} // verus!
