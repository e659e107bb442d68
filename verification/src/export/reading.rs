//! What a collector reads: which bytes of a record, a template and a message say
//! what, by their places and by the numbers of the Information Elements.

use super::encoder;
use super::encoder::EncoderView;
use super::laws;
use super::record;
use super::template;
use super::template::{
    CounterWidth, CounterWidthError, FieldShape, FieldSource, Profile, Protocol, ResolvedField,
    Template, TemplateError, Width,
};
use crate::bytes;
use crate::event::{ConntrackEvent, NatEventType};
use crate::net::Ipv4Addr;
use crate::text;
use vstd::prelude::*;

verus! {

/// The counter of an event that a field carries, if it carries one.
pub open spec fn counter(field: ResolvedField, event: ConntrackEvent) -> Option<u64> {
    match field.source {
        FieldSource::OrigBytes => Some(event.orig_bytes),
        FieldSource::OrigPackets => Some(event.orig_packets),
        FieldSource::ReplyBytes => Some(event.reply_bytes),
        FieldSource::ReplyPackets => Some(event.reply_packets),
        _ => None,
    }
}

/// A counter that fits its field is spelled as it is and does not count as clamped.
/// Of one that does not, the field spells the largest number it can, and that
/// counts.
pub proof fn law_counters_are_exact_or_clamped(
    field: ResolvedField,
    event: ConntrackEvent,
    value: u64,
)
    requires
        field.writable(),
        counter(field, event) == Some(value),
    ensures
        ({
            let spelled = record::field_bytes(field, event);
            let limit = vstd::arithmetic::power::pow(256, field.length as nat);
            &&& spelled.len() == field.length
            &&& value < limit ==> bytes::be_value(spelled) == value && !record::is_clamped(
                field,
                event,
            )
            &&& value >= limit ==> bytes::be_value(spelled) == limit - 1 && record::is_clamped(
                field,
                event,
            )
        }),
{
    let len = field.length as nat;
    reveal_with_fuel(vstd::arithmetic::power::pow, 9);
    vstd::arithmetic::power::lemma_pow_positive(256, len);
    record::lemma_field_len(field, event);
    laws::law_counter_value(field, event, value);
}

/// Nothing but a counter is ever clamped.
pub proof fn law_only_counters_are_clamped(field: ResolvedField, event: ConntrackEvent)
    requires
        counter(field, event) is None,
    ensures
        !record::is_clamped(field, event),
{
}

/// A record counts as clamped what its fields do, one by one.
pub proof fn law_clamped_fields_are_counted(
    fields: Seq<ResolvedField>,
    next: ResolvedField,
    event: ConntrackEvent,
)
    ensures
        record::clamp_count(Seq::empty(), event) == 0,
        record::clamp_count(fields.push(next), event) == record::clamp_count(fields, event) + (
        if record::is_clamped(next, event) {
            1int
        } else {
            0
        }),
{
    assert(fields.push(next).drop_last() == fields);
}

/// The octets of an address.
pub open spec fn octets(addr: Ipv4Addr) -> Seq<u8> {
    seq![addr.a, addr.b, addr.c, addr.d]
}

/// Two bytes that spell a port in network order.
pub open spec fn port_bytes(port: u16) -> Seq<u8> {
    seq![(port / 256) as u8, (port % 256) as u8]
}

proof fn lemma_port_bytes(port: u16)
    ensures
        bytes::be_bytes(port as nat, 2) == port_bytes(port),
{
    reveal_with_fuel(bytes::be_bytes, 3);
    assert(bytes::be_bytes((port / 256) as nat, 1) == seq![(port / 256) as u8]);
}

/// Every field but a counter holds the value of the event it is for: a natEvent of
/// four or five, the protocol, the octets of an address, a port.
pub proof fn law_fields_hold_their_values(field: ResolvedField, event: ConntrackEvent)
    requires
        counter(field, event) is None,
    ensures
        record::field_bytes(field, event) == (match field.source {
            FieldSource::NatEvent => seq![
                (match event.nat_event {
                    NatEventType::Create => 4u8,
                    NatEventType::Delete => 5u8,
                }),
            ],
            FieldSource::Protocol => seq![event.protocol],
            FieldSource::SrcIp => octets(event.src_ip),
            FieldSource::DstIp => octets(event.dst_ip),
            FieldSource::PostNatSrcIp => octets(event.post_nat_src_ip),
            FieldSource::PostNatDstIp => octets(event.post_nat_dst_ip),
            FieldSource::SrcPort => port_bytes(event.src_port),
            FieldSource::DstPort => port_bytes(event.dst_port),
            FieldSource::PostNatSrcPort => port_bytes(event.post_nat_src_port),
            _ => port_bytes(event.post_nat_dst_port),
        }),
{
    lemma_port_bytes(event.src_port);
    lemma_port_bytes(event.dst_port);
    lemma_port_bytes(event.post_nat_src_port);
    lemma_port_bytes(event.post_nat_dst_port);
}

/// What a counter field of a record reads: the counter, or the most it can hold.
pub open spec fn least(value: u64, width: CounterWidth) -> nat {
    if width is Four && value > 0xffff_ffff {
        0xffff_ffff
    } else {
        value as nat
    }
}

/// Bytes per counter.
pub open spec fn counter_len(width: CounterWidth) -> int {
    if width is Four {
        4
    } else {
        8
    }
}

/// How many of the counters of an event do not fit in four bytes.
pub open spec fn wide_counters(event: ConntrackEvent) -> int {
    (if event.orig_bytes > 0xffff_ffff {
        1int
    } else {
        0
    }) + (if event.orig_packets > 0xffff_ffff {
        1int
    } else {
        0
    }) + (if event.reply_bytes > 0xffff_ffff {
        1int
    } else {
        0
    }) + (if event.reply_packets > 0xffff_ffff {
        1int
    } else {
        0
    })
}

/// The field at some place of a record, and where the next one is.
proof fn lemma_field_at(fields: Seq<ResolvedField>, event: ConntrackEvent, i: int, at: int)
    requires
        forall|j: int| 0 <= j < fields.len() ==> (#[trigger] fields[j]).writable(),
        0 <= i < fields.len(),
        template::record_len(fields.take(i)) == at,
    ensures
        at + fields[i].length <= record::record_bytes(fields, event).len(),
        record::record_bytes(fields, event).subrange(at, at + fields[i].length)
            == record::field_bytes(fields[i], event),
        template::record_len(fields.take(i + 1)) == at + fields[i].length,
        record::clamp_count(fields.take(i + 1), event) == record::clamp_count(
            fields.take(i),
            event,
        ) + (if record::is_clamped(fields[i], event) {
            1int
        } else {
            0
        }),
{
    laws::law_record_fields(fields, event, i);
    template::lemma_record_len_take(fields, i);
    assert(fields.take(i + 1) == fields.take(i).push(fields[i]));
    law_clamped_fields_are_counted(fields.take(i), fields[i], event);
}

/// A counter field at a configured width.
proof fn lemma_counter_field(
    field: ResolvedField,
    event: ConntrackEvent,
    width: CounterWidth,
    value: u64,
)
    requires
        counter(field, event) == Some(value),
        field.length == counter_len(width),
    ensures
        bytes::be_value(record::field_bytes(field, event)) == least(value, width),
        record::is_clamped(field, event) <==> width is Four && value > 0xffff_ffff,
{
    law_counters_are_exact_or_clamped(field, event, value);
    reveal_with_fuel(vstd::arithmetic::power::pow, 9);
    assert(vstd::arithmetic::power::pow(256, 4) == 0x1_0000_0000);
    assert(vstd::arithmetic::power::pow(256, 8) == 0x1_0000_0000_0000_0000);
}

/// The fields of a configuration.
pub open spec fn fields_of(
    protocol: Protocol,
    profile: Profile,
    width: CounterWidth,
) -> Seq<ResolvedField> {
    template::resolve_shapes(protocol, width, profile.spec_shapes())
}

/// The record of an event in a configuration.
pub open spec fn record_of(
    protocol: Protocol,
    profile: Profile,
    width: CounterWidth,
    event: ConntrackEvent,
) -> Seq<u8> {
    record::record_bytes(fields_of(protocol, profile, width), event)
}

/// The four counters that end every record, from `at` on.
pub open spec fn counters_read(
    record: Seq<u8>,
    at: int,
    width: CounterWidth,
    event: ConntrackEvent,
) -> bool {
    let w = counter_len(width);
    &&& record.len() == at + 4 * w
    &&& bytes::be_value(record.subrange(at, at + w)) == least(event.orig_bytes, width)
    &&& bytes::be_value(record.subrange(at + w, at + 2 * w)) == least(event.orig_packets, width)
    &&& bytes::be_value(record.subrange(at + 2 * w, at + 3 * w)) == least(
        event.reply_bytes,
        width,
    )
    &&& bytes::be_value(record.subrange(at + 3 * w, at + 4 * w)) == least(
        event.reply_packets,
        width,
    )
}

/// The counters stand behind the fields before them.
proof fn lemma_counters_read(
    protocol: Protocol,
    profile: Profile,
    width: CounterWidth,
    event: ConntrackEvent,
    i: int,
    at: int,
)
    requires
        i + 4 == fields_of(protocol, profile, width).len(),
        i > 0,
        template::record_len(fields_of(protocol, profile, width).take(i)) == at,
        record::clamp_count(fields_of(protocol, profile, width).take(i), event) == 0,
        ({
            let fields = fields_of(protocol, profile, width);
            &&& fields[i].source is OrigBytes
            &&& fields[i + 1].source is OrigPackets
            &&& fields[i + 2].source is ReplyBytes
            &&& fields[i + 3].source is ReplyPackets
            &&& fields[i].length == counter_len(width)
            &&& fields[i + 1].length == counter_len(width)
            &&& fields[i + 2].length == counter_len(width)
            &&& fields[i + 3].length == counter_len(width)
        }),
    ensures
        counters_read(record_of(protocol, profile, width, event), at, width, event),
        record::clamp_count(fields_of(protocol, profile, width), event) == (if width is Four {
            wide_counters(event)
        } else {
            0
        }),
{
    let fields = fields_of(protocol, profile, width);
    let w = counter_len(width);
    template::law_configuration_sizes(protocol, profile, width);
    assert forall|j: int| 0 <= j < fields.len() implies (#[trigger] fields[j]).writable() by {
        assert(fields[j].wf(protocol));
    }
    lemma_field_at(fields, event, i, at);
    lemma_field_at(fields, event, i + 1, at + w);
    lemma_field_at(fields, event, i + 2, at + 2 * w);
    lemma_field_at(fields, event, i + 3, at + 3 * w);
    lemma_counter_field(fields[i], event, width, event.orig_bytes);
    lemma_counter_field(fields[i + 1], event, width, event.orig_packets);
    lemma_counter_field(fields[i + 2], event, width, event.reply_bytes);
    lemma_counter_field(fields[i + 3], event, width, event.reply_packets);
    assert(fields.take(i + 4) == fields);
    record::lemma_record_len(fields, event);
}

proof fn lemma_start(fields: Seq<ResolvedField>, event: ConntrackEvent)
    ensures
        template::record_len(fields.take(0)) == 0,
        record::clamp_count(fields.take(0), event) == 0,
{
}

/// A field that is no counter, at some place of a record.
proof fn lemma_plain_at(
    protocol: Protocol,
    profile: Profile,
    width: CounterWidth,
    event: ConntrackEvent,
    i: int,
    at: int,
)
    requires
        0 <= i < fields_of(protocol, profile, width).len(),
        template::record_len(fields_of(protocol, profile, width).take(i)) == at,
        record::clamp_count(fields_of(protocol, profile, width).take(i), event) == 0,
        counter(fields_of(protocol, profile, width)[i], event) is None,
    ensures
        ({
            let fields = fields_of(protocol, profile, width);
            let end = at + fields[i].length;
            &&& end <= record_of(protocol, profile, width, event).len()
            &&& record_of(protocol, profile, width, event).subrange(at, end)
                == record::field_bytes(fields[i], event)
            &&& template::record_len(fields.take(i + 1)) == end
            &&& record::clamp_count(fields.take(i + 1), event) == 0
        }),
{
    let fields = fields_of(protocol, profile, width);
    template::law_configuration_sizes(protocol, profile, width);
    assert forall|j: int| 0 <= j < fields.len() implies (#[trigger] fields[j]).writable() by {
        assert(fields[j].wf(protocol));
    }
    lemma_field_at(fields, event, i, at);
    law_only_counters_are_clamped(fields[i], event);
    law_fields_hold_their_values(fields[i], event);
}

/// natEvent: four for a session that came, five for one that went.
pub open spec fn nat_event_byte(event: ConntrackEvent) -> u8 {
    match event.nat_event {
        NatEventType::Create => 4,
        NatEventType::Delete => 5,
    }
}

/// What stands where in a record of the full profile: what happened, the protocol,
/// both endpoints before translation, both after it, and the counters.
pub proof fn law_full_record(protocol: Protocol, width: CounterWidth, event: ConntrackEvent)
    ensures
        ({
            let record = record_of(protocol, Profile::Full, width, event);
            &&& counters_read(record, 26, width, event)
            &&& record.subrange(0, 1) == seq![nat_event_byte(event)]
            &&& record.subrange(1, 2) == seq![event.protocol]
            &&& record.subrange(2, 6) == octets(event.src_ip)
            &&& record.subrange(6, 10) == octets(event.dst_ip)
            &&& record.subrange(10, 12) == port_bytes(event.src_port)
            &&& record.subrange(12, 14) == port_bytes(event.dst_port)
            &&& record.subrange(14, 18) == octets(event.post_nat_src_ip)
            &&& record.subrange(18, 20) == port_bytes(event.post_nat_src_port)
            &&& record.subrange(20, 24) == octets(event.post_nat_dst_ip)
            &&& record.subrange(24, 26) == port_bytes(event.post_nat_dst_port)
        }),
        record::clamp_count(fields_of(protocol, Profile::Full, width), event) == (
        if width is Four {
            wide_counters(event)
        } else {
            0
        }),
{
    let profile = Profile::Full;
    let fields = fields_of(protocol, profile, width);
    lemma_start(fields, event);
    lemma_plain_at(protocol, profile, width, event, 0, 0);
    law_fields_hold_their_values(fields[0], event);
    lemma_plain_at(protocol, profile, width, event, 1, 1);
    law_fields_hold_their_values(fields[1], event);
    lemma_plain_at(protocol, profile, width, event, 2, 2);
    law_fields_hold_their_values(fields[2], event);
    lemma_plain_at(protocol, profile, width, event, 3, 6);
    law_fields_hold_their_values(fields[3], event);
    lemma_plain_at(protocol, profile, width, event, 4, 10);
    law_fields_hold_their_values(fields[4], event);
    lemma_plain_at(protocol, profile, width, event, 5, 12);
    law_fields_hold_their_values(fields[5], event);
    lemma_plain_at(protocol, profile, width, event, 6, 14);
    law_fields_hold_their_values(fields[6], event);
    lemma_plain_at(protocol, profile, width, event, 7, 18);
    law_fields_hold_their_values(fields[7], event);
    lemma_plain_at(protocol, profile, width, event, 8, 20);
    law_fields_hold_their_values(fields[8], event);
    lemma_plain_at(protocol, profile, width, event, 9, 24);
    law_fields_hold_their_values(fields[9], event);
    lemma_counters_read(protocol, profile, width, event, 10, 26);
}

/// What stands where in a record of the source translation profile: as in a full
/// one, without the destination after translation.
pub proof fn law_nat_source_record(protocol: Protocol, width: CounterWidth, event: ConntrackEvent)
    ensures
        ({
            let record = record_of(protocol, Profile::NatSource, width, event);
            &&& counters_read(record, 20, width, event)
            &&& record.subrange(0, 1) == seq![nat_event_byte(event)]
            &&& record.subrange(1, 2) == seq![event.protocol]
            &&& record.subrange(2, 6) == octets(event.src_ip)
            &&& record.subrange(6, 10) == octets(event.dst_ip)
            &&& record.subrange(10, 12) == port_bytes(event.src_port)
            &&& record.subrange(12, 14) == port_bytes(event.dst_port)
            &&& record.subrange(14, 18) == octets(event.post_nat_src_ip)
            &&& record.subrange(18, 20) == port_bytes(event.post_nat_src_port)
        }),
        record::clamp_count(fields_of(protocol, Profile::NatSource, width), event) == (
        if width is Four {
            wide_counters(event)
        } else {
            0
        }),
{
    let profile = Profile::NatSource;
    let fields = fields_of(protocol, profile, width);
    lemma_start(fields, event);
    lemma_plain_at(protocol, profile, width, event, 0, 0);
    law_fields_hold_their_values(fields[0], event);
    lemma_plain_at(protocol, profile, width, event, 1, 1);
    law_fields_hold_their_values(fields[1], event);
    lemma_plain_at(protocol, profile, width, event, 2, 2);
    law_fields_hold_their_values(fields[2], event);
    lemma_plain_at(protocol, profile, width, event, 3, 6);
    law_fields_hold_their_values(fields[3], event);
    lemma_plain_at(protocol, profile, width, event, 4, 10);
    law_fields_hold_their_values(fields[4], event);
    lemma_plain_at(protocol, profile, width, event, 5, 12);
    law_fields_hold_their_values(fields[5], event);
    lemma_plain_at(protocol, profile, width, event, 6, 14);
    law_fields_hold_their_values(fields[6], event);
    lemma_plain_at(protocol, profile, width, event, 7, 18);
    law_fields_hold_their_values(fields[7], event);
    lemma_counters_read(protocol, profile, width, event, 8, 20);
}

/// What stands where in a record of the flow-only profile: the protocol, both
/// endpoints before translation, and the counters.
pub proof fn law_flow_only_record(protocol: Protocol, width: CounterWidth, event: ConntrackEvent)
    ensures
        ({
            let record = record_of(protocol, Profile::FlowOnly, width, event);
            &&& counters_read(record, 13, width, event)
            &&& record.subrange(0, 1) == seq![event.protocol]
            &&& record.subrange(1, 5) == octets(event.src_ip)
            &&& record.subrange(5, 9) == octets(event.dst_ip)
            &&& record.subrange(9, 11) == port_bytes(event.src_port)
            &&& record.subrange(11, 13) == port_bytes(event.dst_port)
        }),
        record::clamp_count(fields_of(protocol, Profile::FlowOnly, width), event) == (
        if width is Four {
            wide_counters(event)
        } else {
            0
        }),
{
    let profile = Profile::FlowOnly;
    let fields = fields_of(protocol, profile, width);
    lemma_start(fields, event);
    lemma_plain_at(protocol, profile, width, event, 0, 0);
    law_fields_hold_their_values(fields[0], event);
    lemma_plain_at(protocol, profile, width, event, 1, 1);
    law_fields_hold_their_values(fields[1], event);
    lemma_plain_at(protocol, profile, width, event, 2, 5);
    law_fields_hold_their_values(fields[2], event);
    lemma_plain_at(protocol, profile, width, event, 3, 9);
    law_fields_hold_their_values(fields[3], event);
    lemma_plain_at(protocol, profile, width, event, 4, 11);
    law_fields_hold_their_values(fields[4], event);
    lemma_counters_read(protocol, profile, width, event, 5, 13);
}

/// Full records with eight-byte counters leave nothing of an event out: two events
/// that differ at all have different records.
pub proof fn law_full_records_tell_events_apart(
    protocol: Protocol,
    a: ConntrackEvent,
    b: ConntrackEvent,
)
    requires
        record_of(protocol, Profile::Full, CounterWidth::Eight, a) == record_of(
            protocol,
            Profile::Full,
            CounterWidth::Eight,
            b,
        ),
    ensures
        a == b,
{
    let record = record_of(protocol, Profile::Full, CounterWidth::Eight, a);
    law_full_record(protocol, CounterWidth::Eight, a);
    law_full_record(protocol, CounterWidth::Eight, b);
    assert(seq![nat_event_byte(a)][0] == seq![nat_event_byte(b)][0]);
    assert(seq![a.protocol][0] == seq![b.protocol][0]);
    lemma_octets(a.src_ip, b.src_ip);
    lemma_octets(a.dst_ip, b.dst_ip);
    lemma_octets(a.post_nat_src_ip, b.post_nat_src_ip);
    lemma_octets(a.post_nat_dst_ip, b.post_nat_dst_ip);
    lemma_ports(a.src_port, b.src_port);
    lemma_ports(a.dst_port, b.dst_port);
    lemma_ports(a.post_nat_src_port, b.post_nat_src_port);
    lemma_ports(a.post_nat_dst_port, b.post_nat_dst_port);
}

proof fn lemma_octets(a: Ipv4Addr, b: Ipv4Addr)
    requires
        octets(a) == octets(b),
    ensures
        a == b,
{
    assert(octets(a)[0] == octets(b)[0] && octets(a)[1] == octets(b)[1]);
    assert(octets(a)[2] == octets(b)[2] && octets(a)[3] == octets(b)[3]);
}

proof fn lemma_ports(a: u16, b: u16)
    requires
        port_bytes(a) == port_bytes(b),
    ensures
        a == b,
{
    assert(port_bytes(a)[0] == port_bytes(b)[0] && port_bytes(a)[1] == port_bytes(b)[1]);
}

/// A template field announces this element, at this length.
pub open spec fn announces(field: ResolvedField, id: u16, pen: Option<u32>, length: int) -> bool {
    field.id == id && field.pen == pen && field.length == length
}

/// The four counter elements that end every template. The reply direction has the
/// reverse elements under IPFIX, and types of its own under NetFlow v9.
pub open spec fn announces_counters(
    fields: Seq<ResolvedField>,
    i: int,
    protocol: Protocol,
    width: CounterWidth,
) -> bool {
    let w = counter_len(width);
    &&& fields.len() == i + 4
    &&& announces(fields[i], 1, None, w)
    &&& announces(fields[i + 1], 2, None, w)
    &&& match protocol {
        Protocol::Ipfix => {
            &&& announces(fields[i + 2], 1, Some(29305), w)
            &&& announces(fields[i + 3], 2, Some(29305), w)
        },
        Protocol::Netflow9 => {
            &&& announces(fields[i + 2], 23, None, w)
            &&& announces(fields[i + 3], 24, None, w)
        },
    }
}

/// Which elements a template announces, in which order, and at which lengths. They
/// are the elements whose values the records hold at those places.
pub proof fn law_announced_elements(protocol: Protocol, width: CounterWidth)
    ensures
        ({
            let full = fields_of(protocol, Profile::Full, width);
            &&& announces(full[0], 230, None, 1)
            &&& announces(full[1], 4, None, 1)
            &&& announces(full[2], 8, None, 4)
            &&& announces(full[3], 12, None, 4)
            &&& announces(full[4], 7, None, 2)
            &&& announces(full[5], 11, None, 2)
            &&& announces(full[6], 225, None, 4)
            &&& announces(full[7], 227, None, 2)
            &&& announces(full[8], 226, None, 4)
            &&& announces(full[9], 228, None, 2)
            &&& announces_counters(full, 10, protocol, width)
        }),
        ({
            let nat_source = fields_of(protocol, Profile::NatSource, width);
            &&& announces(nat_source[0], 230, None, 1)
            &&& announces(nat_source[1], 4, None, 1)
            &&& announces(nat_source[2], 8, None, 4)
            &&& announces(nat_source[3], 12, None, 4)
            &&& announces(nat_source[4], 7, None, 2)
            &&& announces(nat_source[5], 11, None, 2)
            &&& announces(nat_source[6], 225, None, 4)
            &&& announces(nat_source[7], 227, None, 2)
            &&& announces_counters(nat_source, 8, protocol, width)
        }),
        ({
            let flow_only = fields_of(protocol, Profile::FlowOnly, width);
            &&& announces(flow_only[0], 4, None, 1)
            &&& announces(flow_only[1], 8, None, 4)
            &&& announces(flow_only[2], 12, None, 4)
            &&& announces(flow_only[3], 7, None, 2)
            &&& announces(flow_only[4], 11, None, 2)
            &&& announces_counters(flow_only, 5, protocol, width)
        }),
{
    template::law_configuration_sizes(protocol, Profile::Full, width);
    template::law_configuration_sizes(protocol, Profile::NatSource, width);
    template::law_configuration_sizes(protocol, Profile::FlowOnly, width);
}

/// How a template spells a field: the element, with the topmost bit set if it is
/// enterprise-specific, the length, and then the enterprise number.
pub proof fn law_specifier(field: ResolvedField)
    requires
        field.id < 0x8000,
    ensures
        ({
            let spelled = encoder::specifier_bytes(field);
            &&& bytes::be_value(spelled.subrange(2, 4)) == field.length
            &&& match field.pen {
                None => spelled.len() == 4 && bytes::be_value(spelled.subrange(0, 2)) == field.id,
                Some(pen) => {
                    &&& spelled.len() == 8
                    &&& bytes::be_value(spelled.subrange(0, 2)) == 0x8000 + field.id
                    &&& bytes::be_value(spelled.subrange(4, 8)) == pen
                },
            }
        }),
{
    let id = field.id;
    let spelled = encoder::specifier_bytes(field);
    assert(id | 0x8000 == 0x8000 + id) by (bit_vector)
        requires
            id < 0x8000,
    ;
    lemma_reads(id as nat, 2);
    lemma_reads((0x8000 + id) as nat, 2);
    lemma_reads(field.length as nat, 2);
    match field.pen {
        None => {
            assert(spelled.subrange(0, 2) == bytes::be_bytes(id as nat, 2));
            assert(spelled.subrange(2, 4) == bytes::be_bytes(field.length as nat, 2));
        },
        Some(pen) => {
            lemma_reads(pen as nat, 4);
            assert(spelled.subrange(0, 2) == bytes::be_bytes((0x8000 + id) as nat, 2));
            assert(spelled.subrange(2, 4) == bytes::be_bytes(field.length as nat, 2));
            assert(spelled.subrange(4, 8) == bytes::be_bytes(pen as nat, 4));
        },
    }
}

proof fn lemma_reads(value: nat, len: nat)
    requires
        len == 2 && value < 0x1_0000 || len == 4 && value < 0x1_0000_0000,
    ensures
        bytes::be_bytes(value, len).len() == len,
        bytes::be_value(bytes::be_bytes(value, len)) == value,
{
    bytes::lemma_pow_256(len);
    bytes::lemma_be_bytes_len(value, len);
    bytes::lemma_be_value_of_be_bytes(value, len);
}

/// How many fields a profile has.
pub open spec fn field_total(profile: Profile) -> int {
    match profile {
        Profile::Full => 14,
        Profile::NatSource => 12,
        Profile::FlowOnly => 9,
    }
}

/// Where the specifier of a field stands in a template set: behind eight bytes of
/// headers and four for each field before it, and four more behind the first reply
/// counter where that carries an enterprise number.
pub proof fn law_specifier_places(
    protocol: Protocol,
    profile: Profile,
    width: CounterWidth,
    i: int,
)
    requires
        0 <= i <= field_total(profile),
    ensures
        fields_of(protocol, profile, width).len() == field_total(profile),
        template::specifiers_len(fields_of(protocol, profile, width).take(i)) == 4 * i + (
        if protocol is Ipfix && i == field_total(profile) - 1 {
            4int
        } else if protocol is Ipfix && i == field_total(profile) {
            8
        } else {
            0
        }),
    decreases i,
{
    let fields = fields_of(protocol, profile, width);
    template::law_configuration_sizes(protocol, profile, width);
    law_announced_elements(protocol, width);
    if i > 0 {
        law_specifier_places(protocol, profile, width, i - 1);
        template::lemma_specifiers_len_take(fields, i - 1);
        lemma_plain_elements(protocol, profile, width, i - 1);
    }
}

proof fn lemma_plain_elements(protocol: Protocol, profile: Profile, width: CounterWidth, i: int)
    requires
        0 <= i < field_total(profile),
    ensures
        fields_of(protocol, profile, width)[i].pen is Some <==> protocol is Ipfix && i
            >= field_total(profile) - 2,
{
    let fields = fields_of(protocol, profile, width);
    law_announced_elements(protocol, width);
    assert(0 <= i <= 13);
    match profile {
        Profile::Full => {
            assert(i == 0 || i == 1 || i == 2 || i == 3 || i == 4 || i == 5 || i == 6 || i == 7
                || i == 8 || i == 9 || i == 10 || i == 11 || i == 12 || i == 13);
        },
        Profile::NatSource => {
            assert(i == 0 || i == 1 || i == 2 || i == 3 || i == 4 || i == 5 || i == 6 || i == 7
                || i == 8 || i == 9 || i == 10 || i == 11);
        },
        Profile::FlowOnly => {
            assert(i == 0 || i == 1 || i == 2 || i == 3 || i == 4 || i == 5 || i == 6 || i == 7
                || i == 8);
        },
    }
}

/// The size of a record.
pub open spec fn record_len_of(profile: Profile, width: CounterWidth) -> int {
    4 * counter_len(width) + match profile {
        Profile::Full => 26,
        Profile::NatSource => 20,
        Profile::FlowOnly => 13int,
    }
}

/// The size of the header of a message.
pub open spec fn header_len_of(protocol: Protocol) -> int {
    match protocol {
        Protocol::Ipfix => 16,
        Protocol::Netflow9 => 20,
    }
}

/// The size of a template set.
pub open spec fn template_len_of(protocol: Protocol, profile: Profile) -> int {
    8 + 4 * field_total(profile) + match protocol {
        Protocol::Ipfix => 8int,
        Protocol::Netflow9 => 0,
    }
}

/// `len` bytes, and under NetFlow v9 the padding up to the next four.
pub open spec fn padded_len(protocol: Protocol, len: int) -> int {
    match protocol {
        Protocol::Ipfix => len,
        Protocol::Netflow9 => len + (4 - len % 4) % 4,
    }
}

/// How large everything is that a configuration sends.
pub proof fn law_sizes(
    template: Template,
    protocol: Protocol,
    profile: Profile,
    width: CounterWidth,
    template_id: u16,
    records: nat,
)
    requires
        template.resolved(protocol, profile, width, template_id),
    ensures
        template.protocol == protocol,
        template.template_id == template_id,
        template.fields@ == fields_of(protocol, profile, width),
        template.fields@.len() == field_total(profile),
        template.record_size == record_len_of(profile, width),
        template.set_len() == template_len_of(protocol, profile),
        template.data_set_len(records) == padded_len(
            protocol,
            4 + records * record_len_of(profile, width),
        ),
        protocol.header_len() == header_len_of(protocol),
{
    let fields = fields_of(protocol, profile, width);
    template::law_configuration_sizes(protocol, profile, width);
    law_specifier_places(protocol, profile, width, field_total(profile));
    assert(fields.take(field_total(profile)) == fields);
    let size = record_len_of(profile, width);
    assert(records * size >= 0) by (nonlinear_arith)
        requires
            size > 0,
    ;
    assert(template.record_size == size);
    lemma_padded(protocol, template_len_of(protocol, profile) as nat);
    lemma_padded(protocol, (4 + records * size) as nat);
}

proof fn lemma_padded(protocol: Protocol, len: nat)
    ensures
        template::aligned(len, protocol.set_alignment() as nat) == padded_len(
            protocol,
            len as int,
        ),
{
    let rounded = template::aligned(len, protocol.set_alignment() as nat) as int;
    assert(rounded % (protocol.set_alignment() as int) == 0 && len <= rounded < len
        + protocol.set_alignment()) by {
        template::lemma_aligned(len, protocol.set_alignment() as nat);
    }
    if protocol is Netflow9 {
        lemma_next_multiple(len as int, rounded);
    }
}

/// There is one multiple of four from a number up to the fourth behind it.
pub proof fn lemma_next_multiple(len: int, rounded: int)
    requires
        0 <= len <= rounded < len + 4,
        rounded % 4 == 0,
    ensures
        rounded == len + (4 - len % 4) % 4,
{
}

/// A template set opens with the number that marks a template, two under IPFIX and
/// zero under NetFlow v9, its own length, the template ID, and the number of fields.
/// The specifiers of the fields follow at their places, and nothing else.
pub proof fn law_template_set(
    template: Template,
    protocol: Protocol,
    profile: Profile,
    width: CounterWidth,
    template_id: u16,
    i: int,
)
    requires
        template.wf(),
        template.resolved(protocol, profile, width, template_id),
        0 <= i < field_total(profile),
    ensures
        ({
            let set = encoder::template_set_bytes(template);
            let at = 8 + 4 * i + (if protocol is Ipfix && i == field_total(profile) - 1 {
                4int
            } else {
                0
            });
            let end = at + (if protocol is Ipfix && i >= field_total(profile) - 2 {
                8int
            } else {
                4
            });
            &&& set.len() == template_len_of(protocol, profile)
            &&& bytes::be_value(set.subrange(0, 2)) == (if protocol is Ipfix {
                2int
            } else {
                0
            })
            &&& bytes::be_value(set.subrange(2, 4)) == set.len()
            &&& bytes::be_value(set.subrange(4, 6)) == template_id
            &&& bytes::be_value(set.subrange(6, 8)) == field_total(profile)
            &&& 0 <= at < end <= set.len()
            &&& set.subrange(at, end) == encoder::specifier_bytes(
                fields_of(protocol, profile, width)[i],
            )
        }),
{
    law_sizes(template, protocol, profile, width, template_id, 0);
    law_specifier_places(protocol, profile, width, i);
    lemma_plain_elements(protocol, profile, width, i);
    laws::law_template_describes_fields(template, i);
    encoder::lemma_template_set_len(template);
}

/// The records of a data set stand one behind another, in the order of the events.
proof fn lemma_record_place(template: Template, events: Seq<ConntrackEvent>, i: int)
    requires
        template.wf(),
        0 <= i < events.len(),
    ensures
        ({
            let size = template.record_size;
            &&& 0 <= i * size <= (i + 1) * size <= laws::records_bytes(
                template.fields@,
                events,
            ).len()
            &&& laws::records_bytes(template.fields@, events).len() == events.len() * size
            &&& laws::records_bytes(template.fields@, events).subrange(i * size, (i + 1) * size)
                == record::record_bytes(template.fields@, events[i])
        }),
    decreases events.len(),
{
    let size = template.record_size as int;
    let fields = template.fields@;
    let all = laws::records_bytes(fields, events);
    let shorter = laws::records_bytes(fields, events.drop_last());
    laws::lemma_records_len(template, events);
    laws::lemma_records_len(template, events.drop_last());
    assert forall|j: int| 0 <= j < fields.len() implies (#[trigger] fields[j]).writable() by {
        assert(fields[j].wf(template.protocol));
    }
    record::lemma_record_len(fields, events.last());
    assert(0 <= i * size && (i + 1) * size == i * size + size && (i + 1) * size <= events.len()
        * size && (events.len() - 1) * size + size == events.len() * size) by (nonlinear_arith)
        requires
            0 <= i < events.len(),
            size > 0,
    ;
    if i < events.len() - 1 {
        lemma_record_place(template, events.drop_last(), i);
        assert(all.subrange(i * size, (i + 1) * size) == shorter.subrange(
            i * size,
            (i + 1) * size,
        ));
    } else {
        assert(all.subrange(i * size, (i + 1) * size) == record::record_bytes(
            fields,
            events.last(),
        ));
    }
}

/// The header of a message, as it reads.
pub open spec fn header_reads(
    message: Seq<u8>,
    protocol: Protocol,
    domain: u32,
    sequence: u32,
    records: int,
    unix_secs: u32,
    uptime_ms: u32,
) -> bool {
    let at = |from: int, to: int| bytes::be_value(message.subrange(from, to)) as int;
    match protocol {
        Protocol::Ipfix => {
            &&& message.len() >= 16
            &&& at(0, 2) == 10
            &&& at(2, 4) == message.len()
            &&& at(4, 8) == unix_secs
            &&& at(8, 12) == sequence
            &&& at(12, 16) == domain
        },
        Protocol::Netflow9 => {
            &&& message.len() >= 20
            &&& at(0, 2) == 9
            &&& at(2, 4) == records
            &&& at(4, 8) == uptime_ms
            &&& at(8, 12) == unix_secs
            &&& at(12, 16) == sequence
            &&& at(16, 20) == domain
        },
    }
}

/// The data set of a message, from `at` on: the template ID, the length of the set,
/// one record for each event, and zeros.
pub open spec fn data_set_reads(
    message: Seq<u8>,
    at: int,
    template: Template,
    events: Seq<ConntrackEvent>,
) -> bool {
    let size = template.record_size;
    let end = at + 4 + events.len() * size;
    &&& 0 <= at
    &&& bytes::be_value(message.subrange(at, at + 2)) == template.template_id
    &&& bytes::be_value(message.subrange(at + 2, at + 4)) == message.len() - at
    &&& end <= message.len()
    &&& message.len() - at == padded_len(template.protocol, end - at)
    &&& forall|i: int|
        0 <= i < events.len() ==> message.subrange(
            at + 4 + i * size,
            at + 4 + (i + 1) * size,
        ) == record::record_bytes(template.fields@, #[trigger] events[i])
    &&& forall|i: int| end <= i < message.len() ==> #[trigger] message[i] == 0
}

/// How a message reads: its header at the places the protocol fixes, then the
/// template set if it carries one, then one data set with the records of its events
/// in their order if it has any, and nothing else.
pub proof fn law_message_reads(
    template: Template,
    domain: u32,
    sequence: u32,
    include_template: bool,
    events: Seq<ConntrackEvent>,
    unix_secs: u32,
    uptime_ms: u32,
)
    requires
        template.wf(),
        laws::message_bytes(
            template,
            domain,
            sequence,
            include_template,
            events,
            unix_secs,
            uptime_ms,
        ).len() < 0x1_0000,
    ensures
        ({
            let message = laws::message_bytes(
                template,
                domain,
                sequence,
                include_template,
                events,
                unix_secs,
                uptime_ms,
            );
            let start = header_len_of(template.protocol);
            let set = encoder::template_set_bytes(template);
            let at = start + (if include_template {
                set.len()
            } else {
                0
            });
            &&& header_reads(
                message,
                template.protocol,
                domain,
                sequence,
                events.len() + (if include_template {
                    1int
                } else {
                    0
                }),
                unix_secs,
                uptime_ms,
            )
            &&& at <= message.len()
            &&& include_template ==> message.subrange(start, at) == set
            &&& events.len() == 0 ==> message.len() == at
            &&& events.len() > 0 ==> data_set_reads(message, at, template, events)
        }),
{
    let message = laws::message_bytes(
        template,
        domain,
        sequence,
        include_template,
        events,
        unix_secs,
        uptime_ms,
    );
    let protocol = template.protocol;
    let start = header_len_of(protocol);
    let sets = laws::sets_bytes(template, include_template, events);
    let total = (events.len() + (if include_template {
        1int
    } else {
        0
    })) as nat;
    let header = encoder::header_bytes(
        protocol,
        protocol.header_len() as nat + sets.len(),
        total,
        sequence,
        domain,
        unix_secs,
        uptime_ms,
    );
    let set = encoder::template_set_bytes(template);
    let first = if include_template {
        set
    } else {
        Seq::empty()
    };
    let data = laws::data_set_bytes(template, events);
    encoder::lemma_template_set_len(template);
    lemma_data_set_len(template, events);
    lemma_header_len(protocol, sets.len(), total, sequence, domain, unix_secs, uptime_ms);
    assert(message == header + sets);
    lemma_header_reads(protocol, sets, total, sequence, domain, unix_secs, uptime_ms);
    if events.len() > 0 {
        assert(message == (header + first) + data);
        lemma_data_set_reads(header + first, template, events);
    }
    assert(message.subrange(start, start + first.len()) == first);
}

proof fn lemma_data_set_len(template: Template, events: Seq<ConntrackEvent>)
    requires
        template.wf(),
    ensures
        events.len() <= events.len() * template.record_size,
        laws::data_set_bytes(template, events).len() == template.data_set_len(events.len()),
        template.data_set_len(events.len()) == padded_len(
            template.protocol,
            4 + events.len() * template.record_size,
        ),
{
    let size = template.record_size as int;
    laws::lemma_records_len(template, events);
    assert(events.len() * size >= events.len()) by (nonlinear_arith)
        requires
            size > 0,
    ;
    lemma_padded(template.protocol, (4 + events.len() * size) as nat);
    bytes::lemma_be_bytes_len(template.data_set_len(events.len()), 2);
    bytes::lemma_be_bytes_len(template.template_id as nat, 2);
}

proof fn lemma_header_len(
    protocol: Protocol,
    behind: nat,
    records: nat,
    sequence: u32,
    domain: u32,
    unix_secs: u32,
    uptime_ms: u32,
)
    ensures
        protocol.header_len() == header_len_of(protocol),
        encoder::header_bytes(
            protocol,
            protocol.header_len() as nat + behind,
            records,
            sequence,
            domain,
            unix_secs,
            uptime_ms,
        ).len() == header_len_of(protocol),
{
    bytes::lemma_be_bytes_len((protocol.header_len() as nat + behind) as nat, 2);
    bytes::lemma_be_bytes_len(records, 2);
    bytes::lemma_be_bytes_len(protocol.version() as nat, 2);
    bytes::lemma_be_bytes_len(unix_secs as nat, 4);
    bytes::lemma_be_bytes_len(uptime_ms as nat, 4);
    bytes::lemma_be_bytes_len(sequence as nat, 4);
    bytes::lemma_be_bytes_len(domain as nat, 4);
}

proof fn lemma_header_reads(
    protocol: Protocol,
    sets: Seq<u8>,
    records: nat,
    sequence: u32,
    domain: u32,
    unix_secs: u32,
    uptime_ms: u32,
)
    requires
        header_len_of(protocol) + sets.len() < 0x1_0000,
        records < 0x1_0000,
    ensures
        header_reads(
            encoder::header_bytes(
                protocol,
                protocol.header_len() as nat + sets.len(),
                records,
                sequence,
                domain,
                unix_secs,
                uptime_ms,
            ) + sets,
            protocol,
            domain,
            sequence,
            records as int,
            unix_secs,
            uptime_ms,
        ),
{
    let message = encoder::header_bytes(
        protocol,
        protocol.header_len() as nat + sets.len(),
        records,
        sequence,
        domain,
        unix_secs,
        uptime_ms,
    ) + sets;
    lemma_header_len(protocol, sets.len(), records, sequence, domain, unix_secs, uptime_ms);
    lemma_reads(protocol.version() as nat, 2);
    lemma_reads((protocol.header_len() as nat + sets.len()) as nat, 2);
    lemma_reads(records, 2);
    lemma_reads(unix_secs as nat, 4);
    lemma_reads(uptime_ms as nat, 4);
    lemma_reads(sequence as nat, 4);
    lemma_reads(domain as nat, 4);
    assert(message.subrange(0, 2) == bytes::be_bytes(protocol.version() as nat, 2));
    match protocol {
        Protocol::Ipfix => {
            assert(message.subrange(2, 4) == bytes::be_bytes(message.len(), 2));
            assert(message.subrange(4, 8) == bytes::be_bytes(unix_secs as nat, 4));
            assert(message.subrange(8, 12) == bytes::be_bytes(sequence as nat, 4));
            assert(message.subrange(12, 16) == bytes::be_bytes(domain as nat, 4));
        },
        Protocol::Netflow9 => {
            assert(message.subrange(2, 4) == bytes::be_bytes(records, 2));
            assert(message.subrange(4, 8) == bytes::be_bytes(uptime_ms as nat, 4));
            assert(message.subrange(8, 12) == bytes::be_bytes(unix_secs as nat, 4));
            assert(message.subrange(12, 16) == bytes::be_bytes(sequence as nat, 4));
            assert(message.subrange(16, 20) == bytes::be_bytes(domain as nat, 4));
        },
    }
}

proof fn lemma_data_set_reads(front: Seq<u8>, template: Template, events: Seq<ConntrackEvent>)
    requires
        template.wf(),
        front.len() + laws::data_set_bytes(template, events).len() < 0x1_0000,
    ensures
        data_set_reads(
            front + laws::data_set_bytes(template, events),
            front.len() as int,
            template,
            events,
        ),
{
    let size = template.record_size as int;
    let at = front.len() as int;
    let len = template.data_set_len(events.len());
    let id = bytes::be_bytes(template.template_id as nat, 2);
    let records = laws::records_bytes(template.fields@, events);
    let pad = bytes::zeros((len - 4 - records.len()) as nat);
    let data = laws::data_set_bytes(template, events);
    let message = front + data;
    lemma_data_set_len(template, events);
    laws::lemma_records_len(template, events);
    lemma_reads(template.template_id as nat, 2);
    lemma_reads(len, 2);
    let head = front + (id + bytes::be_bytes(len, 2));
    assert(message == head + (records + pad));
    assert(message.subrange(at, at + 2) == id);
    assert(message.subrange(at + 2, at + 4) == bytes::be_bytes(len, 2));
    assert forall|i: int| 0 <= i < events.len() implies message.subrange(
        at + 4 + i * size,
        at + 4 + (i + 1) * size,
    ) == record::record_bytes(template.fields@, #[trigger] events[i]) by {
        lemma_record_place(template, events, i);
        assert(message.subrange(at + 4 + i * size, at + 4 + (i + 1) * size) == records.subrange(
            i * size,
            (i + 1) * size,
        ));
    }
}

/// How many counters of an event a configuration has to clamp.
pub proof fn law_clamped_counters(
    protocol: Protocol,
    profile: Profile,
    width: CounterWidth,
    event: ConntrackEvent,
)
    ensures
        record::clamp_count(fields_of(protocol, profile, width), event) == (if width is Four {
            wide_counters(event)
        } else {
            0
        }),
{
    match profile {
        Profile::Full => law_full_record(protocol, width, event),
        Profile::NatSource => law_nat_source_record(protocol, width, event),
        Profile::FlowOnly => law_flow_only_record(protocol, width, event),
    }
}

/// Adding a record counts the record and the counters that had to be clamped for
/// it, and changes nothing else about the encoder but the message.
pub proof fn law_adding_a_record(view: EncoderView, event: ConntrackEvent)
    requires
        view.template.resolved(
            view.template.protocol,
            view.template.profile,
            view.template.counter_width,
            view.template.template_id,
        ),
        view.records < u32::MAX,
    ensures
        ({
            let after = view.with_record(event);
            &&& after.records == view.records + 1
            &&& after.saturated == (view.saturated + (if view.template.counter_width is Four {
                wide_counters(event)
            } else {
                0
            })) % 0x1_0000_0000_0000_0000
            &&& after.template == view.template
            &&& after.domain == view.domain
            &&& after.sequence == view.sequence
            &&& after.template_included == view.template_included
            &&& after.started == view.started
        }),
{
    law_clamped_counters(
        view.template.protocol,
        view.template.profile,
        view.template.counter_width,
        event,
    );
}

/// Beginning a message leaves the encoder what it was, apart from the message: it
/// has no records yet, and the template if it was asked for.
pub proof fn law_beginning_a_message(
    before: EncoderView,
    include_template: bool,
    begun: EncoderView,
)
    requires
        before.begins(include_template, begun),
    ensures
        begun.records == 0,
        begun.data_set is None,
        begun.template_included == include_template,
        begun.template == before.template,
        begun.domain == before.domain,
        begun.sequence == before.sequence,
        begun.saturated == before.saturated,
        begun.started == before.started,
{
}

/// Finishing a message moves the sequence number on, by the records under IPFIX and
/// by one under NetFlow v9, and leaves the encoder what it was otherwise.
pub proof fn law_finishing_a_message(view: EncoderView, unix_secs: u32, uptime_ms: u32)
    ensures
        ({
            let after = view.finished(unix_secs, uptime_ms);
            let step = match view.template.protocol {
                Protocol::Ipfix => view.records as int,
                Protocol::Netflow9 => 1,
            };
            &&& after.bytes == view.message(unix_secs, uptime_ms)
            &&& view.sequence + step < 0x1_0000_0000 ==> after.sequence == view.sequence + step
            &&& view.sequence + step >= 0x1_0000_0000 ==> after.sequence == view.sequence + step
                - 0x1_0000_0000
            &&& after.template == view.template
            &&& after.domain == view.domain
            &&& after.records == view.records
            &&& after.template_included == view.template_included
            &&& after.saturated == view.saturated
            &&& after.started == view.started
        }),
{
}

/// A message takes a record exactly as long as everything that goes out with it fits
/// in 1472 bytes: the header, the template set if it is there, and the data set with
/// its padding.
pub proof fn law_what_a_message_takes(
    before: EncoderView,
    include_template: bool,
    begun: EncoderView,
    events: Seq<ConntrackEvent>,
    protocol: Protocol,
    profile: Profile,
    width: CounterWidth,
    template_id: u16,
)
    requires
        before.wf(),
        before.template.resolved(protocol, profile, width, template_id),
        before.begins(include_template, begun),
    ensures
        begun.accepts_all(events) <==> events.len() == 0 || header_len_of(protocol) + (
        if include_template {
            template_len_of(protocol, profile)
        } else {
            0
        }) + padded_len(protocol, 4 + events.len() * record_len_of(profile, width)) <= 1472,
{
    law_sizes(before.template, protocol, profile, width, template_id, events.len());
    laws::law_capacity(
        before,
        include_template,
        begun,
        events,
        protocol,
        profile,
        width,
        template_id,
    );
}

/// A message that an encoder finishes reads as the events that were added to it:
/// nothing of it comes from an earlier message.
pub proof fn law_finished_message_reads(
    before: EncoderView,
    include_template: bool,
    begun: EncoderView,
    events: Seq<ConntrackEvent>,
    unix_secs: u32,
    uptime_ms: u32,
)
    requires
        before.wf(),
        before.begins(include_template, begun),
        begun.accepts_all(events),
    ensures
        ({
            let message = begun.with_records(events).message(unix_secs, uptime_ms);
            let template = before.template;
            let start = header_len_of(template.protocol);
            let set = encoder::template_set_bytes(template);
            let at = start + (if include_template {
                set.len()
            } else {
                0
            });
            &&& at <= message.len() <= 1472
            &&& begun.with_records(events).records == events.len()
            &&& header_reads(
                message,
                template.protocol,
                before.domain,
                before.sequence,
                events.len() + (if include_template {
                    1int
                } else {
                    0
                }),
                unix_secs,
                uptime_ms,
            )
            &&& include_template ==> message.subrange(start, at) == set
            &&& events.len() == 0 ==> message.len() == at
            &&& events.len() > 0 ==> data_set_reads(message, at, template, events)
        }),
{
    laws::law_message_layout(before, include_template, begun, events, unix_secs, uptime_ms);
    law_message_reads(
        before.template,
        before.domain,
        before.sequence,
        include_template,
        events,
        unix_secs,
        uptime_ms,
    );
}

/// How long a message is.
pub proof fn lemma_message_len(
    template: Template,
    domain: u32,
    sequence: u32,
    include_template: bool,
    events: Seq<ConntrackEvent>,
    unix_secs: u32,
    uptime_ms: u32,
)
    requires
        template.wf(),
    ensures
        laws::message_bytes(
            template,
            domain,
            sequence,
            include_template,
            events,
            unix_secs,
            uptime_ms,
        ).len() == header_len_of(template.protocol) + (if include_template {
            template.set_len()
        } else {
            0
        }) + (if events.len() > 0 {
            template.data_set_len(events.len())
        } else {
            0
        }),
{
    let sets = laws::sets_bytes(template, include_template, events);
    encoder::lemma_template_set_len(template);
    lemma_data_set_len(template, events);
    lemma_header_len(
        template.protocol,
        sets.len(),
        (events.len() + (if include_template {
            1int
        } else {
            0
        })) as nat,
        sequence,
        domain,
        unix_secs,
        uptime_ms,
    );
}

/// How wide a source is: a byte for what happened and for the protocol, two for a port, four
/// for an address, and for a counter whatever is configured.
pub open spec fn source_len(source: FieldSource) -> Option<int> {
    match source {
        FieldSource::NatEvent => Some(1),
        FieldSource::Protocol => Some(1),
        FieldSource::SrcPort => Some(2),
        FieldSource::DstPort => Some(2),
        FieldSource::PostNatSrcPort => Some(2),
        FieldSource::PostNatDstPort => Some(2),
        FieldSource::SrcIp => Some(4),
        FieldSource::DstIp => Some(4),
        FieldSource::PostNatSrcIp => Some(4),
        FieldSource::PostNatDstIp => Some(4),
        _ => None,
    }
}

/// A shape fits its source exactly if it declares the bytes the source has, or leaves them to
/// the configuration where the source is a counter. A field can be written exactly if it is
/// as long as its source, or a counter of no more than eight bytes.
pub proof fn law_fitting_shapes(shape: FieldShape, field: ResolvedField)
    ensures
        shape.consistent() <==> (match shape.width {
            Width::Fixed(declared) => source_len(shape.source) == Some(declared as int),
            Width::Counter => source_len(shape.source) is None,
        }),
        field.writable() <==> (match source_len(field.source) {
            Some(len) => field.length == len,
            None => field.length <= 8,
        }),
{
}

/// What tells the protocols apart.
pub proof fn law_protocols()
    ensures
        Protocol::Ipfix.version() == 10,
        Protocol::Netflow9.version() == 9,
        Protocol::Ipfix.header_len() == 16,
        Protocol::Netflow9.header_len() == 20,
        Protocol::Ipfix.template_set_id() == 2,
        Protocol::Netflow9.template_set_id() == 0,
        Protocol::Ipfix.supports_enterprise(),
        !Protocol::Netflow9.supports_enterprise(),
        Protocol::Ipfix.set_alignment() == 1,
        Protocol::Netflow9.set_alignment() == 4,
{
}

/// The field types of NetFlow v9 are the elements of IPFIX, but for the reply counters.
pub proof fn law_netflow9_types(source: FieldSource, id: u16)
    ensures
        template::spec_netflow9_type(source, id) == (match source {
            FieldSource::ReplyBytes => 23,
            FieldSource::ReplyPackets => 24,
            _ => id,
        }),
        template::spec_ie(id).id == id && template::spec_ie(id).pen is None,
        template::spec_reverse_ie(id).id == id && template::spec_reverse_ie(id).pen == Some(29305u32),
{
}

/// A record is as long as its fields are together, and so are the specifiers in a template.
pub proof fn law_lengths_add_up(fields: Seq<ResolvedField>, next: ResolvedField)
    ensures
        template::record_len(Seq::empty()) == 0,
        template::record_len(fields.push(next)) == template::record_len(fields) + next.length,
        template::specifiers_len(Seq::empty()) == 0,
        template::specifiers_len(fields.push(next)) == template::specifiers_len(fields) + (
        if next.pen is Some {
            8int
        } else {
            4
        }),
{
    assert(fields.push(next).drop_last() == fields);
}

/// Padding goes up to the next multiple, and no further.
pub proof fn law_padding(len: nat, alignment: nat)
    requires
        alignment > 0,
    ensures
        template::aligned(len, alignment) % alignment == 0,
        len <= template::aligned(len, alignment) < len + alignment,
{
    template::lemma_aligned(len, alignment);
}

/// Errors name the value that was refused: other values have other lines.
pub proof fn law_error_lines(a: u8, b: u8, x: u16, y: u16)
    ensures
        (CounterWidthError { bytes: a }).line() == (CounterWidthError { bytes: b }).line() ==> a
            == b,
        TemplateError::ReservedTemplateId(x).line() == TemplateError::ReservedTemplateId(y).line()
            ==> x == y,
{
    reveal_strlit("counter width must be 4 or 8 bytes, got ");
    reveal_strlit(", got ");
    if (CounterWidthError { bytes: a }).line() == (CounterWidthError { bytes: b }).line() {
        text::lemma_number_at_end(
            "counter width must be 4 or 8 bytes, got "@,
            a as nat,
            "counter width must be 4 or 8 bytes, got "@,
            b as nat,
        );
    }
    if TemplateError::ReservedTemplateId(x).line() == TemplateError::ReservedTemplateId(y).line() {
        let s = "template ID must be at least "@ + text::decimal(256);
        text::lemma_word_and_number(s, x as nat, s, y as nat, ", got "@);
    }
}

} // verus!
