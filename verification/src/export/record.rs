//! The data record body, which is identical under every export protocol.
//!
//! IPFIX and NetFlow v9 differ in their message header and in how a template is
//! described, but a record is just the field values concatenated in template
//! order -- so this is written once and shared.

use super::template;
use super::template::{FieldSource, ResolvedField};
use crate::bytes;
use crate::event::ConntrackEvent;
use crate::net::Ipv4Addr;
use vstd::prelude::*;

verus! {

/// A field's value, before it is written at the width the template advertises.
#[derive(Debug, Clone, Copy)]
pub enum Value {
    Byte(u8),
    Port(u16),
    Addr(Ipv4Addr),
    Counter(u64),
}

pub open spec fn spec_value_of(source: FieldSource, event: ConntrackEvent) -> Value {
    match source {
        FieldSource::NatEvent => Value::Byte(event.nat_event.code()),
        FieldSource::Protocol => Value::Byte(event.protocol),
        FieldSource::SrcIp => Value::Addr(event.src_ip),
        FieldSource::DstIp => Value::Addr(event.dst_ip),
        FieldSource::SrcPort => Value::Port(event.src_port),
        FieldSource::DstPort => Value::Port(event.dst_port),
        FieldSource::PostNatSrcIp => Value::Addr(event.post_nat_src_ip),
        FieldSource::PostNatSrcPort => Value::Port(event.post_nat_src_port),
        FieldSource::PostNatDstIp => Value::Addr(event.post_nat_dst_ip),
        FieldSource::PostNatDstPort => Value::Port(event.post_nat_dst_port),
        FieldSource::OrigBytes => Value::Counter(event.orig_bytes),
        FieldSource::OrigPackets => Value::Counter(event.orig_packets),
        FieldSource::ReplyBytes => Value::Counter(event.reply_bytes),
        FieldSource::ReplyPackets => Value::Counter(event.reply_packets),
    }
}

/// The value of `event` that a source names.
pub fn value_of(source: FieldSource, event: &ConntrackEvent) -> (value: Value)
    ensures
        value == spec_value_of(source, *event),
{
    match source {
        FieldSource::NatEvent => Value::Byte(event.nat_event.nat_event_code()),
        FieldSource::Protocol => Value::Byte(event.protocol),
        FieldSource::SrcIp => Value::Addr(event.src_ip),
        FieldSource::DstIp => Value::Addr(event.dst_ip),
        FieldSource::SrcPort => Value::Port(event.src_port),
        FieldSource::DstPort => Value::Port(event.dst_port),
        FieldSource::PostNatSrcIp => Value::Addr(event.post_nat_src_ip),
        FieldSource::PostNatSrcPort => Value::Port(event.post_nat_src_port),
        FieldSource::PostNatDstIp => Value::Addr(event.post_nat_dst_ip),
        FieldSource::PostNatDstPort => Value::Port(event.post_nat_dst_port),
        FieldSource::OrigBytes => Value::Counter(event.orig_bytes),
        FieldSource::OrigPackets => Value::Counter(event.orig_packets),
        FieldSource::ReplyBytes => Value::Counter(event.reply_bytes),
        FieldSource::ReplyPackets => Value::Counter(event.reply_packets),
    }
}

/// The largest number that `len` bytes can spell, and no more than a conntrack
/// counter can reach.
pub open spec fn counter_limit(len: nat) -> nat {
    if len >= 8 {
        u64::MAX as nat
    } else {
        (vstd::arithmetic::power::pow(256, len) - 1) as nat
    }
}

/// What a counter of `len` bytes reports of `value`: the value itself, or the
/// most the field can hold.
pub open spec fn clamped(value: nat, len: nat) -> nat {
    if value > counter_limit(len) {
        counter_limit(len)
    } else {
        value
    }
}

/// What a field of a record holds.
pub open spec fn field_bytes(field: ResolvedField, event: ConntrackEvent) -> Seq<u8> {
    match spec_value_of(field.source, event) {
        Value::Byte(value) => seq![value],
        Value::Port(value) => bytes::be_bytes(value as nat, 2),
        Value::Addr(value) => value.spec_octets(),
        Value::Counter(value) => bytes::be_bytes(
            clamped(value as nat, field.length as nat),
            field.length as nat,
        ),
    }
}

/// Whether a field reports less than the event says.
pub open spec fn is_clamped(field: ResolvedField, event: ConntrackEvent) -> bool {
    spec_value_of(field.source, event) matches Value::Counter(value) && value > counter_limit(
        field.length as nat,
    )
}

/// A record: the field values, one after another.
pub open spec fn record_bytes(fields: Seq<ResolvedField>, event: ConntrackEvent) -> Seq<u8>
    decreases fields.len(),
{
    if fields.len() == 0 {
        Seq::empty()
    } else {
        record_bytes(fields.drop_last(), event) + field_bytes(fields.last(), event)
    }
}

/// How many fields of a record report less than the event says.
pub open spec fn clamp_count(fields: Seq<ResolvedField>, event: ConntrackEvent) -> nat
    decreases fields.len(),
{
    if fields.len() == 0 {
        0
    } else {
        clamp_count(fields.drop_last(), event) + (if is_clamped(fields.last(), event) {
            1nat
        } else {
            0nat
        })
    }
}

/// Largest value a counter of `len` bytes can carry.
pub fn counter_max(len: usize) -> (max: u64)
    ensures
        max == counter_limit(len as nat),
{
    if len >= 8 {
        return u64::MAX;
    }
    let mut max: u64 = 0;
    let mut i: usize = 0;
    proof {
        reveal(vstd::arithmetic::power::pow);
        lemma_pow_at_most(len as nat);
    }
    while i < len
        invariant
            i <= len < 8,
            max == vstd::arithmetic::power::pow(256, i as nat) - 1,
        decreases len - i,
    {
        proof {
            reveal(vstd::arithmetic::power::pow);
            lemma_pow_at_most((i + 1) as nat);
        }
        max = max * 256 + 255;
        i = i + 1;
    }
    max
}

/// Write one record at `offset`, advancing it. Returns how many counters had to
/// be clamped because the configured width could not hold them.
pub fn write_record(
    buf: &mut [u8],
    offset: &mut usize,
    fields: &[ResolvedField],
    event: &ConntrackEvent,
) -> (saturated: u64)
    requires
        forall|i: int| 0 <= i < fields@.len() ==> (#[trigger] fields@[i]).writable(),
        *old(offset) + template::record_len(fields@) <= old(buf)@.len(),
    ensures
        saturated == clamp_count(fields@, *event),
        *final(offset) == *old(offset) + template::record_len(fields@),
        final(buf)@ == bytes::overwrite(
            old(buf)@,
            *old(offset) as int,
            record_bytes(fields@, *event),
        ),
{
    let mut saturated: u64 = 0;
    let mut i: usize = 0;
    let ghost start = *offset as int;
    let ghost before = buf@;
    assert(before == bytes::overwrite(before, start, Seq::empty()));
    while i < fields.len()
        invariant
            i <= fields@.len(),
            forall|j: int| 0 <= j < fields@.len() ==> (#[trigger] fields@[j]).writable(),
            0 <= start,
            start + template::record_len(fields@) <= before.len(),
            saturated == clamp_count(fields@.take(i as int), *event),
            saturated <= i,
            *offset == start + template::record_len(fields@.take(i as int)),
            record_bytes(fields@.take(i as int), *event).len() == template::record_len(
                fields@.take(i as int),
            ),
            buf@ == bytes::overwrite(before, start, record_bytes(fields@.take(i as int), *event)),
        decreases fields@.len() - i,
    {
        let field: ResolvedField = fields[i];
        let len: usize = field.length as usize;
        let ghost done = record_bytes(fields@.take(i as int), *event);
        let ghost next = field_bytes(field, *event);
        proof {
            let longer = fields@.take(i + 1);
            assert(longer.drop_last() == fields@.take(i as int));
            assert(fields@[i as int].writable());
            lemma_field_len(field, *event);
            template::lemma_record_len_take(fields@, i as int);
            bytes::lemma_overwrite_append(before, start, done, next);
        }
        match value_of(field.source, event) {
            Value::Byte(value) => {
                buf[*offset] = value;
                *offset = *offset + 1;
                assert(buf@ == bytes::overwrite(before, start, done + next));
            },
            Value::Port(value) => {
                bytes::put_u16(buf, offset, value);
            },
            Value::Addr(value) => {
                put_addr(buf, offset, value);
            },
            Value::Counter(value) => {
                // Truncating a counter would report a plausible wrong number;
                // clamping at least reports a number the collector can spot.
                let max: u64 = counter_max(len);
                let value: u64 = if value > max {
                    saturated = saturated + 1;
                    max
                } else {
                    value
                };
                bytes::put_be(buf, offset, value, len);
            },
        }
        i = i + 1;
    }
    assert(fields@.take(i as int) == fields@);
    saturated
}

/// Writes the four octets of an address.
pub fn put_addr(buf: &mut [u8], offset: &mut usize, addr: Ipv4Addr)
    requires
        *old(offset) + 4 <= old(buf)@.len(),
    ensures
        *final(offset) == *old(offset) + 4,
        final(buf)@ == bytes::overwrite(old(buf)@, *old(offset) as int, addr.spec_octets()),
{
    let at: usize = *offset;
    assert(at + 4 <= buf.len());
    let octets: [u8; 4] = addr.octets();
    let ghost before = buf@;
    buf[at] = octets[0];
    buf[at + 1] = octets[1];
    buf[at + 2] = octets[2];
    buf[at + 3] = octets[3];
    *offset = at + 4;
    assert(buf@ == bytes::overwrite(before, at as int, addr.spec_octets()));
}

proof fn lemma_pow_at_most(len: nat)
    requires
        len < 8,
    ensures
        0 < vstd::arithmetic::power::pow(256, len) <= 0x100_0000_0000_0000,
{
    reveal_with_fuel(vstd::arithmetic::power::pow, 8);
}

/// A field is written at exactly the length its template declares.
pub proof fn lemma_field_len(field: ResolvedField, event: ConntrackEvent)
    requires
        field.writable(),
    ensures
        field_bytes(field, event).len() == field.length,
{
    if let Value::Counter(value) = spec_value_of(field.source, event) {
        bytes::lemma_be_bytes_len(
            clamped(value as nat, field.length as nat),
            field.length as nat,
        );
    }
    if let Value::Port(value) = spec_value_of(field.source, event) {
        bytes::lemma_be_bytes_len(value as nat, 2);
    }
}

/// A record takes exactly the bytes its template advertises, whatever the event
/// says.
pub proof fn lemma_record_len(fields: Seq<ResolvedField>, event: ConntrackEvent)
    requires
        forall|i: int| 0 <= i < fields.len() ==> (#[trigger] fields[i]).writable(),
    ensures
        record_bytes(fields, event).len() == template::record_len(fields),
    decreases fields.len(),
{
    if fields.len() > 0 {
        let shorter = fields.drop_last();
        assert forall|i: int| 0 <= i < shorter.len() implies (#[trigger] shorter[i]).writable() by {
            assert(fields[i].writable());
        }
        assert(fields[fields.len() - 1].writable());
        lemma_field_len(fields.last(), event);
        lemma_record_len(shorter, event);
    }
}

} // verus!
