//! The encoder of the fixed NAT event record.

use super::constants::{
    DATA_RECORD_SIZE, ENTERPRISE_BIT, IPFIX_HEADER_LEN, IPFIX_VERSION, MAX_IPFIX_MSG_SIZE,
    NAT_TEMPLATE_ID, SET_HEADER_LEN, TEMPLATE_FIELD_COUNT, TEMPLATE_SET_ID,
};
use super::template;
use super::template::FieldSpec;
use crate::bytes;
use crate::clock;
use crate::event::ConntrackEvent;
use crate::export::encoder;
use crate::export::encoder::EncoderView;
use crate::export::record;
use crate::export::template::{CounterWidth, Profile, Protocol, ResolvedField, Template};
use crate::net::Ipv4Addr;
use vstd::prelude::*;

verus! {

/// `base` with the record of an event behind it, field by field.
pub open spec fn append_record(base: Seq<u8>, event: ConntrackEvent) -> Seq<u8> {
    base + seq![event.nat_event.code()] + seq![event.protocol] + event.src_ip.spec_octets()
        + event.dst_ip.spec_octets() + bytes::be_bytes(event.src_port as nat, 2)
        + bytes::be_bytes(event.dst_port as nat, 2) + event.post_nat_src_ip.spec_octets()
        + bytes::be_bytes(event.post_nat_src_port as nat, 2)
        + event.post_nat_dst_ip.spec_octets() + bytes::be_bytes(
        event.post_nat_dst_port as nat,
        2,
    ) + bytes::be_bytes(event.orig_bytes as nat, 8) + bytes::be_bytes(
        event.orig_packets as nat,
        8,
    ) + bytes::be_bytes(event.reply_bytes as nat, 8) + bytes::be_bytes(
        event.reply_packets as nat,
        8,
    )
}

/// `base` with the description of one field behind it.
pub open spec fn append_specifier(base: Seq<u8>, field: FieldSpec) -> Seq<u8> {
    match field.enterprise {
        Some(pen) => base + bytes::be_bytes((field.ie_id | ENTERPRISE_BIT) as nat, 2)
            + bytes::be_bytes(field.length as nat, 2) + bytes::be_bytes(pen as nat, 4),
        None => base + bytes::be_bytes(field.ie_id as nat, 2) + bytes::be_bytes(
            field.length as nat,
            2,
        ),
    }
}

/// `base` with the descriptions of some fields behind it.
pub open spec fn append_specifiers(base: Seq<u8>, fields: Seq<FieldSpec>) -> Seq<u8>
    decreases fields.len(),
{
    if fields.len() == 0 {
        base
    } else {
        append_specifier(append_specifiers(base, fields.drop_last()), fields.last())
    }
}

/// `base` with the template set behind it.
pub open spec fn append_template_set(base: Seq<u8>) -> Seq<u8> {
    append_specifiers(
        base + bytes::be_bytes(TEMPLATE_SET_ID as nat, 2) + bytes::be_bytes(72, 2)
            + bytes::be_bytes(NAT_TEMPLATE_ID as nat, 2) + bytes::be_bytes(
            TEMPLATE_FIELD_COUNT as nat,
            2,
        ),
        template::spec_nat_template_fields(),
    )
}

/// What an IPFIX encoder holds: its configuration, and the message it is
/// building.
pub struct IpfixView {
    pub domain: u32,
    /// The sequence number the next finished message carries.
    pub sequence: u32,
    pub template_included: bool,
    /// Records added to the message.
    pub records: u32,
    /// The message so far. Its header is filled in when it is finished.
    pub bytes: Seq<u8>,
    /// Where the data set starts, once there is one.
    pub data_set: Option<nat>,
}

impl IpfixView {
    pub open spec fn wf(self) -> bool {
        &&& self.bytes.len() <= MAX_IPFIX_MSG_SIZE
        &&& self.records <= self.bytes.len()
        &&& self.data_set matches Some(at) ==> at + SET_HEADER_LEN <= self.bytes.len()
    }

    /// `after` is `self` with a new message begun: room for a header, and
    /// behind it the template set if it was asked for.
    pub open spec fn begins(self, include_template: bool, after: IpfixView) -> bool {
        &&& after == (IpfixView {
            template_included: include_template,
            records: 0,
            data_set: None,
            bytes: after.bytes,
            ..self
        })
        &&& after.bytes.len() >= IPFIX_HEADER_LEN
        &&& after.bytes == (if include_template {
            append_template_set(after.bytes.take(IPFIX_HEADER_LEN as int))
        } else {
            after.bytes.take(IPFIX_HEADER_LEN as int)
        })
    }

    /// The message has room for one more record, and for the data set header if
    /// that is still missing.
    pub open spec fn has_room(self) -> bool {
        let set_header = if self.data_set is Some {
            0
        } else {
            SET_HEADER_LEN as int
        };
        self.bytes.len() + set_header + DATA_RECORD_SIZE <= MAX_IPFIX_MSG_SIZE
    }

    /// The message with a record for `event` added. The first record opens the
    /// data set.
    pub open spec fn with_record(self, event: ConntrackEvent) -> IpfixView {
        let opened = if self.data_set is Some {
            self.bytes
        } else {
            self.bytes + bytes::be_bytes(NAT_TEMPLATE_ID as nat, 2) + bytes::be_bytes(0, 2)
        };
        IpfixView {
            bytes: append_record(opened, event),
            data_set: if self.data_set is Some {
                self.data_set
            } else {
                Some(self.bytes.len())
            },
            records: (self.records + 1) as u32,
            ..self
        }
    }

    /// The message with the length of its data set filled in.
    pub open spec fn closed_bytes(self) -> Seq<u8> {
        match self.data_set {
            None => self.bytes,
            Some(at) => bytes::overwrite(
                self.bytes,
                at as int + 2,
                bytes::be_bytes((self.bytes.len() - at) as nat, 2),
            ),
        }
    }

    /// The message header.
    pub open spec fn header(self, export_time: u32) -> Seq<u8> {
        bytes::be_bytes(IPFIX_VERSION as nat, 2) + bytes::be_bytes(self.bytes.len(), 2)
            + bytes::be_bytes(export_time as nat, 4) + bytes::be_bytes(self.sequence as nat, 4)
            + bytes::be_bytes(self.domain as nat, 4)
    }

    /// The finished message.
    pub open spec fn message(self, export_time: u32) -> Seq<u8> {
        encoder::overlay(self.header(export_time), self.closed_bytes())
    }

    /// The encoder once the message is finished: the next one counts the data
    /// records sent before it, modulo 2^32.
    pub open spec fn finished(self, export_time: u32) -> IpfixView {
        IpfixView {
            bytes: self.message(export_time),
            sequence: ((self.sequence + self.records) % 0x1_0000_0000) as u32,
            ..self
        }
    }
}

/// Pre-allocated IPFIX message encoder.
pub struct IpfixEncoder {
    buf: [u8; MAX_IPFIX_MSG_SIZE],
    offset: usize,
    record_count: u32,
    data_set_offset: usize,
    data_set_open: bool,
    template_included: bool,
    sequence_number: u32,
    observation_domain_id: u32,
}

impl View for IpfixEncoder {
    type V = IpfixView;

    closed spec fn view(&self) -> IpfixView {
        IpfixView {
            domain: self.observation_domain_id,
            sequence: self.sequence_number,
            template_included: self.template_included,
            records: self.record_count,
            bytes: self.buf@.take(self.offset as int),
            data_set: if self.data_set_open {
                Some(self.data_set_offset as nat)
            } else {
                None
            },
        }
    }
}

impl IpfixEncoder {
    pub closed spec fn wf(&self) -> bool {
        &&& self.offset <= MAX_IPFIX_MSG_SIZE
        &&& self@.wf()
    }

    pub fn new(observation_domain_id: u32) -> (encoder: IpfixEncoder)
        ensures
            encoder.wf(),
            encoder@ == (IpfixView {
                domain: observation_domain_id,
                sequence: 0,
                template_included: false,
                records: 0,
                bytes: Seq::empty(),
                data_set: None,
            }),
    {
        IpfixEncoder::resume(observation_domain_id, 0)
    }

    /// An encoder whose first message carries the given sequence number.
    pub fn resume(observation_domain_id: u32, sequence_number: u32) -> (encoder: IpfixEncoder)
        ensures
            encoder.wf(),
            encoder@ == (IpfixView {
                domain: observation_domain_id,
                sequence: sequence_number,
                template_included: false,
                records: 0,
                bytes: Seq::empty(),
                data_set: None,
            }),
    {
        let encoder = IpfixEncoder {
            buf: [0u8; MAX_IPFIX_MSG_SIZE],
            offset: 0,
            record_count: 0,
            data_set_offset: 0,
            data_set_open: false,
            template_included: false,
            sequence_number,
            observation_domain_id,
        };
        assert(encoder@.bytes == Seq::<u8>::empty());
        encoder
    }

    /// The sequence number the next finished message carries.
    pub fn sequence_number(&self) -> (sequence: u32)
        ensures
            sequence == self@.sequence,
    {
        self.sequence_number
    }

    /// Begin a new IPFIX message. If `include_template` is true, the template
    /// set is written first.
    ///
    /// The data set header is deferred until the first record, so a message
    /// that ends up with no records carries no empty data set -- which lets a
    /// template be sent on its own when there is no traffic to attach it to.
    pub fn begin_message(&mut self, include_template: bool)
        requires
            old(self).wf(),
        ensures
            final(self).wf(),
            old(self)@.begins(include_template, final(self)@),
    {
        self.record_count = 0;
        self.data_set_open = false;
        self.template_included = include_template;

        // Reserve space for IPFIX message header (filled in when it is finished)
        self.offset = IPFIX_HEADER_LEN;
        let ghost start = self@.bytes;

        // Write template set if requested
        if include_template {
            self.write_template_set();
            proof {
                lemma_template_set_appends(start);
            }
        }
        assert(self@.bytes.take(IPFIX_HEADER_LEN as int) == start);
    }

    /// Try to add a record to the current message. Returns false if the message
    /// is full and the record was not added.
    pub fn add_record(&mut self, event: &ConntrackEvent) -> (added: bool)
        requires
            old(self).wf(),
        ensures
            final(self).wf(),
            added == old(self)@.has_room(),
            final(self)@ == (if added {
                old(self)@.with_record(*event)
            } else {
                old(self)@
            }),
    {
        // The data set header has to fit too if this is the first record.
        let needed: usize = if self.data_set_open {
            DATA_RECORD_SIZE
        } else {
            SET_HEADER_LEN + DATA_RECORD_SIZE
        };
        if self.offset + needed > MAX_IPFIX_MSG_SIZE {
            return false;
        }
        if !self.data_set_open {
            // Data set header (set_id = template ID, length = placeholder)
            self.data_set_offset = self.offset;
            self.data_set_open = true;
            self.write_u16(NAT_TEMPLATE_ID);
            self.write_u16(0);
        }
        let ghost opened = self@;
        // natEvent (1 byte)
        self.write_u8(event.nat_event.as_ipfix_value());

        // protocolIdentifier (1 byte)
        self.write_u8(event.protocol);

        // sourceIPv4Address (4 bytes)
        self.write_ipv4(event.src_ip);

        // destinationIPv4Address (4 bytes)
        self.write_ipv4(event.dst_ip);

        // sourceTransportPort (2 bytes)
        self.write_u16(event.src_port);

        // destinationTransportPort (2 bytes)
        self.write_u16(event.dst_port);

        // postNATSourceIPv4Address (4 bytes)
        self.write_ipv4(event.post_nat_src_ip);

        // postNAPTSourceTransportPort (2 bytes)
        self.write_u16(event.post_nat_src_port);

        // postNATDestinationIPv4Address (4 bytes)
        self.write_ipv4(event.post_nat_dst_ip);

        // postNAPTDestinationTransportPort (2 bytes)
        self.write_u16(event.post_nat_dst_port);

        // octetDeltaCount (8 bytes)
        self.write_u64(event.orig_bytes);

        // packetDeltaCount (8 bytes)
        self.write_u64(event.orig_packets);

        // reverseOctetDeltaCount (8 bytes)
        self.write_u64(event.reply_bytes);

        // reversePacketDeltaCount (8 bytes)
        self.write_u64(event.reply_packets);
        assert(self@ == (IpfixView { bytes: append_record(opened.bytes, *event), ..opened }));

        self.record_count = self.record_count + 1;
        true
    }

    /// Returns true if the current message carries the template set.
    pub fn template_included(&self) -> (included: bool)
        ensures
            included == self@.template_included,
    {
        self.template_included
    }

    /// Returns true if the current message is worth sending: it holds records,
    /// the template, or both.
    pub fn has_pending_output(&self) -> (pending: bool)
        ensures
            pending == (self@.records > 0 || self@.template_included),
    {
        self.record_count > 0 || self.template_included
    }

    /// Finish the message as of the given time: fill in the IPFIX header and
    /// the data set length. Returns the ready-to-send bytes and the number of
    /// records.
    pub fn finalize_at(&mut self, export_time: u32) -> (sent: (&[u8], u32))
        requires
            old(self).wf(),
        ensures
            final(self).wf(),
            sent.0@ == old(self)@.message(export_time),
            sent.1 == old(self)@.records,
            final(self)@ == old(self)@.finished(export_time),
    {
        let ghost view = self@;
        // Fill data set length, if this message has a data set at all
        if self.data_set_open {
            let data_set_len: u16 = (self.offset - self.data_set_offset) as u16;
            let mut at: usize = self.data_set_offset + 2;
            proof {
                bytes::lemma_be_bytes_len(data_set_len as nat, 2);
            }
            bytes::put_u16(&mut self.buf, &mut at, data_set_len);
            assert(self@.bytes == view.closed_bytes());
        }
        // Fill IPFIX message header
        let ghost before = self.buf@;
        let mut at: usize = 0;
        proof {
            let version = bytes::be_bytes(IPFIX_VERSION as nat, 2);
            let length = bytes::be_bytes(view.bytes.len(), 2);
            let time = bytes::be_bytes(export_time as nat, 4);
            let sequence = bytes::be_bytes(view.sequence as nat, 4);
            let domain = bytes::be_bytes(view.domain as nat, 4);
            bytes::lemma_be_bytes_len(IPFIX_VERSION as nat, 2);
            bytes::lemma_be_bytes_len(view.bytes.len(), 2);
            bytes::lemma_be_bytes_len(export_time as nat, 4);
            bytes::lemma_be_bytes_len(view.sequence as nat, 4);
            bytes::lemma_be_bytes_len(view.domain as nat, 4);
            bytes::lemma_overwrite_append(before, 0, version, length);
            bytes::lemma_overwrite_append(before, 0, version + length, time);
            bytes::lemma_overwrite_append(before, 0, version + length + time, sequence);
            bytes::lemma_overwrite_append(before, 0, version + length + time + sequence, domain);
        }
        // Version (2 bytes)
        bytes::put_u16(&mut self.buf, &mut at, IPFIX_VERSION);
        // Length (2 bytes)
        bytes::put_u16(&mut self.buf, &mut at, self.offset as u16);
        // Export Time (4 bytes)
        bytes::put_u32(&mut self.buf, &mut at, export_time);
        // Sequence Number (4 bytes)
        bytes::put_u32(&mut self.buf, &mut at, self.sequence_number);
        // Observation Domain ID (4 bytes)
        bytes::put_u32(&mut self.buf, &mut at, self.observation_domain_id);
        proof {
            encoder::lemma_header_overlay(before, self.offset as int, view.header(export_time));
        }

        // Update sequence number (cumulative record count). RFC 7011 expects
        // this counter to wrap at 2^32 rather than to be an error.
        let count: u32 = self.record_count;
        self.sequence_number = self.sequence_number.wrapping_add(count);

        (&self.buf[0..self.offset], count)
    }

    /// Finish the message as of what the clock reads: the seconds since the Unix
    /// epoch, unless the clock is set before it. The header shows them as far as
    /// its field counts.
    pub fn finalize_read(&mut self, seconds: Option<u64>) -> (sent: (&[u8], u32))
        requires
            old(self).wf(),
        ensures
            final(self).wf(),
            sent.0@ == old(self)@.message(clock::shown_seconds(seconds)),
            sent.1 == old(self)@.records,
            final(self)@ == old(self)@.finished(clock::shown_seconds(seconds)),
    {
        let export_time: u32 = clock::seconds_field(seconds);
        self.finalize_at(export_time)
    }

    /// Finish the message now: fill in the IPFIX header and the data set
    /// length. Returns the ready-to-send bytes and the number of records.
    ///
    /// The export time in the header is whatever the clock shows.
    pub fn finalize(&mut self) -> (sent: (&[u8], u32))
        requires
            old(self).wf(),
        ensures
            final(self).wf(),
            sent.1 == old(self)@.records,
            exists|export_time: u32|
                sent.0@ == #[trigger] old(self)@.message(export_time) && final(self)@ == old(
                    self,
                )@.finished(export_time),
    {
        let seconds: Option<u64> = clock::system_seconds();
        self.finalize_read(seconds)
    }

    fn write_template_set(&mut self)
        requires
            old(self).offset == IPFIX_HEADER_LEN,
        ensures
            final(self).offset == IPFIX_HEADER_LEN + 72,
            final(self)@ == (IpfixView {
                bytes: append_template_set(old(self)@.bytes),
                ..old(self)@
            }),
    {
        let set_len: u16 = template::template_set_size() as u16;

        // Set header: set_id=2 (template), length
        self.write_u16(TEMPLATE_SET_ID);
        self.write_u16(set_len);

        // Template record header: template_id, field_count
        self.write_u16(NAT_TEMPLATE_ID);
        self.write_u16(TEMPLATE_FIELD_COUNT);

        // Field specifiers. Enterprise-specific elements set the enterprise bit
        // in the IE ID and append the Private Enterprise Number.
        let fields: Vec<FieldSpec> = template::nat_template_fields();
        let ghost head = self@;
        let mut i: usize = 0;
        while i < fields.len()
            invariant
                i <= fields@.len(),
                fields@.len() == 14,
                self.offset == IPFIX_HEADER_LEN + 8 + template::specifiers_len(
                    fields@.take(i as int),
                ),
                self.offset <= IPFIX_HEADER_LEN + 8 + 8 * i,
                self@ == (IpfixView {
                    bytes: append_specifiers(head.bytes, fields@.take(i as int)),
                    ..head
                }),
            decreases fields@.len() - i,
        {
            assert(fields@.take(i + 1).drop_last() == fields@.take(i as int));
            let field: FieldSpec = fields[i];
            match field.enterprise {
                Some(pen) => {
                    self.write_u16(field.ie_id | ENTERPRISE_BIT);
                    self.write_u16(field.length);
                    self.write_u32(pen);
                },
                None => {
                    self.write_u16(field.ie_id);
                    self.write_u16(field.length);
                },
            }
            i = i + 1;
        }
        assert(fields@.take(i as int) == fields@);
    }

    fn write_u8(&mut self, val: u8)
        requires
            old(self).offset < MAX_IPFIX_MSG_SIZE,
        ensures
            final(self).offset == old(self).offset + 1,
            final(self)@ == (IpfixView { bytes: old(self)@.bytes + seq![val], ..old(self)@ }),
    {
        let ghost before = self@;
        self.buf[self.offset] = val;
        self.offset = self.offset + 1;
        assert(self@.bytes == before.bytes + seq![val]);
    }

    fn write_u16(&mut self, val: u16)
        requires
            old(self).offset + 2 <= MAX_IPFIX_MSG_SIZE,
        ensures
            final(self).offset == old(self).offset + 2,
            final(self)@ == (IpfixView {
                bytes: old(self)@.bytes + bytes::be_bytes(val as nat, 2),
                ..old(self)@
            }),
    {
        proof {
            bytes::lemma_be_bytes_len(val as nat, 2);
        }
        let ghost before = self@;
        bytes::put_u16(&mut self.buf, &mut self.offset, val);
        assert(self@.bytes == before.bytes + bytes::be_bytes(val as nat, 2));
    }

    fn write_u32(&mut self, val: u32)
        requires
            old(self).offset + 4 <= MAX_IPFIX_MSG_SIZE,
        ensures
            final(self).offset == old(self).offset + 4,
            final(self)@ == (IpfixView {
                bytes: old(self)@.bytes + bytes::be_bytes(val as nat, 4),
                ..old(self)@
            }),
    {
        proof {
            bytes::lemma_be_bytes_len(val as nat, 4);
        }
        let ghost before = self@;
        bytes::put_u32(&mut self.buf, &mut self.offset, val);
        assert(self@.bytes == before.bytes + bytes::be_bytes(val as nat, 4));
    }

    fn write_u64(&mut self, val: u64)
        requires
            old(self).offset + 8 <= MAX_IPFIX_MSG_SIZE,
        ensures
            final(self).offset == old(self).offset + 8,
            final(self)@ == (IpfixView {
                bytes: old(self)@.bytes + bytes::be_bytes(val as nat, 8),
                ..old(self)@
            }),
    {
        proof {
            bytes::lemma_be_bytes_len(val as nat, 8);
        }
        let ghost before = self@;
        bytes::put_u64(&mut self.buf, &mut self.offset, val);
        assert(self@.bytes == before.bytes + bytes::be_bytes(val as nat, 8));
    }

    fn write_ipv4(&mut self, addr: Ipv4Addr)
        requires
            old(self).offset + 4 <= MAX_IPFIX_MSG_SIZE,
        ensures
            final(self).offset == old(self).offset + 4,
            final(self)@ == (IpfixView {
                bytes: old(self)@.bytes + addr.spec_octets(),
                ..old(self)@
            }),
    {
        let ghost before = self@;
        record::put_addr(&mut self.buf, &mut self.offset, addr);
        assert(self@.bytes == before.bytes + addr.spec_octets());
    }
}

/// Appending descriptions is putting them behind what is there.
proof fn lemma_specifiers_append(base: Seq<u8>, fields: Seq<FieldSpec>)
    ensures
        append_specifiers(base, fields) == base + append_specifiers(Seq::empty(), fields),
    decreases fields.len(),
{
    if fields.len() > 0 {
        let shorter = append_specifiers(Seq::empty(), fields.drop_last());
        lemma_specifiers_append(base, fields.drop_last());
        assert(append_specifier(base + shorter, fields.last()) == base + append_specifier(
            shorter,
            fields.last(),
        ));
    } else {
        assert(base == base + Seq::<u8>::empty());
    }
}

/// Appending the template set is putting it behind what is there.
proof fn lemma_template_set_appends(base: Seq<u8>)
    ensures
        append_template_set(base) == base + append_template_set(Seq::empty()),
{
    let fields = template::spec_nat_template_fields();
    let head = |from: Seq<u8>|
        from + bytes::be_bytes(TEMPLATE_SET_ID as nat, 2) + bytes::be_bytes(72, 2)
            + bytes::be_bytes(NAT_TEMPLATE_ID as nat, 2) + bytes::be_bytes(
            TEMPLATE_FIELD_COUNT as nat,
            2,
        );
    let empty = Seq::<u8>::empty();
    lemma_specifiers_append(head(base), fields);
    lemma_specifiers_append(head(empty), fields);
    assert(head(base) == base + head(empty));
    assert((base + head(empty)) + append_specifiers(empty, fields) == base + (head(empty)
        + append_specifiers(empty, fields)));
}

proof fn lemma_record_take(fields: Seq<ResolvedField>, event: ConntrackEvent, k: int)
    requires
        0 <= k < fields.len(),
    ensures
        record::record_bytes(fields.take(k + 1), event) == record::record_bytes(
            fields.take(k),
            event,
        ) + record::field_bytes(fields[k], event),
{
    assert(fields.take(k + 1).drop_last() == fields.take(k));
}

/// The fields of the general encoder's default configuration.
pub open spec fn default_fields() -> Seq<ResolvedField> {
    crate::export::template::resolve_shapes(
        Protocol::Ipfix,
        CounterWidth::Eight,
        Profile::Full.spec_shapes(),
    )
}

/// The fixed record is the record of the default configuration.
pub proof fn law_fixed_record_is_the_default_record(base: Seq<u8>, event: ConntrackEvent)
    ensures
        append_record(base, event) == base + record::record_bytes(default_fields(), event),
        append_record(base, event).len() == base.len() + DATA_RECORD_SIZE,
{
    let fields = default_fields();
    let shapes = Profile::Full.spec_shapes();
    crate::export::template::law_configuration_sizes(
        Protocol::Ipfix,
        Profile::Full,
        CounterWidth::Eight,
    );
    assert(record::record_bytes(fields.take(0), event) == Seq::<u8>::empty());
    lemma_record_take(fields, event, 0);
    lemma_record_take(fields, event, 1);
    lemma_record_take(fields, event, 2);
    lemma_record_take(fields, event, 3);
    lemma_record_take(fields, event, 4);
    lemma_record_take(fields, event, 5);
    lemma_record_take(fields, event, 6);
    lemma_record_take(fields, event, 7);
    lemma_record_take(fields, event, 8);
    lemma_record_take(fields, event, 9);
    lemma_record_take(fields, event, 10);
    lemma_record_take(fields, event, 11);
    lemma_record_take(fields, event, 12);
    lemma_record_take(fields, event, 13);
    assert(fields.take(14) == fields);
    record::lemma_record_len(fields, event);
    lemma_append_record(base, event);
    lemma_append_record(Seq::empty(), event);
    assert(Seq::<u8>::empty() + seq![event.nat_event.code()] == seq![event.nat_event.code()]);
    assert(append_record(Seq::empty(), event) == record::record_bytes(fields, event));
}

/// Appending a record is putting it behind what is there.
proof fn lemma_append_record(base: Seq<u8>, event: ConntrackEvent)
    ensures
        append_record(base, event) == base + append_record(Seq::empty(), event),
{
}

/// The fixed template is the template of the default configuration, field for
/// field.
pub proof fn law_fixed_template_is_the_default_template(k: int)
    requires
        0 <= k < default_fields().len(),
    ensures
        default_fields().len() == template::spec_nat_template_fields().len(),
        ({
            let field = default_fields()[k];
            let spec = template::spec_nat_template_fields()[k];
            field.id == spec.ie_id && field.length == spec.length && field.pen == spec.enterprise
        }),
{
    crate::export::template::law_configuration_sizes(
        Protocol::Ipfix,
        Profile::Full,
        CounterWidth::Eight,
    );
}

proof fn lemma_same_specifiers(n: int)
    requires
        0 <= n <= default_fields().len(),
    ensures
        append_specifiers(Seq::empty(), template::spec_nat_template_fields().take(n))
            == encoder::specifiers_bytes(default_fields().take(n)),
    decreases n,
{
    if n > 0 {
        let fields = default_fields();
        let specs = template::spec_nat_template_fields();
        lemma_same_specifiers(n - 1);
        law_fixed_template_is_the_default_template(n - 1);
        assert(fields.take(n).drop_last() == fields.take(n - 1));
        assert(specs.take(n).drop_last() == specs.take(n - 1));
        let before = append_specifiers(Seq::empty(), specs.take(n - 1));
        assert(append_specifier(before, specs[n - 1]) == before + encoder::specifier_bytes(
            fields[n - 1],
        ));
    }
}

proof fn lemma_same_template_set(template: Template)
    requires
        template.resolved(Protocol::Ipfix, Profile::Full, CounterWidth::Eight, NAT_TEMPLATE_ID),
    ensures
        append_template_set(Seq::empty()) == encoder::template_set_bytes(template),
{
    let fields = default_fields();
    let specs = template::spec_nat_template_fields();
    crate::export::template::law_configuration_sizes(
        Protocol::Ipfix,
        Profile::Full,
        CounterWidth::Eight,
    );
    template::law_nat_template_sizes();
    lemma_same_specifiers(14);
    assert(fields.take(14) == fields && specs.take(14) == specs);
    crate::export::template::lemma_aligned(72, 1);
    assert(template.set_len() == 72);
    encoder::lemma_specifiers_bytes_len(fields);
    let set_id = bytes::be_bytes(TEMPLATE_SET_ID as nat, 2);
    let id = bytes::be_bytes(NAT_TEMPLATE_ID as nat, 2);
    let head = set_id + bytes::be_bytes(72, 2) + id + bytes::be_bytes(14, 2);
    bytes::lemma_be_bytes_len(TEMPLATE_SET_ID as nat, 2);
    bytes::lemma_be_bytes_len(72, 2);
    bytes::lemma_be_bytes_len(NAT_TEMPLATE_ID as nat, 2);
    bytes::lemma_be_bytes_len(14, 2);
    assert(Seq::<u8>::empty() + set_id == set_id);
    lemma_specifiers_append(head, specs);
    let set = head + encoder::specifiers_bytes(fields);
    assert(append_template_set(Seq::empty()) == set);
    assert(set + bytes::zeros(0) == set);
}

impl IpfixView {
    /// The two encoders are building the same message: they differ at most in
    /// the space left for the header.
    pub open spec fn agrees(self, other: EncoderView) -> bool {
        &&& other.template.resolved(
            Protocol::Ipfix,
            Profile::Full,
            CounterWidth::Eight,
            NAT_TEMPLATE_ID,
        )
        &&& self.domain == other.domain
        &&& self.sequence == other.sequence
        &&& self.template_included == other.template_included
        &&& self.records == other.records
        &&& self.data_set == other.data_set
        &&& self.data_set matches Some(at) ==> IPFIX_HEADER_LEN <= at
        &&& self.bytes.len() == other.bytes.len()
        &&& self.bytes.len() >= IPFIX_HEADER_LEN
        &&& self.bytes.skip(IPFIX_HEADER_LEN as int) == other.bytes.skip(IPFIX_HEADER_LEN as int)
    }
}

/// Messages that both encoders begin alike are alike.
pub proof fn law_fixed_encoder_begins_like_the_default(
    fixed: IpfixView,
    fixed_begun: IpfixView,
    general: EncoderView,
    general_begun: EncoderView,
    include_template: bool,
)
    requires
        general.wf(),
        general.template.resolved(
            Protocol::Ipfix,
            Profile::Full,
            CounterWidth::Eight,
            NAT_TEMPLATE_ID,
        ),
        fixed.domain == general.domain,
        fixed.sequence == general.sequence,
        fixed.begins(include_template, fixed_begun),
        general.begins(include_template, general_begun),
    ensures
        fixed_begun.agrees(general_begun),
{
    let start = fixed_begun.bytes.take(IPFIX_HEADER_LEN as int);
    lemma_same_template_set(general.template);
    lemma_template_set_appends(start);
    let set = encoder::template_set_bytes(general.template);
    assert((start + set).skip(IPFIX_HEADER_LEN as int) == set);
    assert(start.skip(IPFIX_HEADER_LEN as int) == Seq::<u8>::empty());
    assert(general_begun.bytes.skip(IPFIX_HEADER_LEN as int).len() == general_begun.bytes.len()
        - IPFIX_HEADER_LEN);
}

/// The fixed encoder and the general one in its default configuration accept
/// the same records, write the same messages and count them alike.
pub proof fn law_fixed_encoder_is_the_default_encoder(
    fixed: IpfixView,
    general: EncoderView,
    event: ConntrackEvent,
    unix_secs: u32,
    uptime_ms: u32,
)
    requires
        general.wf(),
        fixed.agrees(general),
    ensures
        fixed.has_room() == general.has_room(),
        fixed.has_room() ==> fixed.with_record(event).agrees(general.with_record(event)),
        fixed.message(unix_secs) == general.message(unix_secs, uptime_ms),
        fixed.finished(unix_secs).sequence == general.finished(unix_secs, uptime_ms).sequence,
{
    let n = IPFIX_HEADER_LEN as int;
    crate::export::template::law_configuration_sizes(
        Protocol::Ipfix,
        Profile::Full,
        CounterWidth::Eight,
    );
    let record = record::record_bytes(default_fields(), event);
    let head = bytes::be_bytes(NAT_TEMPLATE_ID as nat, 2) + bytes::be_bytes(0, 2);
    bytes::lemma_be_bytes_len(NAT_TEMPLATE_ID as nat, 2);
    bytes::lemma_be_bytes_len(0, 2);
    let fixed_open = if fixed.data_set is Some {
        fixed.bytes
    } else {
        fixed.bytes + bytes::be_bytes(NAT_TEMPLATE_ID as nat, 2) + bytes::be_bytes(0, 2)
    };
    let general_open = if general.data_set is Some {
        general.bytes
    } else {
        general.bytes + bytes::be_bytes(NAT_TEMPLATE_ID as nat, 2) + bytes::be_bytes(0, 2)
    };
    law_fixed_record_is_the_default_record(fixed_open, event);
    if fixed.data_set is None {
        assert(fixed_open == fixed.bytes + head && general_open == general.bytes + head);
        assert((fixed.bytes + head).skip(n) == fixed.bytes.skip(n) + head);
        assert((general.bytes + head).skip(n) == general.bytes.skip(n) + head);
    }
    assert((fixed_open + record).skip(n) == fixed_open.skip(n) + record);
    assert((general_open + record).skip(n) == general_open.skip(n) + record);

    lemma_same_closed(fixed, general);
    let closed = general.closed_bytes();
    general.lemma_header_len(closed.len(), unix_secs, uptime_ms);
    assert(fixed.header(unix_secs) == general.header(closed.len(), unix_secs, uptime_ms));
    assert(fixed.message(unix_secs) == general.message(unix_secs, uptime_ms));
}

proof fn lemma_same_closed(fixed: IpfixView, general: EncoderView)
    requires
        general.wf(),
        fixed.agrees(general),
    ensures
        general.closed_bytes().len() == general.bytes.len(),
        fixed.closed_bytes().len() == general.bytes.len(),
        fixed.closed_bytes().skip(IPFIX_HEADER_LEN as int) == general.closed_bytes().skip(
            IPFIX_HEADER_LEN as int,
        ),
{
    let n = IPFIX_HEADER_LEN as int;
    crate::export::template::lemma_aligned(general.bytes.len(), 1);
    assert(general.bytes + bytes::zeros(0) == general.bytes);
    if let Some(at) = fixed.data_set {
        let patch = bytes::be_bytes((fixed.bytes.len() - at) as nat, 2);
        bytes::lemma_be_bytes_len((fixed.bytes.len() - at) as nat, 2);
        assert forall|i: int| n <= i < fixed.bytes.len() implies fixed.bytes[i]
            == general.bytes[i] by {
            assert(fixed.bytes.skip(n)[i - n] == general.bytes.skip(n)[i - n]);
        }
        assert(bytes::overwrite(fixed.bytes, at as int + 2, patch).skip(n) == bytes::overwrite(
            general.bytes,
            at as int + 2,
            patch,
        ).skip(n));
    }
}

/// Finishing a message moves the sequence number on by the records in it, and leaves
/// the encoder what it was otherwise. So does adding a record, but for the count.
pub proof fn law_fixed_encoder_keeps_its_configuration(
    fixed: IpfixView,
    event: ConntrackEvent,
    export_time: u32,
)
    requires
        fixed.records < u32::MAX,
    ensures
        ({
            let after = fixed.finished(export_time);
            let counted = fixed.sequence + fixed.records;
            &&& after.bytes == fixed.message(export_time)
            &&& counted < 0x1_0000_0000 ==> after.sequence == counted
            &&& counted >= 0x1_0000_0000 ==> after.sequence == counted - 0x1_0000_0000
            &&& after.domain == fixed.domain
            &&& after.records == fixed.records
            &&& after.template_included == fixed.template_included
        }),
        ({
            let added = fixed.with_record(event);
            &&& added.records == fixed.records + 1
            &&& added.domain == fixed.domain
            &&& added.sequence == fixed.sequence
            &&& added.template_included == fixed.template_included
        }),
{
}

} // verus!
