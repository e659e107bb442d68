//! The message encoder for both export protocols.

use super::elements::{ENTERPRISE_BIT, MAX_MSG_SIZE, SET_HEADER_LEN};
use super::record;
use super::template;
use super::template::{Protocol, ResolvedField, Template};
use crate::bytes;
use crate::clock;
use crate::event::ConntrackEvent;
use vstd::prelude::*;

verus! {

/// How a template describes one field. Under IPFIX, enterprise-specific
/// elements set the enterprise bit and append the Private Enterprise Number;
/// NetFlow v9 has no such mechanism.
pub open spec fn specifier_bytes(field: ResolvedField) -> Seq<u8> {
    match field.pen {
        Some(pen) => bytes::be_bytes((field.id | ENTERPRISE_BIT) as nat, 2) + bytes::be_bytes(
            field.length as nat,
            2,
        ) + bytes::be_bytes(pen as nat, 4),
        None => bytes::be_bytes(field.id as nat, 2) + bytes::be_bytes(field.length as nat, 2),
    }
}

/// The specifiers of a template, one after another.
pub open spec fn specifiers_bytes(fields: Seq<ResolvedField>) -> Seq<u8>
    decreases fields.len(),
{
    if fields.len() == 0 {
        Seq::empty()
    } else {
        specifiers_bytes(fields.drop_last()) + specifier_bytes(fields.last())
    }
}

/// The template set: set header, template record header, field specifiers, and
/// zeros up to the size the set header announces.
pub open spec fn template_set_bytes(template: Template) -> Seq<u8> {
    let unpadded = bytes::be_bytes(template.protocol.template_set_id() as nat, 2)
        + bytes::be_bytes(template.set_len(), 2) + bytes::be_bytes(template.template_id as nat, 2)
        + bytes::be_bytes(template.fields@.len(), 2) + specifiers_bytes(template.fields@);
    unpadded + bytes::zeros((template.set_len() - unpadded.len()) as nat)
}

/// A message header. IPFIX carries the message length and counts records;
/// NetFlow v9 carries the number of records in the packet, the template among
/// them, and counts packets.
pub open spec fn header_bytes(
    protocol: Protocol,
    len: nat,
    record_total: nat,
    sequence: u32,
    domain: u32,
    unix_secs: u32,
    uptime_ms: u32,
) -> Seq<u8> {
    let version = bytes::be_bytes(protocol.version() as nat, 2);
    match protocol {
        Protocol::Ipfix => version + bytes::be_bytes(len, 2) + bytes::be_bytes(
            unix_secs as nat,
            4,
        ) + bytes::be_bytes(sequence as nat, 4) + bytes::be_bytes(domain as nat, 4),
        Protocol::Netflow9 => version + bytes::be_bytes(record_total, 2) + bytes::be_bytes(
            uptime_ms as nat,
            4,
        ) + bytes::be_bytes(unix_secs as nat, 4) + bytes::be_bytes(sequence as nat, 4)
            + bytes::be_bytes(domain as nat, 4),
    }
}

/// `under` with its first bytes replaced by those of `over`.
pub open spec fn overlay(over: Seq<u8>, under: Seq<u8>) -> Seq<u8> {
    if over.len() <= under.len() {
        over + under.skip(over.len() as int)
    } else {
        over.take(under.len() as int)
    }
}

/// What an encoder holds: its configuration, and the message it is building.
pub struct EncoderView {
    pub template: Template,
    pub domain: u32,
    /// The sequence number the next finished message carries.
    pub sequence: u32,
    /// Counter values clamped so far, as far as 64 bits count.
    pub saturated: u64,
    /// Whether the message carries the template set.
    pub template_included: bool,
    /// Records added to the message.
    pub records: u32,
    /// The message so far. Its header is filled in when it is finished.
    pub bytes: Seq<u8>,
    /// Where the data set starts, once there is one.
    pub data_set: Option<nat>,
    /// Reference point for NetFlow v9's sysUpTime.
    pub started: std::time::Instant,
}

impl EncoderView {
    pub open spec fn wf(self) -> bool {
        &&& self.template.wf()
        &&& self.bytes.len() <= MAX_MSG_SIZE
        &&& self.records <= self.bytes.len()
        &&& self.data_set matches Some(at) ==> at + SET_HEADER_LEN <= self.bytes.len()
    }

    /// `after` is `self` with a new message begun: room for a header, and
    /// behind it the template set if it was asked for.
    pub open spec fn begins(self, include_template: bool, after: EncoderView) -> bool {
        let header_len = self.template.protocol.header_len() as int;
        &&& after == (EncoderView {
            template_included: include_template,
            records: 0,
            data_set: None,
            bytes: after.bytes,
            ..self
        })
        &&& after.bytes.len() >= header_len
        &&& after.bytes.skip(header_len) == (if include_template {
            template_set_bytes(self.template)
        } else {
            Seq::empty()
        })
    }

    /// The message has room for one more record, for the data set header if
    /// that is still missing, and for any padding behind it.
    pub open spec fn has_room(self) -> bool {
        let set_header = if self.data_set is Some {
            0
        } else {
            SET_HEADER_LEN as int
        };
        self.bytes.len() + set_header + self.template.record_size + (
        self.template.protocol.set_alignment() - 1) <= MAX_MSG_SIZE
    }

    /// The message with a record for `event` added. The first record opens the
    /// data set.
    pub open spec fn with_record(self, event: ConntrackEvent) -> EncoderView {
        let opened = if self.data_set is Some {
            self.bytes
        } else {
            self.bytes + bytes::be_bytes(self.template.template_id as nat, 2) + bytes::be_bytes(
                0,
                2,
            )
        };
        EncoderView {
            bytes: opened + record::record_bytes(self.template.fields@, event),
            data_set: if self.data_set is Some {
                self.data_set
            } else {
                Some(self.bytes.len())
            },
            records: (self.records + 1) as u32,
            saturated: ((self.saturated + record::clamp_count(self.template.fields@, event))
                % 0x1_0000_0000_0000_0000) as u64,
            ..self
        }
    }

    /// The message with its data set closed: padded if the protocol asks for
    /// aligned sets, and with its length, padding included, in its header.
    pub open spec fn closed_bytes(self) -> Seq<u8> {
        match self.data_set {
            None => self.bytes,
            Some(at) => {
                let end = template::aligned(
                    self.bytes.len(),
                    self.template.protocol.set_alignment() as nat,
                );
                let padded = self.bytes + bytes::zeros((end - self.bytes.len()) as nat);
                bytes::overwrite(padded, at as int + 2, bytes::be_bytes((end - at) as nat, 2))
            },
        }
    }

    /// The header of the message, once it is known to be `len` bytes long.
    pub open spec fn header(self, len: nat, unix_secs: u32, uptime_ms: u32) -> Seq<u8> {
        header_bytes(
            self.template.protocol,
            len,
            self.record_total(),
            self.sequence,
            self.domain,
            unix_secs,
            uptime_ms,
        )
    }

    /// Template and data records in the message.
    pub open spec fn record_total(self) -> nat {
        self.records as nat + (if self.template_included {
            1nat
        } else {
            0nat
        })
    }

    /// The finished message.
    pub open spec fn message(self, unix_secs: u32, uptime_ms: u32) -> Seq<u8> {
        let closed = self.closed_bytes();
        overlay(self.header(closed.len(), unix_secs, uptime_ms), closed)
    }

    /// The sequence number the message after this one carries.
    pub open spec fn next_sequence(self) -> u32 {
        let step: int = match self.template.protocol {
            Protocol::Ipfix => self.records as int,
            Protocol::Netflow9 => 1,
        };
        ((self.sequence + step) % 0x1_0000_0000) as u32
    }

    /// The encoder once the message is finished.
    pub open spec fn finished(self, unix_secs: u32, uptime_ms: u32) -> EncoderView {
        EncoderView {
            bytes: self.message(unix_secs, uptime_ms),
            sequence: self.next_sequence(),
            ..self
        }
    }
}

/// Pre-allocated message encoder for both export protocols.
///
/// The data record body is identical under IPFIX and NetFlow v9 -- same fields,
/// same order, same widths -- so only the message header and the way a template
/// is described differ.
pub struct Encoder {
    buf: [u8; MAX_MSG_SIZE],
    offset: usize,
    record_count: u32,
    data_set_offset: usize,
    data_set_open: bool,
    template_included: bool,
    sequence_number: u32,
    observation_domain_id: u32,
    template: Template,
    saturated_counters: u64,
    /// Reference point for NetFlow v9's sysUpTime.
    started: std::time::Instant,
}

impl View for Encoder {
    type V = EncoderView;

    closed spec fn view(&self) -> EncoderView {
        EncoderView {
            template: self.template,
            domain: self.observation_domain_id,
            sequence: self.sequence_number,
            saturated: self.saturated_counters,
            template_included: self.template_included,
            records: self.record_count,
            bytes: self.buf@.take(self.offset as int),
            data_set: if self.data_set_open {
                Some(self.data_set_offset as nat)
            } else {
                None
            },
            started: self.started,
        }
    }
}

impl Encoder {
    pub closed spec fn wf(&self) -> bool {
        &&& self.offset <= MAX_MSG_SIZE
        &&& self@.wf()
    }

    /// A well-formed encoder shows well-formed contents.
    pub proof fn lemma_wf(&self)
        requires
            self.wf(),
        ensures
            self@.wf(),
    {
    }

    pub fn new(observation_domain_id: u32, template: Template) -> (encoder: Encoder)
        requires
            template.wf(),
        ensures
            encoder.wf(),
            encoder@ == (EncoderView {
                template,
                domain: observation_domain_id,
                sequence: 0,
                saturated: 0,
                template_included: false,
                records: 0,
                bytes: Seq::empty(),
                data_set: None,
                started: encoder@.started,
            }),
    {
        Encoder::resume(observation_domain_id, template, 0)
    }

    /// An encoder whose first message carries the given sequence number.
    pub fn resume(
        observation_domain_id: u32,
        template: Template,
        sequence_number: u32,
    ) -> (encoder: Encoder)
        requires
            template.wf(),
        ensures
            encoder.wf(),
            encoder@ == (EncoderView {
                template,
                domain: observation_domain_id,
                sequence: sequence_number,
                saturated: 0,
                template_included: false,
                records: 0,
                bytes: Seq::empty(),
                data_set: None,
                started: encoder@.started,
            }),
    {
        let encoder = Encoder {
            buf: [0u8; MAX_MSG_SIZE],
            offset: 0,
            record_count: 0,
            data_set_offset: 0,
            data_set_open: false,
            template_included: false,
            sequence_number,
            observation_domain_id,
            template,
            saturated_counters: 0,
            started: clock::now(),
        };
        assert(encoder@.bytes == Seq::<u8>::empty());
        encoder
    }

    fn protocol(&self) -> (protocol: Protocol)
        ensures
            protocol == self@.template.protocol,
    {
        self.template.protocol
    }

    /// The template the encoder works from.
    pub fn template(&self) -> (template: &Template)
        ensures
            *template == self@.template,
    {
        &self.template
    }

    /// The sequence number the next finished message carries.
    pub fn sequence_number(&self) -> (sequence: u32)
        ensures
            sequence == self@.sequence,
    {
        self.sequence_number
    }

    /// How many counter values have been clamped because the configured counter
    /// width could not hold them.
    pub fn saturated_counters(&self) -> (count: u64)
        ensures
            count == self@.saturated,
    {
        self.saturated_counters
    }

    /// Returns true if the current message carries the template set.
    pub fn template_included(&self) -> (included: bool)
        ensures
            included == self@.template_included,
    {
        self.template_included
    }

    /// Returns true if the current message is worth sending: it holds records,
    /// the template, or both.
    pub fn has_pending_output(&self) -> (pending: bool)
        ensures
            pending == (self@.records > 0 || self@.template_included),
    {
        self.record_count > 0 || self.template_included
    }

    /// Zero-fill up to the protocol's set alignment.
    fn pad_set(&mut self)
        requires
            old(self).offset <= MAX_MSG_SIZE,
        ensures
            final(self).offset <= MAX_MSG_SIZE,
            final(self)@ == (EncoderView {
                bytes: old(self)@.bytes + bytes::zeros(
                    (template::aligned(
                        old(self)@.bytes.len(),
                        old(self)@.template.protocol.set_alignment() as nat,
                    ) - old(self)@.bytes.len()) as nat,
                ),
                ..old(self)@
            }),
    {
        let padded: usize = template::align_up(self.offset, self.protocol().set_alignment());
        let ghost before = self@;
        while self.offset < padded
            invariant
                before.bytes.len() <= self.offset <= padded <= MAX_MSG_SIZE,
                self@ == (EncoderView {
                    bytes: before.bytes + bytes::zeros((self.offset - before.bytes.len()) as nat),
                    ..before
                }),
            decreases padded - self.offset,
        {
            let ghost now = self@;
            self.buf[self.offset] = 0;
            self.offset = self.offset + 1;
            assert(self@.bytes == now.bytes.push(0u8));
            assert(self@.bytes == before.bytes + bytes::zeros(
                (self.offset - before.bytes.len()) as nat,
            ));
        }
    }
}

/// Writes the description of one field.
fn put_specifier(buf: &mut [u8], offset: &mut usize, field: &ResolvedField)
    requires
        *old(offset) + field.specifier_len() <= old(buf)@.len(),
    ensures
        *final(offset) == *old(offset) + field.specifier_len(),
        final(buf)@ == bytes::overwrite(
            old(buf)@,
            *old(offset) as int,
            specifier_bytes(*field),
        ),
{
    let ghost start = *offset as int;
    let ghost before = buf@;
    proof {
        let length = bytes::be_bytes(field.length as nat, 2);
        bytes::lemma_be_bytes_len(field.id as nat, 2);
        bytes::lemma_be_bytes_len((field.id | ENTERPRISE_BIT) as nat, 2);
        bytes::lemma_be_bytes_len(field.length as nat, 2);
        if let Some(pen) = field.pen {
            let id = bytes::be_bytes((field.id | ENTERPRISE_BIT) as nat, 2);
            bytes::lemma_be_bytes_len(pen as nat, 4);
            bytes::lemma_overwrite_append(before, start, id, length);
            bytes::lemma_overwrite_append(
                before,
                start,
                id + length,
                bytes::be_bytes(pen as nat, 4),
            );
        } else {
            bytes::lemma_overwrite_append(
                before,
                start,
                bytes::be_bytes(field.id as nat, 2),
                length,
            );
        }
    }
    match field.pen {
        Some(pen) => {
            bytes::put_u16(buf, offset, field.id | ENTERPRISE_BIT);
            bytes::put_u16(buf, offset, field.length);
            bytes::put_u32(buf, offset, pen);
        },
        None => {
            bytes::put_u16(buf, offset, field.id);
            bytes::put_u16(buf, offset, field.length);
        },
    }
}

pub proof fn lemma_specifiers_bytes_len(fields: Seq<ResolvedField>)
    ensures
        specifiers_bytes(fields).len() == template::specifiers_len(fields),
    decreases fields.len(),
{
    if fields.len() > 0 {
        let last = fields.last();
        lemma_specifiers_bytes_len(fields.drop_last());
        bytes::lemma_be_bytes_len(last.id as nat, 2);
        bytes::lemma_be_bytes_len((last.id | ENTERPRISE_BIT) as nat, 2);
        bytes::lemma_be_bytes_len(last.length as nat, 2);
        if let Some(pen) = last.pen {
            bytes::lemma_be_bytes_len(pen as nat, 4);
        }
    }
}

/// Every field takes at least four bytes to describe.
pub proof fn lemma_field_count(fields: Seq<ResolvedField>)
    ensures
        4 * fields.len() <= template::specifiers_len(fields),
    decreases fields.len(),
{
    if fields.len() > 0 {
        lemma_field_count(fields.drop_last());
    }
}

/// The template set is exactly as long as its header says.
pub proof fn lemma_template_set_len(template: Template)
    requires
        template.wf(),
    ensures
        template_set_bytes(template).len() == template.set_len(),
        8 + template::specifiers_len(template.fields@) <= template.set_len(),
{
    lemma_specifiers_bytes_len(template.fields@);
    bytes::lemma_be_bytes_len(template.protocol.template_set_id() as nat, 2);
    bytes::lemma_be_bytes_len(template.set_len(), 2);
    bytes::lemma_be_bytes_len(template.template_id as nat, 2);
    bytes::lemma_be_bytes_len(template.fields@.len(), 2);
    template::lemma_aligned(
        8 + template::specifiers_len(template.fields@),
        template.protocol.set_alignment() as nat,
    );
}

impl Encoder {
    fn write_template_set(&mut self)
        requires
            old(self).template.wf(),
            old(self).offset == old(self).template.protocol.header_len(),
        ensures
            final(self).offset <= MAX_MSG_SIZE,
            final(self)@ == (EncoderView {
                bytes: old(self)@.bytes + template_set_bytes(old(self)@.template),
                ..old(self)@
            }),
    {
        let ghost start = self.offset as int;
        let ghost before = self.buf@;
        let ghost template = self.template;
        let ghost fields = self.template.fields@;
        let ghost set_id = bytes::be_bytes(template.protocol.template_set_id() as nat, 2);
        let ghost length = bytes::be_bytes(template.set_len(), 2);
        let ghost id = bytes::be_bytes(template.template_id as nat, 2);
        let ghost count = bytes::be_bytes(fields.len(), 2);
        let ghost head = set_id + length + id + count;
        proof {
            lemma_template_set_len(template);
            lemma_field_count(fields);
            bytes::lemma_be_bytes_len(template.protocol.template_set_id() as nat, 2);
            bytes::lemma_be_bytes_len(template.set_len(), 2);
            bytes::lemma_be_bytes_len(template.template_id as nat, 2);
            bytes::lemma_be_bytes_len(fields.len(), 2);
            bytes::lemma_overwrite_append(before, start, set_id, length);
            bytes::lemma_overwrite_append(before, start, set_id + length, id);
            bytes::lemma_overwrite_append(before, start, set_id + length + id, count);
        }
        let protocol: Protocol = self.template.protocol;

        // Set header: template set / FlowSet ID, then length
        let set_size: usize = self.template.set_size();
        bytes::put_u16(&mut self.buf, &mut self.offset, protocol.template_set_id());
        bytes::put_u16(&mut self.buf, &mut self.offset, set_size as u16);

        // Template record header: template_id, field_count
        let template_id: u16 = self.template.template_id;
        let field_count: u16 = self.template.field_count();
        bytes::put_u16(&mut self.buf, &mut self.offset, template_id);
        bytes::put_u16(&mut self.buf, &mut self.offset, field_count);

        let mut i: usize = 0;
        assert(head + specifiers_bytes(fields.take(0)) == head);
        while i < self.template.fields.len()
            invariant
                i <= fields.len(),
                fields == self.template.fields@,
                self.template == template,
                template.wf(),
                0 <= start,
                head.len() == 8,
                start + 8 + template::specifiers_len(fields) <= before.len(),
                before.len() == MAX_MSG_SIZE,
                self.offset == start + 8 + template::specifiers_len(fields.take(i as int)),
                self.buf@ == bytes::overwrite(
                    before,
                    start,
                    head + specifiers_bytes(fields.take(i as int)),
                ),
                self.record_count == old(self).record_count,
                self.data_set_offset == old(self).data_set_offset,
                self.data_set_open == old(self).data_set_open,
                self.template_included == old(self).template_included,
                self.sequence_number == old(self).sequence_number,
                self.observation_domain_id == old(self).observation_domain_id,
                self.saturated_counters == old(self).saturated_counters,
                self.started == old(self).started,
            decreases fields.len() - i,
        {
            proof {
                let done = specifiers_bytes(fields.take(i as int));
                let next = specifier_bytes(fields[i as int]);
                assert(fields.take(i + 1).drop_last() == fields.take(i as int));
                template::lemma_specifiers_len_take(fields, i as int);
                lemma_specifiers_bytes_len(fields.take(i as int));
                lemma_specifiers_bytes_len(fields.take(i + 1));
                bytes::lemma_overwrite_append(before, start, head + done, next);
                assert((head + done) + next == head + (done + next));
            }
            let field: ResolvedField = self.template.fields[i];
            put_specifier(&mut self.buf, &mut self.offset, &field);
            i = i + 1;
        }
        proof {
            assert(fields.take(i as int) == fields);
            lemma_specifiers_bytes_len(fields);
        }
        let ghost unpadded = head + specifiers_bytes(fields);
        proof {
            template::lemma_aligned_from(
                start as nat,
                unpadded.len(),
                template.protocol.set_alignment() as nat,
            );
        }
        assert(self@.bytes == before.take(start) + unpadded);
        self.pad_set();
        assert(self@.bytes == before.take(start) + (unpadded + bytes::zeros(
            (template.set_len() - unpadded.len()) as nat,
        )));
    }

    /// Begin a new message. If `include_template` is true, the template set is
    /// written first.
    ///
    /// The data set header is deferred until the first record, so a message
    /// that ends up with no records carries no empty data set -- which lets a
    /// template be sent on its own when there is no traffic to attach it to.
    pub fn begin_message(&mut self, include_template: bool)
        requires
            old(self).wf(),
        ensures
            final(self).wf(),
            old(self)@.begins(include_template, final(self)@),
    {
        proof {
            lemma_template_set_len(self.template);
        }
        self.record_count = 0;
        self.data_set_open = false;
        self.template_included = include_template;

        // Reserve space for the message header (filled in when it is finished)
        self.offset = self.protocol().header_len();
        let ghost header_len = self.offset as int;
        if include_template {
            self.write_template_set();
        }
        assert(self@.bytes.skip(header_len) == (if include_template {
            template_set_bytes(self.template)
        } else {
            Seq::empty()
        }));
    }

    /// Try to add a record to the current message. Returns false if the message
    /// is full and the record was not added.
    pub fn add_record(&mut self, event: &ConntrackEvent) -> (added: bool)
        requires
            old(self).wf(),
        ensures
            final(self).wf(),
            added == old(self)@.has_room(),
            final(self)@ == (if added {
                old(self)@.with_record(*event)
            } else {
                old(self)@
            }),
    {
        proof {
            self.template.lemma_record_fits();
        }
        // The data set header has to fit too if this is the first record, as
        // does any padding that will close the set.
        let padding_reserve: usize = self.protocol().set_alignment() - 1;
        let needed: usize = if self.data_set_open {
            self.template.record_size
        } else {
            SET_HEADER_LEN + self.template.record_size
        };
        if self.offset + needed + padding_reserve > MAX_MSG_SIZE {
            return false;
        }
        let ghost before = self@;
        let ghost fields = self.template.fields@;
        proof {
            bytes::lemma_be_bytes_len(self.template.template_id as nat, 2);
            bytes::lemma_be_bytes_len(0, 2);
            record::lemma_record_len(fields, *event);
        }
        if !self.data_set_open {
            // Data set header (set_id = template ID, length = placeholder)
            self.data_set_offset = self.offset;
            let template_id: u16 = self.template.template_id;
            bytes::put_u16(&mut self.buf, &mut self.offset, template_id);
            bytes::put_u16(&mut self.buf, &mut self.offset, 0);
            self.data_set_open = true;
            assert(self@.bytes == before.bytes + bytes::be_bytes(
                self.template.template_id as nat,
                2,
            ) + bytes::be_bytes(0, 2));
        }
        let ghost opened = self@;
        let saturated: u64 = record::write_record(
            &mut self.buf,
            &mut self.offset,
            self.template.fields.as_slice(),
            event,
        );
        assert(self@.bytes == opened.bytes + record::record_bytes(fields, *event));
        self.saturated_counters = self.saturated_counters.wrapping_add(saturated);
        self.record_count = self.record_count + 1;
        true
    }
}

impl EncoderView {
    pub proof fn lemma_header_len(self, len: nat, unix_secs: u32, uptime_ms: u32)
        ensures
            self.header(len, unix_secs, uptime_ms).len() == self.template.protocol.header_len(),
    {
        bytes::lemma_be_bytes_len(self.template.protocol.version() as nat, 2);
        bytes::lemma_be_bytes_len(len, 2);
        bytes::lemma_be_bytes_len(self.record_total(), 2);
        bytes::lemma_be_bytes_len(unix_secs as nat, 4);
        bytes::lemma_be_bytes_len(uptime_ms as nat, 4);
        bytes::lemma_be_bytes_len(self.sequence as nat, 4);
        bytes::lemma_be_bytes_len(self.domain as nat, 4);
    }
}

/// A header laid over the buffer shows up at the front of the message.
pub proof fn lemma_header_overlay(buf: Seq<u8>, offset: int, header: Seq<u8>)
    requires
        0 <= offset <= buf.len(),
        header.len() <= buf.len(),
    ensures
        bytes::overwrite(buf, 0, header).take(offset) == overlay(header, buf.take(offset)),
{
}

impl Encoder {
    /// Close the data set: pad it out if the protocol asks for aligned sets,
    /// then patch its length, which includes that padding.
    fn close_data_set(&mut self)
        requires
            old(self).wf(),
        ensures
            final(self).wf(),
            final(self)@ == (EncoderView { bytes: old(self)@.closed_bytes(), ..old(self)@ }),
    {
        if self.data_set_open {
            let ghost before = self@;
            self.pad_set();
            let ghost padded = self@.bytes;
            proof {
                template::lemma_aligned(
                    before.bytes.len(),
                    before.template.protocol.set_alignment() as nat,
                );
            }
            let data_set_len: u16 = (self.offset - self.data_set_offset) as u16;
            let mut at: usize = self.data_set_offset + 2;
            proof {
                bytes::lemma_be_bytes_len(data_set_len as nat, 2);
            }
            bytes::put_u16(&mut self.buf, &mut at, data_set_len);
            assert(self@.bytes == bytes::overwrite(
                padded,
                before.data_set->0 as int + 2,
                bytes::be_bytes(data_set_len as nat, 2),
            ));
        }
    }

    /// Fill in the space that was left for the message header.
    fn write_header(&mut self, unix_secs: u32, uptime_ms: u32)
        requires
            old(self).wf(),
        ensures
            final(self).wf(),
            final(self)@ == (EncoderView {
                bytes: overlay(
                    old(self)@.header(old(self)@.bytes.len(), unix_secs, uptime_ms),
                    old(self)@.bytes,
                ),
                ..old(self)@
            }),
    {
        let ghost before = self.buf@;
        let ghost view = self@;
        let ghost header = view.header(view.bytes.len(), unix_secs, uptime_ms);
        let ghost version = bytes::be_bytes(view.template.protocol.version() as nat, 2);
        let mut at: usize = 0;
        proof {
            bytes::lemma_be_bytes_len(view.template.protocol.version() as nat, 2);
            bytes::lemma_be_bytes_len(view.bytes.len(), 2);
            bytes::lemma_be_bytes_len(view.record_total(), 2);
            bytes::lemma_be_bytes_len(unix_secs as nat, 4);
            bytes::lemma_be_bytes_len(uptime_ms as nat, 4);
            bytes::lemma_be_bytes_len(view.sequence as nat, 4);
            bytes::lemma_be_bytes_len(view.domain as nat, 4);
        }
        let version_number: u16 = self.protocol().version();
        bytes::put_u16(&mut self.buf, &mut at, version_number);
        match self.protocol() {
            Protocol::Ipfix => {
                proof {
                    let h2 = version + bytes::be_bytes(view.bytes.len(), 2);
                    let h3 = h2 + bytes::be_bytes(unix_secs as nat, 4);
                    let h4 = h3 + bytes::be_bytes(view.sequence as nat, 4);
                    bytes::lemma_overwrite_append(
                        before,
                        0,
                        version,
                        bytes::be_bytes(view.bytes.len(), 2),
                    );
                    bytes::lemma_overwrite_append(
                        before,
                        0,
                        h2,
                        bytes::be_bytes(unix_secs as nat, 4),
                    );
                    bytes::lemma_overwrite_append(
                        before,
                        0,
                        h3,
                        bytes::be_bytes(view.sequence as nat, 4),
                    );
                    bytes::lemma_overwrite_append(
                        before,
                        0,
                        h4,
                        bytes::be_bytes(view.domain as nat, 4),
                    );
                }
                // Length in bytes
                bytes::put_u16(&mut self.buf, &mut at, self.offset as u16);
                // Export Time
                bytes::put_u32(&mut self.buf, &mut at, unix_secs);
                // Sequence Number: data records exported before this message
                bytes::put_u32(&mut self.buf, &mut at, self.sequence_number);
                // Observation Domain ID
                bytes::put_u32(&mut self.buf, &mut at, self.observation_domain_id);
            },
            Protocol::Netflow9 => {
                proof {
                    let h2 = version + bytes::be_bytes(view.record_total(), 2);
                    let h3 = h2 + bytes::be_bytes(uptime_ms as nat, 4);
                    let h4 = h3 + bytes::be_bytes(unix_secs as nat, 4);
                    let h5 = h4 + bytes::be_bytes(view.sequence as nat, 4);
                    bytes::lemma_overwrite_append(
                        before,
                        0,
                        version,
                        bytes::be_bytes(view.record_total(), 2),
                    );
                    bytes::lemma_overwrite_append(
                        before,
                        0,
                        h2,
                        bytes::be_bytes(uptime_ms as nat, 4),
                    );
                    bytes::lemma_overwrite_append(
                        before,
                        0,
                        h3,
                        bytes::be_bytes(unix_secs as nat, 4),
                    );
                    bytes::lemma_overwrite_append(
                        before,
                        0,
                        h4,
                        bytes::be_bytes(view.sequence as nat, 4),
                    );
                    bytes::lemma_overwrite_append(
                        before,
                        0,
                        h5,
                        bytes::be_bytes(view.domain as nat, 4),
                    );
                }
                // "The total number of records in the Export Packet, which is
                // the sum of Options FlowSet records, Template FlowSet records,
                // and Data FlowSet records" -- records, not FlowSets, and there
                // is no message length field at all.
                let template_records: u32 = if self.template_included {
                    1
                } else {
                    0
                };
                let record_total: u16 = (self.record_count + template_records) as u16;
                bytes::put_u16(&mut self.buf, &mut at, record_total);
                // sysUpTime, milliseconds since this exporter started.
                bytes::put_u32(&mut self.buf, &mut at, uptime_ms);
                bytes::put_u32(&mut self.buf, &mut at, unix_secs);
                // Sequence Number counts exported *packets*, not records.
                bytes::put_u32(&mut self.buf, &mut at, self.sequence_number);
                // Source ID
                bytes::put_u32(&mut self.buf, &mut at, self.observation_domain_id);
            },
        }
        proof {
            lemma_header_overlay(before, self.offset as int, header);
        }
    }

    /// Finish the message as of the given times: fill in the header and the
    /// data set length. Returns the ready-to-send bytes and the number of
    /// records.
    pub fn finalize_at(&mut self, unix_secs: u32, uptime_ms: u32) -> (sent: (&[u8], u32))
        requires
            old(self).wf(),
        ensures
            final(self).wf(),
            sent.0@ == old(self)@.message(unix_secs, uptime_ms),
            sent.1 == old(self)@.records,
            final(self)@ == old(self)@.finished(unix_secs, uptime_ms),
    {
        self.close_data_set();
        self.write_header(unix_secs, uptime_ms);
        let count: u32 = self.record_count;
        // Both protocols expect this counter to wrap at 2^32.
        self.sequence_number = match self.protocol() {
            Protocol::Ipfix => self.sequence_number.wrapping_add(count),
            Protocol::Netflow9 => self.sequence_number.wrapping_add(1),
        };
        (&self.buf[0..self.offset], count)
    }

    /// Finish the message as of what the clocks read: the seconds since the Unix
    /// epoch, unless the clock is set before it, and the milliseconds since the
    /// encoder was made. The header shows each as far as its field counts.
    pub fn finalize_read(&mut self, seconds: Option<u64>, millis: u128) -> (sent: (&[u8], u32))
        requires
            old(self).wf(),
        ensures
            final(self).wf(),
            sent.0@ == old(self)@.message(
                clock::shown_seconds(seconds),
                clock::shown_uptime(millis),
            ),
            sent.1 == old(self)@.records,
            final(self)@ == old(self)@.finished(
                clock::shown_seconds(seconds),
                clock::shown_uptime(millis),
            ),
    {
        let unix_secs: u32 = clock::seconds_field(seconds);
        let uptime_ms: u32 = clock::uptime_field(millis);
        self.finalize_at(unix_secs, uptime_ms)
    }

    /// Finish the message now: fill in the header and the data set length.
    /// Returns the ready-to-send bytes and the number of records.
    ///
    /// The two times in the header are whatever the clocks show. sysUpTime
    /// wraps after ~49.7 days, which is inherent to the 32-bit field.
    pub fn finalize(&mut self) -> (sent: (&[u8], u32))
        requires
            old(self).wf(),
        ensures
            final(self).wf(),
            sent.1 == old(self)@.records,
            exists|unix_secs: u32, uptime_ms: u32|
                sent.0@ == #[trigger] old(self)@.message(unix_secs, uptime_ms) && final(self)@
                    == old(self)@.finished(unix_secs, uptime_ms),
    {
        let seconds: Option<u64> = clock::system_seconds();
        let millis: u128 = clock::elapsed_millis(&self.started);
        self.finalize_read(seconds, millis)
    }
}

} // verus!
