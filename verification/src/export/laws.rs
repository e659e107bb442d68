//! What the encoder promises of whole messages.

use super::elements::{
    IE_NAT_EVENT, IE_POST_NAPT_DESTINATION_TRANSPORT_PORT, IE_POST_NAPT_SOURCE_TRANSPORT_PORT,
    IE_POST_NAT_DESTINATION_IPV4_ADDRESS, IE_POST_NAT_SOURCE_IPV4_ADDRESS, MAX_MSG_SIZE,
    SET_HEADER_LEN, V9_OUT_BYTES, V9_OUT_PKTS,
};
use super::encoder;
use super::encoder::EncoderView;
use super::record;
use super::template;
use super::template::{CounterWidth, FieldShape, FieldSource, Profile, Protocol, ResolvedField, Template};
use crate::bytes;
use crate::event::ConntrackEvent;
use vstd::prelude::*;

verus! {

/// The records of some events, one after another.
pub open spec fn records_bytes(
    fields: Seq<ResolvedField>,
    events: Seq<ConntrackEvent>,
) -> Seq<u8>
    decreases events.len(),
{
    if events.len() == 0 {
        Seq::empty()
    } else {
        records_bytes(fields, events.drop_last()) + record::record_bytes(fields, events.last())
    }
}

/// A data set: the template ID, the length of the set, the records, and zeros
/// up to that length.
pub open spec fn data_set_bytes(template: Template, events: Seq<ConntrackEvent>) -> Seq<u8> {
    let len = template.data_set_len(events.len());
    let unpadded = bytes::be_bytes(template.template_id as nat, 2) + bytes::be_bytes(len, 2)
        + records_bytes(template.fields@, events);
    unpadded + bytes::zeros((len - unpadded.len()) as nat)
}

/// The sets of a message: the template set if it is carried, then the data set
/// if there are records to put in one.
pub open spec fn sets_bytes(
    template: Template,
    include_template: bool,
    events: Seq<ConntrackEvent>,
) -> Seq<u8> {
    let first = if include_template {
        encoder::template_set_bytes(template)
    } else {
        Seq::empty()
    };
    if events.len() == 0 {
        first
    } else {
        first + data_set_bytes(template, events)
    }
}

/// A whole message: its header, and behind it the sets.
pub open spec fn message_bytes(
    template: Template,
    domain: u32,
    sequence: u32,
    include_template: bool,
    events: Seq<ConntrackEvent>,
    unix_secs: u32,
    uptime_ms: u32,
) -> Seq<u8> {
    let sets = sets_bytes(template, include_template, events);
    encoder::header_bytes(
        template.protocol,
        template.protocol.header_len() as nat + sets.len(),
        events.len() + (if include_template {
            1nat
        } else {
            0nat
        }),
        sequence,
        domain,
        unix_secs,
        uptime_ms,
    ) + sets
}

impl EncoderView {
    /// The message with a record for each event added, in order.
    pub open spec fn with_records(self, events: Seq<ConntrackEvent>) -> EncoderView
        decreases events.len(),
    {
        if events.len() == 0 {
            self
        } else {
            self.with_records(events.drop_last()).with_record(events.last())
        }
    }

    /// Whether every one of the events finds room in the message.
    pub open spec fn accepts_all(self, events: Seq<ConntrackEvent>) -> bool
        decreases events.len(),
    {
        events.len() == 0 || (self.accepts_all(events.drop_last()) && self.with_records(
            events.drop_last(),
        ).has_room())
    }
}

pub proof fn lemma_records_len(template: Template, events: Seq<ConntrackEvent>)
    requires
        template.wf(),
    ensures
        records_bytes(template.fields@, events).len() == events.len() * template.record_size,
    decreases events.len(),
{
    if events.len() > 0 {
        lemma_records_len(template, events.drop_last());
        record::lemma_record_len(template.fields@, events.last());
        assert(events.len() * template.record_size == (events.len() - 1) * template.record_size
            + template.record_size) by (nonlinear_arith);
    } else {
        assert(0 * template.record_size == 0) by (nonlinear_arith);
    }
}

/// What stands in the message while records are being added to it.
pub proof fn lemma_with_records(
    before: EncoderView,
    include_template: bool,
    begun: EncoderView,
    events: Seq<ConntrackEvent>,
)
    requires
        before.wf(),
        before.begins(include_template, begun),
        begun.accepts_all(events),
    ensures
        ({
            let after = begun.with_records(events);
            let id = bytes::be_bytes(begun.template.template_id as nat, 2);
            &&& after.wf()
            &&& after.template == before.template
            &&& after.domain == before.domain
            &&& after.sequence == before.sequence
            &&& after.template_included == include_template
            &&& after.records == events.len()
            &&& after.bytes == begun.bytes + (if events.len() == 0 {
                Seq::empty()
            } else {
                id + bytes::be_bytes(0, 2) + records_bytes(begun.template.fields@, events)
            })
            &&& after.data_set == (if events.len() == 0 {
                None
            } else {
                Some(begun.bytes.len())
            })
        }),
    decreases events.len(),
{
    encoder::lemma_template_set_len(before.template);
    let header_len = before.template.protocol.header_len() as int;
    assert(begun.bytes == begun.bytes.take(header_len) + begun.bytes.skip(header_len));
    if events.len() > 0 {
        let shorter = events.drop_last();
        lemma_with_records(before, include_template, begun, shorter);
        lemma_records_len(before.template, events);
        lemma_records_len(before.template, shorter);
        record::lemma_record_len(before.template.fields@, events.last());
        bytes::lemma_be_bytes_len(begun.template.template_id as nat, 2);
        bytes::lemma_be_bytes_len(0, 2);
        let id = bytes::be_bytes(begun.template.template_id as nat, 2);
        let after = begun.with_records(events);
        let start = begun.bytes;
        let next = record::record_bytes(begun.template.fields@, events.last());
        if shorter.len() == 0 {
            assert(records_bytes(begun.template.fields@, shorter) == Seq::<u8>::empty());
        }
        assert(after.bytes == start + (id + bytes::be_bytes(0, 2) + (records_bytes(
            begun.template.fields@,
            shorter,
        ) + next)));
    }
}

proof fn lemma_data_set_len(template: Template, events: Seq<ConntrackEvent>)
    requires
        template.wf(),
    ensures
        data_set_bytes(template, events).len() == template.data_set_len(events.len()),
        template.data_set_len(events.len()) % (template.protocol.set_alignment() as nat) == 0,
        template.data_set_len(events.len()) >= SET_HEADER_LEN + events.len()
            * template.record_size,
{
    lemma_records_len(template, events);
    bytes::lemma_be_bytes_len(template.template_id as nat, 2);
    bytes::lemma_be_bytes_len(template.data_set_len(events.len()), 2);
    template::lemma_aligned(
        (SET_HEADER_LEN + events.len() * template.record_size) as nat,
        template.protocol.set_alignment() as nat,
    );
}

/// Padding never takes a message past the limit, which is itself aligned.
proof fn lemma_aligned_within(protocol: Protocol, len: nat)
    requires
        len <= MAX_MSG_SIZE,
    ensures
        template::aligned(len, protocol.set_alignment() as nat) <= MAX_MSG_SIZE,
{
    template::lemma_aligned(len, protocol.set_alignment() as nat);
    match protocol {
        Protocol::Ipfix => {},
        Protocol::Netflow9 => {},
    }
}

/// Closing a message that holds records completes its data set.
proof fn lemma_closed(begun: EncoderView, after: EncoderView, events: Seq<ConntrackEvent>)
    requires
        begun.template.wf(),
        after.template == begun.template,
        events.len() > 0,
        begun.bytes.len() % (begun.template.protocol.set_alignment() as nat) == 0,
        after.data_set == Some(begun.bytes.len()),
        after.bytes == begun.bytes + (bytes::be_bytes(begun.template.template_id as nat, 2)
            + bytes::be_bytes(0, 2) + records_bytes(begun.template.fields@, events)),
    ensures
        after.closed_bytes() == begun.bytes + data_set_bytes(begun.template, events),
        after.closed_bytes().len() == template::aligned(
            after.bytes.len(),
            begun.template.protocol.set_alignment() as nat,
        ),
{
    let template = begun.template;
    let id = bytes::be_bytes(template.template_id as nat, 2);
    let records = records_bytes(template.fields@, events);
    let len = template.data_set_len(events.len());
    let start = begun.bytes.len();
    bytes::lemma_be_bytes_len(template.template_id as nat, 2);
    bytes::lemma_be_bytes_len(0, 2);
    bytes::lemma_be_bytes_len(len, 2);
    lemma_records_len(template, events);
    lemma_data_set_len(template, events);
    template::lemma_aligned_from(
        start,
        (SET_HEADER_LEN + events.len() * template.record_size) as nat,
        template.protocol.set_alignment() as nat,
    );
    let pad = bytes::zeros((start + len - after.bytes.len()) as nat);
    assert(after.closed_bytes() == begun.bytes + (id + bytes::be_bytes(len, 2) + records + pad));
}

proof fn lemma_begun(before: EncoderView, include_template: bool, begun: EncoderView)
    requires
        before.wf(),
        before.begins(include_template, begun),
    ensures
        begun.bytes.len() == before.template.protocol.header_len() + (if include_template {
            before.template.set_len()
        } else {
            0
        }),
        begun.bytes.len() % (before.template.protocol.set_alignment() as nat) == 0,
        before.template.set_len() % (before.template.protocol.set_alignment() as nat) == 0,
        encoder::template_set_bytes(before.template).len() == before.template.set_len(),
        begun.bytes == begun.bytes.take(before.template.protocol.header_len() as int)
            + begun.bytes.skip(before.template.protocol.header_len() as int),
{
    let template = before.template;
    let alignment = template.protocol.set_alignment() as nat;
    let header_len = template.protocol.header_len() as nat;
    encoder::lemma_template_set_len(template);
    template::lemma_aligned(
        (SET_HEADER_LEN + 4 + template::specifiers_len(template.fields@)) as nat,
        alignment,
    );
    assert(begun.bytes.skip(header_len as int).len() == begun.bytes.len() - header_len);
    vstd::arithmetic::div_mod::lemma_mod_adds(
        header_len as int,
        template.set_len() as int,
        alignment as int,
    );
    assert(header_len % alignment == 0);
}

/// A message is its header, the template set if it was asked for, and one data
/// set with the records of exactly the events that were added, in the order in
/// which they were added. A message without records carries no data set.
///
/// The whole fits in one datagram, every set is aligned as the protocol asks,
/// and each set is as long as its header says.
pub proof fn law_message_layout(
    before: EncoderView,
    include_template: bool,
    begun: EncoderView,
    events: Seq<ConntrackEvent>,
    unix_secs: u32,
    uptime_ms: u32,
)
    requires
        before.wf(),
        before.begins(include_template, begun),
        begun.accepts_all(events),
    ensures
        ({
            let after = begun.with_records(events);
            let message = after.message(unix_secs, uptime_ms);
            let sets = sets_bytes(before.template, include_template, events);
            let alignment = before.template.protocol.set_alignment() as nat;
            &&& message == message_bytes(
                before.template,
                before.domain,
                before.sequence,
                include_template,
                events,
                unix_secs,
                uptime_ms,
            )
            &&& message == after.header(message.len(), unix_secs, uptime_ms) + sets
            &&& message.len() == before.template.protocol.header_len() + sets.len()
            &&& message.len() <= MAX_MSG_SIZE
            &&& after.records == events.len()
            &&& after.sequence == before.sequence
            &&& encoder::template_set_bytes(before.template).len() == before.template.set_len()
            &&& before.template.set_len() % alignment == 0
            &&& data_set_bytes(before.template, events).len() == before.template.data_set_len(
                events.len(),
            )
            &&& before.template.data_set_len(events.len()) % alignment == 0
        }),
{
    let after = begun.with_records(events);
    let template = before.template;
    let header_len = template.protocol.header_len() as int;
    let sets = sets_bytes(template, include_template, events);
    let closed = after.closed_bytes();
    lemma_begun(before, include_template, begun);
    lemma_with_records(before, include_template, begun, events);
    lemma_data_set_len(template, events);
    after.lemma_header_len(closed.len(), unix_secs, uptime_ms);
    if events.len() > 0 {
        lemma_closed(begun, after, events);
    }
    assert(closed.skip(header_len) == sets);
    lemma_aligned_within(template.protocol, after.bytes.len());
    let message = after.message(unix_secs, uptime_ms);
    assert(message == after.header(closed.len(), unix_secs, uptime_ms) + sets);
}

/// A message that was just begun without the template has room for a record, so
/// one that an earlier message had no room for is never lost.
pub proof fn law_fresh_message_takes_a_record(before: EncoderView, begun: EncoderView)
    requires
        before.wf(),
        before.begins(false, begun),
    ensures
        begun.has_room(),
{
    let template = before.template;
    lemma_begun(before, false, begun);
    encoder::lemma_template_set_len(template);
    template::lemma_aligned(
        (SET_HEADER_LEN + 1 * template.record_size) as nat,
        template.protocol.set_alignment() as nat,
    );
}

/// The bytes of a message without its data set.
pub open spec fn used_len(template: Template, include_template: bool) -> nat {
    template.protocol.header_len() as nat + (if include_template {
        template.set_len()
    } else {
        0
    })
}

/// With the template or without it, records are accepted exactly as long as a
/// message can hold the header, the template set if it is there, and their data
/// set: nothing is refused for the sake of padding that is not needed.
pub proof fn law_capacity(
    before: EncoderView,
    include_template: bool,
    begun: EncoderView,
    events: Seq<ConntrackEvent>,
    protocol: Protocol,
    profile: Profile,
    width: CounterWidth,
    template_id: u16,
)
    requires
        before.wf(),
        before.template.resolved(protocol, profile, width, template_id),
        before.begins(include_template, begun),
    ensures
        begun.accepts_all(events) <==> (events.len() == 0 || used_len(
            before.template,
            include_template,
        ) + before.template.data_set_len(events.len()) <= MAX_MSG_SIZE),
    decreases events.len(),
{
    if events.len() > 0 {
        let shorter = events.drop_last();
        let n = events.len();
        let template = before.template;
        law_capacity(
            before,
            include_template,
            begun,
            shorter,
            protocol,
            profile,
            width,
            template_id,
        );
        lemma_capacity_step(template, include_template, protocol, profile, width, template_id, n);
        lemma_begun(before, include_template, begun);
        if begun.accepts_all(shorter) {
            lemma_with_records(before, include_template, begun, shorter);
            lemma_records_len(template, shorter);
            bytes::lemma_be_bytes_len(template.template_id as nat, 2);
            bytes::lemma_be_bytes_len(0, 2);
            assert(n * template.record_size == shorter.len() * template.record_size
                + template.record_size) by (nonlinear_arith)
                requires
                    n == shorter.len() + 1,
            ;
        }
    }
}

/// The reported capacity is what a message takes: alongside the template, as
/// many records are accepted as [`Template::max_records_per_message`] says, and
/// no more.
///
/// `capacity` is what that function returns: that many records fit a message,
/// and one more does not.
pub proof fn law_reported_capacity_is_reached(
    before: EncoderView,
    begun: EncoderView,
    events: Seq<ConntrackEvent>,
    protocol: Protocol,
    profile: Profile,
    width: CounterWidth,
    template_id: u16,
    capacity: usize,
)
    requires
        before.wf(),
        before.template.resolved(protocol, profile, width, template_id),
        before.begins(true, begun),
        protocol.header_len() + before.template.set_len() + before.template.data_set_len(
            (capacity + 1) as nat,
        ) > MAX_MSG_SIZE,
        forall|fewer: nat|
            0 < fewer <= capacity ==> protocol.header_len() + before.template.set_len()
                + #[trigger] before.template.data_set_len(fewer) <= MAX_MSG_SIZE,
    ensures
        begun.accepts_all(events) <==> events.len() <= capacity,
{
    let template = before.template;
    law_capacity(before, true, begun, events, protocol, profile, width, template_id);
    if events.len() > capacity {
        let more = (capacity + 1) as nat;
        let size = template.record_size as nat;
        let alignment = protocol.set_alignment() as nat;
        assert(more * size <= events.len() * size) by (nonlinear_arith)
            requires
                more <= events.len(),
        ;
        lemma_aligned_grows(
            (SET_HEADER_LEN + more * size) as nat,
            (SET_HEADER_LEN + events.len() * size) as nat,
            alignment,
        );
    }
}

proof fn lemma_aligned_grows(less: nat, more: nat, alignment: nat)
    requires
        alignment > 0,
        less <= more,
    ensures
        template::aligned(less, alignment) <= template::aligned(more, alignment),
{
    let a = (less + alignment - 1) as nat;
    let b = (more + alignment - 1) as nat;
    vstd::arithmetic::div_mod::lemma_div_is_ordered(a as int, b as int, alignment as int);
    assert((a / alignment) * alignment <= (b / alignment) * alignment) by (nonlinear_arith)
        requires
            a / alignment <= b / alignment,
    ;
}

/// Reserving the most a set could be padded by costs no configuration a record.
pub proof fn lemma_capacity_step(
    template: Template,
    include_template: bool,
    protocol: Protocol,
    profile: Profile,
    width: CounterWidth,
    template_id: u16,
    n: nat,
)
    requires
        template.resolved(protocol, profile, width, template_id),
        n > 0,
    ensures
        ({
            let size = template.record_size as nat;
            let used = used_len(template, include_template);
            let fits = used + template.data_set_len(n) <= MAX_MSG_SIZE;
            &&& fits <==> used + SET_HEADER_LEN + n * size + (protocol.set_alignment() - 1)
                <= MAX_MSG_SIZE
            &&& fits && n > 1 ==> used + template.data_set_len((n - 1) as nat) <= MAX_MSG_SIZE
        }),
{
    template::law_configuration_sizes(protocol, profile, width);
    let size = template.record_size as nat;
    let alignment = protocol.set_alignment() as nat;
    template::lemma_aligned(
        (SET_HEADER_LEN + 4 + template::specifiers_len(template.fields@)) as nat,
        alignment,
    );
    template::lemma_aligned((SET_HEADER_LEN + n * size) as nat, alignment);
    template::lemma_aligned((SET_HEADER_LEN + (n - 1) * size) as nat, alignment);
    assert(n * size == (n - 1) * size + size) by (nonlinear_arith);
    match (protocol, profile, width) {
        (Protocol::Ipfix, _, _) => {},
        (Protocol::Netflow9, Profile::Full, CounterWidth::Eight) => {
            assert(size == 58);
            assert(n * size == n * 58);
        },
        (Protocol::Netflow9, Profile::Full, CounterWidth::Four) => {
            assert(n * size == n * 42);
        },
        (Protocol::Netflow9, Profile::NatSource, CounterWidth::Eight) => {
            assert(n * size == n * 52);
        },
        (Protocol::Netflow9, Profile::NatSource, CounterWidth::Four) => {
            assert(n * size == n * 36);
        },
        (Protocol::Netflow9, Profile::FlowOnly, CounterWidth::Eight) => {
            assert(n * size == n * 45);
        },
        (Protocol::Netflow9, Profile::FlowOnly, CounterWidth::Four) => {
            assert(n * size == n * 29);
        },
    }
}

/// Whoever reads the header of a message at the places the protocol fixes finds
/// there what the encoder meant: under IPFIX the version, the length in bytes,
/// the export time, the sequence number and the observation domain; under
/// NetFlow v9 the version, the number of records, the uptime, the export time,
/// the sequence number and the source ID.
pub proof fn law_header_fields(view: EncoderView, len: nat, unix_secs: u32, uptime_ms: u32)
    requires
        view.wf(),
        len <= MAX_MSG_SIZE,
    ensures
        ({
            let header = view.header(len, unix_secs, uptime_ms);
            let at = |from: int, to: int| bytes::be_value(header.subrange(from, to));
            &&& at(0, 2) == view.template.protocol.version()
            &&& match view.template.protocol {
                Protocol::Ipfix => {
                    &&& header.len() == 16
                    &&& at(2, 4) == len
                    &&& at(4, 8) == unix_secs
                    &&& at(8, 12) == view.sequence
                    &&& at(12, 16) == view.domain
                },
                Protocol::Netflow9 => {
                    &&& header.len() == 20
                    &&& at(2, 4) == view.record_total()
                    &&& at(4, 8) == uptime_ms
                    &&& at(8, 12) == unix_secs
                    &&& at(12, 16) == view.sequence
                    &&& at(16, 20) == view.domain
                },
            }
        }),
{
    let header = view.header(len, unix_secs, uptime_ms);
    let version = view.template.protocol.version() as nat;
    let second = match view.template.protocol {
        Protocol::Ipfix => len,
        Protocol::Netflow9 => view.record_total(),
    };
    lemma_reads_back(version, 2);
    lemma_reads_back(second, 2);
    lemma_reads_back(unix_secs as nat, 4);
    lemma_reads_back(uptime_ms as nat, 4);
    lemma_reads_back(view.sequence as nat, 4);
    lemma_reads_back(view.domain as nat, 4);
    assert(header.subrange(0, 2) == bytes::be_bytes(version, 2));
    assert(header.subrange(2, 4) == bytes::be_bytes(second, 2));
    match view.template.protocol {
        Protocol::Ipfix => {
            assert(header.subrange(4, 8) == bytes::be_bytes(unix_secs as nat, 4));
            assert(header.subrange(8, 12) == bytes::be_bytes(view.sequence as nat, 4));
            assert(header.subrange(12, 16) == bytes::be_bytes(view.domain as nat, 4));
        },
        Protocol::Netflow9 => {
            assert(header.subrange(4, 8) == bytes::be_bytes(uptime_ms as nat, 4));
            assert(header.subrange(8, 12) == bytes::be_bytes(unix_secs as nat, 4));
            assert(header.subrange(12, 16) == bytes::be_bytes(view.sequence as nat, 4));
            assert(header.subrange(16, 20) == bytes::be_bytes(view.domain as nat, 4));
        },
    }
}

proof fn lemma_reads_back(value: nat, len: nat)
    requires
        len == 2 && value < 0x1_0000 || len == 4 && value < 0x1_0000_0000,
    ensures
        bytes::be_bytes(value, len).len() == len,
        bytes::be_value(bytes::be_bytes(value, len)) == value,
{
    reveal_with_fuel(vstd::arithmetic::power::pow, 5);
    bytes::lemma_be_bytes_len(value, len);
    bytes::lemma_be_value_of_be_bytes(value, len);
}

/// The records of some messages, counted together.
pub open spec fn total_records(messages: Seq<EncoderView>) -> nat
    decreases messages.len(),
{
    if messages.len() == 0 {
        0
    } else {
        total_records(messages.drop_last()) + messages.last().records as nat
    }
}

/// From message to message the IPFIX sequence number counts the data records
/// sent before, and that of NetFlow v9 the packets sent before. Both wrap at
/// 2^32 rather than overflow.
///
/// `messages` are the states in which successive messages were finished, and
/// `next` is the state the following one is finished in.
pub proof fn law_sequence_numbers(messages: Seq<EncoderView>, next: EncoderView)
    requires
        messages.len() > 0,
        forall|i: int|
            0 <= i < messages.len() ==> (#[trigger] messages[i]).template.protocol
                == next.template.protocol,
        forall|i: int, j: int|
            0 <= i && j == i + 1 && j < messages.len() ==> (#[trigger] messages[j]).sequence == (
            #[trigger] messages[i]).next_sequence(),
        next.sequence == messages.last().next_sequence(),
    ensures
        next.sequence == (messages[0].sequence + (match next.template.protocol {
            Protocol::Ipfix => total_records(messages),
            Protocol::Netflow9 => messages.len(),
        })) % 0x1_0000_0000,
    decreases messages.len(),
{
    let last = messages.last();
    if messages.len() > 1 {
        let shorter = messages.drop_last();
        assert(last == messages[messages.len() - 1]);
        assert(shorter.last() == messages[messages.len() - 2]);
        law_sequence_numbers(shorter, last);
        let counted: int = match next.template.protocol {
            Protocol::Ipfix => total_records(shorter) as int,
            Protocol::Netflow9 => shorter.len() as int,
        };
        let step: int = match next.template.protocol {
            Protocol::Ipfix => last.records as int,
            Protocol::Netflow9 => 1,
        };
        let base: int = messages[0].sequence + counted;
        assert(last.template.protocol == next.template.protocol);
        assert(last.sequence == base % 0x1_0000_0000);
        vstd::arithmetic::div_mod::lemma_add_mod_noop_right(step, base, 0x1_0000_0000);
        assert(next.sequence == (step + last.sequence) % 0x1_0000_0000);
    } else {
        assert(last == messages[0]);
        assert(total_records(messages.drop_last()) == 0);
    }
}

/// What the template set says about each field stands where a collector looks
/// for it: behind the eight bytes of headers and the specifiers before it.
pub proof fn law_template_describes_fields(template: Template, i: int)
    requires
        template.wf(),
        0 <= i < template.fields@.len(),
    ensures
        ({
            let set = encoder::template_set_bytes(template);
            let at = (8 + template::specifiers_len(template.fields@.take(i))) as int;
            let end = at + template.fields@[i].specifier_len();
            &&& end <= set.len()
            &&& set.subrange(at, end) == encoder::specifier_bytes(template.fields@[i])
            &&& bytes::be_value(set.subrange(0, 2)) == template.protocol.template_set_id()
            &&& bytes::be_value(set.subrange(2, 4)) == set.len()
            &&& bytes::be_value(set.subrange(4, 6)) == template.template_id
            &&& bytes::be_value(set.subrange(6, 8)) == template.fields@.len()
        }),
{
    let set = encoder::template_set_bytes(template);
    let fields = template.fields@;
    let at = (8 + template::specifiers_len(fields.take(i))) as int;
    let end = at + fields[i].specifier_len();
    encoder::lemma_template_set_len(template);
    encoder::lemma_field_count(fields);
    lemma_reads_back(template.protocol.template_set_id() as nat, 2);
    lemma_reads_back(template.set_len(), 2);
    lemma_reads_back(template.template_id as nat, 2);
    lemma_reads_back(fields.len(), 2);
    lemma_specifier_at(fields, i);
    let all = encoder::specifiers_bytes(fields);
    assert(set.subrange(0, 2) == bytes::be_bytes(
        template.protocol.template_set_id() as nat,
        2,
    ));
    assert(set.subrange(2, 4) == bytes::be_bytes(template.set_len(), 2));
    assert(set.subrange(4, 6) == bytes::be_bytes(template.template_id as nat, 2));
    assert(set.subrange(6, 8) == bytes::be_bytes(fields.len(), 2));
    assert(set.subrange(at, end) == all.subrange(at - 8, end - 8));
}

proof fn lemma_specifier_at(fields: Seq<ResolvedField>, i: int)
    requires
        0 <= i < fields.len(),
    ensures
        ({
            let at = template::specifiers_len(fields.take(i)) as int;
            let end = at + fields[i].specifier_len();
            &&& end <= template::specifiers_len(fields)
            &&& encoder::specifiers_bytes(fields).len() == template::specifiers_len(fields)
            &&& encoder::specifiers_bytes(fields).subrange(at, end) == encoder::specifier_bytes(
                fields[i],
            )
        }),
    decreases fields.len(),
{
    let all = encoder::specifiers_bytes(fields);
    let at = template::specifiers_len(fields.take(i)) as int;
    let end = at + fields[i].specifier_len();
    let shorter = fields.drop_last();
    encoder::lemma_specifiers_bytes_len(fields);
    encoder::lemma_specifiers_bytes_len(shorter);
    if i + 1 < fields.len() {
        lemma_specifier_at(shorter, i);
        assert(shorter.take(i) == fields.take(i));
        assert(all.subrange(at, end) == encoder::specifiers_bytes(shorter).subrange(at, end));
    } else {
        assert(fields.take(i) == shorter);
        assert(all.subrange(at, end) == encoder::specifier_bytes(fields[i]));
    }
}

/// A collector that cuts a record at the lengths the template declares finds
/// each field's value, and no byte of another.
pub proof fn law_record_fields(fields: Seq<ResolvedField>, event: ConntrackEvent, i: int)
    requires
        forall|j: int| 0 <= j < fields.len() ==> (#[trigger] fields[j]).writable(),
        0 <= i < fields.len(),
    ensures
        ({
            let at = template::record_len(fields.take(i)) as int;
            let end = at + fields[i].length;
            &&& end <= template::record_len(fields)
            &&& record::record_bytes(fields, event).len() == template::record_len(fields)
            &&& record::record_bytes(fields, event).subrange(at, end) == record::field_bytes(
                fields[i],
                event,
            )
        }),
    decreases fields.len(),
{
    let all = record::record_bytes(fields, event);
    let at = template::record_len(fields.take(i)) as int;
    let end = at + fields[i].length;
    let shorter = fields.drop_last();
    assert forall|j: int| 0 <= j < shorter.len() implies (#[trigger] shorter[j]).writable() by {
        assert(fields[j].writable());
    }
    record::lemma_record_len(fields, event);
    record::lemma_record_len(shorter, event);
    assert(fields[i].writable());
    record::lemma_field_len(fields[i], event);
    if i + 1 < fields.len() {
        law_record_fields(shorter, event, i);
        assert(shorter.take(i) == fields.take(i));
        assert(all.subrange(at, end) == record::record_bytes(shorter, event).subrange(at, end));
    } else {
        assert(fields.take(i) == shorter);
        assert(all.subrange(at, end) == record::field_bytes(fields[i], event));
    }
}

/// A counter field spells the counter, or the most it can hold where the
/// counter is larger. It never reports a smaller number than that.
pub proof fn law_counter_value(field: ResolvedField, event: ConntrackEvent, value: u64)
    requires
        field.writable(),
        record::spec_value_of(field.source, event) == record::Value::Counter(value),
    ensures
        bytes::be_value(record::field_bytes(field, event)) == record::clamped(
            value as nat,
            field.length as nat,
        ),
        !record::is_clamped(field, event) ==> record::clamped(value as nat, field.length as nat)
            == value,
        record::is_clamped(field, event) ==> record::clamped(value as nat, field.length as nat)
            == record::counter_limit(field.length as nat),
{
    let len = field.length as nat;
    let shown = record::clamped(value as nat, len);
    reveal_with_fuel(vstd::arithmetic::power::pow, 9);
    if len >= 8 {
        assert(vstd::arithmetic::power::pow(256, 8) == 0x1_0000_0000_0000_0000);
        vstd::arithmetic::power::lemma_pow_increases(256, 8, len);
    } else {
        vstd::arithmetic::power::lemma_pow_positive(256, len);
    }
    bytes::lemma_be_value_of_be_bytes(shown, len);
}

/// A field of a template that was resolved from a configuration.
proof fn lemma_resolved_field(
    protocol: Protocol,
    profile: Profile,
    width: CounterWidth,
    i: int,
)
    requires
        0 <= i < profile.spec_shapes().len(),
    ensures
        template::resolve_shapes(protocol, width, profile.spec_shapes())[i]
            == template::resolve_shape(protocol, width, profile.spec_shapes()[i]),
        profile.spec_shapes()[i].consistent(),
{
    template::law_profiles_are_consistent(profile, i);
}

/// NetFlow v9 field specifiers cannot carry an enterprise number, and no
/// configuration asks for one.
pub proof fn law_netflow9_has_no_enterprise_elements(
    profile: Profile,
    width: CounterWidth,
    i: int,
)
    requires
        0 <= i < profile.spec_shapes().len(),
    ensures
        template::resolve_shapes(Protocol::Netflow9, width, profile.spec_shapes())[i].pen is None,
{
}

/// Under IPFIX the elements 23 and 24 mean another quantity than NetFlow v9's
/// OUT_BYTES and OUT_PKTS, and no configuration uses them there.
pub proof fn law_ipfix_never_borrows_out_counters(profile: Profile, width: CounterWidth, i: int)
    requires
        0 <= i < profile.spec_shapes().len(),
    ensures
        ({
            let field = template::resolve_shapes(
                Protocol::Ipfix,
                width,
                profile.spec_shapes(),
            )[i];
            field.pen is None ==> field.id != V9_OUT_BYTES && field.id != V9_OUT_PKTS
        }),
{
}

/// The flow-only profile carries no element that a collector without NAT
/// support would have to know, and still carries the source address.
pub proof fn law_flow_only_carries_no_nat_elements(
    protocol: Protocol,
    width: CounterWidth,
    i: int,
)
    requires
        0 <= i < Profile::FlowOnly.spec_shapes().len(),
    ensures
        ({
            let fields = template::resolve_shapes(
                protocol,
                width,
                Profile::FlowOnly.spec_shapes(),
            );
            let field = fields[i];
            &&& field.id != IE_NAT_EVENT
            &&& field.id != IE_POST_NAT_SOURCE_IPV4_ADDRESS
            &&& field.id != IE_POST_NAPT_SOURCE_TRANSPORT_PORT
            &&& field.id != IE_POST_NAT_DESTINATION_IPV4_ADDRESS
            &&& field.id != IE_POST_NAPT_DESTINATION_TRANSPORT_PORT
            &&& fields[1].source == FieldSource::SrcIp
        }),
{
}

/// The nat-source profile is the full one without the destination translation:
/// nothing else is dropped, moved or changed.
pub proof fn law_nat_source_drops_only_the_destination_translation(
    protocol: Protocol,
    width: CounterWidth,
)
    ensures
        ({
            let full = template::resolve_shapes(protocol, width, Profile::Full.spec_shapes());
            let fields = template::resolve_shapes(
                protocol,
                width,
                Profile::NatSource.spec_shapes(),
            );
            &&& fields.take(8) == full.take(8)
            &&& full[8].source == FieldSource::PostNatDstIp
            &&& full[9].source == FieldSource::PostNatDstPort
            &&& fields.skip(8) == full.skip(10)
        }),
{
    let full = template::resolve_shapes(protocol, width, Profile::Full.spec_shapes());
    let fields = template::resolve_shapes(protocol, width, Profile::NatSource.spec_shapes());
    template::law_configuration_sizes(protocol, Profile::Full, width);
    template::law_configuration_sizes(protocol, Profile::NatSource, width);
    assert(fields.take(8) =~= full.take(8));
    assert(fields.skip(8) =~= full.skip(10));
}

/// Every field is declared exactly as wide as what is written for its source:
/// addresses, ports and codes at their natural width, counters at the
/// configured one.
pub proof fn law_fields_are_as_wide_as_their_source(
    protocol: Protocol,
    profile: Profile,
    width: CounterWidth,
    i: int,
)
    requires
        0 <= i < profile.spec_shapes().len(),
    ensures
        ({
            let field = template::resolve_shapes(protocol, width, profile.spec_shapes())[i];
            field.length == (match field.source.spec_natural_len() {
                Some(natural) => natural,
                None => width.bytes(),
            })
        }),
{
    lemma_resolved_field(protocol, profile, width, i);
}

/// The record body does not depend on the export protocol.
pub proof fn law_record_body_is_the_same_under_both_protocols(
    profile: Profile,
    width: CounterWidth,
    event: ConntrackEvent,
)
    ensures
        record::record_bytes(
            template::resolve_shapes(Protocol::Ipfix, width, profile.spec_shapes()),
            event,
        ) == record::record_bytes(
            template::resolve_shapes(Protocol::Netflow9, width, profile.spec_shapes()),
            event,
        ),
{
    lemma_same_body(profile.spec_shapes(), width, event);
}

proof fn lemma_same_body(shapes: Seq<FieldShape>, width: CounterWidth, event: ConntrackEvent)
    ensures
        record::record_bytes(template::resolve_shapes(Protocol::Ipfix, width, shapes), event)
            == record::record_bytes(
            template::resolve_shapes(Protocol::Netflow9, width, shapes),
            event,
        ),
    decreases shapes.len(),
{
    if shapes.len() > 0 {
        let shorter = shapes.drop_last();
        lemma_same_body(shorter, width, event);
        let ipfix = template::resolve_shapes(Protocol::Ipfix, width, shapes);
        let netflow9 = template::resolve_shapes(Protocol::Netflow9, width, shapes);
        assert(ipfix.drop_last() == template::resolve_shapes(Protocol::Ipfix, width, shorter));
        assert(netflow9.drop_last() == template::resolve_shapes(
            Protocol::Netflow9,
            width,
            shorter,
        ));
    }
}

/// How much room the records of a message leave, whichever of them opened the
/// data set.
pub proof fn lemma_room(
    before: EncoderView,
    include_template: bool,
    begun: EncoderView,
    events: Seq<ConntrackEvent>,
)
    requires
        before.wf(),
        before.begins(include_template, begun),
        begun.accepts_all(events),
    ensures
        begun.with_records(events).has_room() == (before.template.protocol.header_len() + (
        if include_template {
            before.template.set_len()
        } else {
            0
        }) + SET_HEADER_LEN + (events.len() + 1) * before.template.record_size + (
        before.template.protocol.set_alignment() - 1) <= MAX_MSG_SIZE),
{
    let template = before.template;
    lemma_begun(before, include_template, begun);
    lemma_with_records(before, include_template, begun, events);
    lemma_records_len(template, events);
    bytes::lemma_be_bytes_len(template.template_id as nat, 2);
    bytes::lemma_be_bytes_len(0, 2);
    assert((events.len() + 1) * template.record_size == events.len() * template.record_size
        + template.record_size) by (nonlinear_arith);
}

/// Of a template that was made from a configuration, the first record of a
/// message fits beside the template set.
pub proof fn lemma_first_record_fits(template: Template)
    requires
        template.wf(),
        template.resolved(
            template.protocol,
            template.profile,
            template.counter_width,
            template.template_id,
        ),
    ensures
        template.protocol.header_len() + template.set_len() + SET_HEADER_LEN + 1
            * template.record_size + (template.protocol.set_alignment() - 1) <= MAX_MSG_SIZE,
{
    lemma_capacity_step(
        template,
        true,
        template.protocol,
        template.profile,
        template.counter_width,
        template.template_id,
        1,
    );
}

} // verus!
