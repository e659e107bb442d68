//! What the operations promise, by what goes into a call and what comes out of it.

use crate::bytes;
use crate::bytes::ByteOrder;
use crate::clock::{seconds_field, uptime_field};
use crate::config;
use crate::config::{ConfigError, ExportOptions, ExportSettings};
use crate::deadline;
use crate::deadline::{has_passed, ms_until, ms_until_passed};
use crate::event::{ConntrackEvent, NatEventType};
use crate::export::encoder;
use crate::export::encoder::{Encoder, EncoderView};
use crate::export::laws;
use crate::export::reading;
use crate::export::record::{counter_max, value_of, write_record, Value};
use crate::export::template::{
    CounterWidth, CounterWidthError, FieldSource, Profile, Protocol, ResolvedField, Template,
    TemplateError,
};
use crate::ipfix::IpfixEncoder;
use crate::netlink;
use crate::netlink::constants::buffer_size;
use crate::netlink::parser;
use crate::netlink::parser::{
    parse_conntrack_messages, parse_conntrack_messages_in, parse_nla_tree,
};
use crate::netlink::reading::EventParts;
use crate::netlink::socket::{
    after_buffer_option, after_receive, drops_from, is_readable, BufferMove, Datagram,
    ReceiveBatch, ReceiveMove, ReceiveOutcome, Received,
};
use crate::signals;
use crate::signals::{
    poll_found_data, shutdown_signal, DrainMove, PendingSignals, SignalRead,
};
use crate::startup::{Startup, StartupOptions, StartupStep};
use crate::supervisor;
use crate::supervisor::{
    fork_role, should_restart, try_reap, AfterWorker, ForkRole, Reaped, SuperviseAction,
    Supervised, Supervision,
};
use crate::sysctl;
use crate::sysctl::sysctl_update;
use crate::worker;
use crate::worker::{AfterPoll, Outgoing, StatsReport, Worker};
use crate::worker_laws::{Call, Turn};
use vstd::prelude::*;

verus! {

// ---- Supervising the worker ----

/// A worker is restarted exactly if a signal ended it, or if it exited with another
/// code than zero.
pub proof fn law_should_restart(status: libc::c_int, restart: bool)
    requires
        call_ensures(should_restart, (status,), restart),
        0 <= status <= 0xffff,
    ensures
        restart <==> (status % 128 == 0 && status / 256 != 0 || 0 < status % 128 < 127),
{
    supervisor::law_crashes(status);
}

/// What the supervisor does once a worker is gone.
pub proof fn law_after_worker(end: Supervision, next: AfterWorker)
    requires
        call_ensures(Supervision::next, (end,), next),
    ensures
        end is ShutdownRequested ==> next is Stop,
        end matches Supervision::Exited(status) ==> (0 <= status <= 0xffff ==> {
            &&& next is Restart <==> (status % 128 == 0 && status / 256 != 0 || 0 < status % 128
                < 127)
            &&& next is WorkerDone <==> !(next is Restart)
        }),
{
    if let Supervision::Exited(status) = end {
        if 0 <= status <= 0xffff {
            supervisor::law_crashes(status);
        }
    }
}

/// The end of a worker that was asked to stop is no crash, whatever its status.
pub proof fn law_on_exit(supervised: Supervised, status: libc::c_int, end: Supervision)
    requires
        call_ensures(Supervised::on_exit, (&supervised, status), end),
    ensures
        supervised.shutting_down ==> end is ShutdownRequested,
        !supervised.shutting_down ==> end == Supervision::Exited(status),
{
}

/// A worker is gone exactly if the wait was answered with its process, and it cannot
/// be waited for exactly if the wait failed without being interrupted.
pub proof fn law_try_reap(
    rc: libc::pid_t,
    child_pid: libc::pid_t,
    status: libc::c_int,
    interrupted: bool,
    reaped: Reaped,
)
    requires
        call_ensures(try_reap, (rc, child_pid, status, interrupted), reaped),
    ensures
        reaped is Exited <==> rc == child_pid,
        reaped matches Reaped::Exited(seen) ==> seen == status,
        reaped is Failed <==> rc != child_pid && rc < 0 && !interrupted,
{
}

/// A fork gives the child zero, and the parent the process of the child.
pub proof fn law_fork_role(pid: libc::pid_t, role: ForkRole)
    requires
        call_ensures(fork_role, (pid,), role),
    ensures
        role is Child <==> pid == 0,
        role is Failed <==> pid < 0,
        role matches ForkRole::Parent(child) ==> child == pid && pid > 0,
{
}

/// The first signal that is not about a child asks to stop.
pub proof fn law_shutdown_signal(
    pending: &[libc::c_int],
    child_exit: libc::c_int,
    signal: Option<libc::c_int>,
)
    requires
        call_ensures(shutdown_signal, (pending, child_exit), signal),
    ensures
        signal is None <==> forall|i: int|
            0 <= i < pending@.len() ==> #[trigger] pending@[i] == child_exit,
        forall|i: int|
            #![trigger pending@[i]]
            0 <= i < pending@.len() && pending@[i] != child_exit && (forall|j: int|
                0 <= j < i ==> #[trigger] pending@[j] == child_exit) ==> signal == Some(
                pending@[i],
            ),
{
    signals::law_first_shutdown(pending@, child_exit);
}

/// What the supervisor does when it wakes up with signals: the first request to stop
/// has the worker terminated and starts the ten seconds it has, and nothing else
/// changes anything.
pub proof fn law_on_signals()
    ensures
        forall|
            supervised: &mut Supervised,
            pending: &[libc::c_int],
            now_ns: u128,
            action: SuperviseAction,
        |
            #[trigger] call_ensures(
                Supervised::on_wakeup,
                (supervised, Some(pending), now_ns),
                action,
            ) ==> {
                let before = *supervised;
                let after = *final(supervised);
                if before.shutting_down || (forall|i: int|
                    0 <= i < pending@.len() ==> #[trigger] pending@[i] == before.child_exit) {
                    action is Wait && after == before
                } else {
                    &&& action is Terminate
                    &&& after.shutting_down
                    &&& after.child_exit == before.child_exit
                    &&& now_ns + 10_000_000_000 <= u128::MAX ==> after.kill_deadline == Some(
                        (now_ns + 10_000_000_000) as u128,
                    )
                }
            },
{
    assert forall|
        supervised: &mut Supervised,
        pending: &[libc::c_int],
        now_ns: u128,
        action: SuperviseAction,
    | #[trigger] call_ensures(
        Supervised::on_wakeup,
        (supervised, Some(pending), now_ns),
        action,
    ) implies {
        let before = *supervised;
        let after = *final(supervised);
        if before.shutting_down || (forall|i: int|
            0 <= i < pending@.len() ==> #[trigger] pending@[i] == before.child_exit) {
            action is Wait && after == before
        } else {
            &&& action is Terminate
            &&& after.shutting_down
            &&& after.child_exit == before.child_exit
            &&& now_ns + 10_000_000_000 <= u128::MAX ==> after.kill_deadline == Some(
                (now_ns + 10_000_000_000) as u128,
            )
        }
    } by {
        signals::law_first_shutdown(pending@, supervised.child_exit);
    }
}

/// What the supervisor does when it wakes up without a signal: a worker that has had
/// its time is killed, once.
pub proof fn law_on_timeout()
    ensures
        forall|supervised: &mut Supervised, now_ns: u128, action: SuperviseAction|
            #[trigger] call_ensures(
                Supervised::on_wakeup,
                (supervised, None::<&[libc::c_int]>, now_ns),
                action,
            ) ==> {
                let before = *supervised;
                let after = *final(supervised);
                let late = before.kill_deadline matches Some(deadline_ns) && now_ns >= deadline_ns;
                &&& action is Kill <==> late
                &&& action is Wait <==> !late
                &&& late ==> after.kill_deadline is None && after.shutting_down
                    == before.shutting_down && after.child_exit == before.child_exit
                &&& !late ==> after == before
            },
{
}

// ---- Time ----

/// A wait until a deadline: the milliseconds that are left, as far as an `int` can say.
pub proof fn law_ms_until(deadline_ns: u128, now_ns: u128, millis: i32)
    requires
        call_ensures(ms_until, (deadline_ns, now_ns), millis),
    ensures
        deadline_ns <= now_ns ==> millis == 0,
        deadline_ns > now_ns ==> {
            &&& 0 <= millis
            &&& millis * 1_000_000 <= deadline_ns - now_ns
            &&& millis < i32::MAX ==> deadline_ns - now_ns < (millis + 1) * 1_000_000
        },
{
    deadline::law_wait_reaches_the_deadline(now_ns as int, deadline_ns as int);
}

/// Seconds have passed once the clock says so, and not before.
pub proof fn law_has_passed(start_ns: u128, seconds: u64, now_ns: u128, passed: bool)
    requires
        call_ensures(has_passed, (start_ns, seconds, now_ns), passed),
    ensures
        passed <==> seconds == 0 || now_ns - start_ns >= seconds * 1_000_000_000,
{
    deadline::law_seconds_pass(start_ns as int, seconds, now_ns as int);
}

/// A wait until seconds have passed since some point.
pub proof fn law_ms_until_passed(start_ns: u128, seconds: u64, now_ns: u128, millis: i32)
    requires
        call_ensures(ms_until_passed, (start_ns, seconds, now_ns), millis),
        start_ns <= now_ns,
    ensures
        ({
            let due_ns = start_ns + seconds * 1_000_000_000;
            &&& due_ns <= now_ns ==> millis == 0
            &&& due_ns > now_ns ==> {
                &&& 0 <= millis
                &&& now_ns + millis * 1_000_000 <= due_ns
                &&& millis < i32::MAX ==> due_ns < now_ns + (millis + 1) * 1_000_000
            }
        }),
{
    deadline::law_wait_until_seconds_pass(start_ns as int, seconds, now_ns as int);
}

/// What a header field of 32 bits shows of a clock.
pub proof fn law_clock_fields(seconds: u64, millis: u128, unix_secs: u32, uptime_ms: u32)
    requires
        call_ensures(seconds_field, (Some(seconds),), unix_secs),
        call_ensures(uptime_field, (millis,), uptime_ms),
    ensures
        (seconds - unix_secs) % 0x1_0000_0000 == 0,
        (millis - uptime_ms) % 0x1_0000_0000 == 0,
{
    crate::clock::law_readings_wrap(seconds, millis);
}

/// A buffer size is asked for as it is, or as the largest there is.
pub proof fn law_buffer_size(size: usize, fitted: libc::c_int)
    requires
        call_ensures(buffer_size, (size,), fitted),
    ensures
        0 <= fitted,
        fitted <= size,
        fitted == size || fitted == 0x7fff_ffff,
{
}

// ---- Decoding ----

/// Whatever a message says of a session and whatever it leaves out, what is parsed is
/// what it says, and zero for the rest, if the status says that an address was
/// translated; otherwise nothing is.
pub proof fn law_parse_nla_tree(
    nat_event: NatEventType,
    data: &[u8],
    order: ByteOrder,
    event: Option<ConntrackEvent>,
    parts: EventParts,
)
    requires
        call_ensures(parse_nla_tree, (nat_event, data, order), event),
        data@ == netlink::reading::event_layout(order, parts),
    ensures
        event == (match parts.status {
            Some(status) if (status / 16) % 4 != 0 => Some(
                netlink::reading::event_of_parts(nat_event, parts),
            ),
            _ => None,
        }),
{
    netlink::reading::law_parts_read_back(order, nat_event, parts);
}

/// Where what is parsed comes from, whatever the data hold.
pub proof fn law_parsed_values(
    nat_event: NatEventType,
    data: &[u8],
    order: ByteOrder,
    event: ConntrackEvent,
)
    requires
        call_ensures(parse_nla_tree, (nat_event, data, order), Some(event)),
    ensures
        ({
            let attributes = parser::attributes(data@, order);
            let orig = parser::nested(attributes, 1, order);
            let reply = parser::nested(attributes, 2, order);
            let sent = parser::nested(attributes, 9, order);
            let returned = parser::nested(attributes, 10, order);
            let orig_addrs = parser::nested(orig, 1, order);
            let orig_ports = parser::nested(orig, 2, order);
            let reply_addrs = parser::nested(reply, 1, order);
            let reply_ports = parser::nested(reply, 2, order);
            &&& event.nat_event == nat_event
            &&& netlink::reading::is_address(event.src_ip, orig_addrs, 1)
            &&& netlink::reading::is_address(event.dst_ip, orig_addrs, 2)
            &&& netlink::reading::is_number(event.protocol as int, orig_ports, 1, 1)
            &&& netlink::reading::is_number(event.src_port as int, orig_ports, 2, 2)
            &&& netlink::reading::is_number(event.dst_port as int, orig_ports, 3, 2)
            &&& netlink::reading::is_address(event.post_nat_dst_ip, reply_addrs, 1)
            &&& netlink::reading::is_address(event.post_nat_src_ip, reply_addrs, 2)
            &&& netlink::reading::is_number(event.post_nat_dst_port as int, reply_ports, 2, 2)
            &&& netlink::reading::is_number(event.post_nat_src_port as int, reply_ports, 3, 2)
            &&& netlink::reading::is_number(event.orig_packets as int, sent, 1, 8)
            &&& netlink::reading::is_number(event.orig_bytes as int, sent, 2, 8)
            &&& netlink::reading::is_number(event.reply_packets as int, returned, 1, 8)
            &&& netlink::reading::is_number(event.reply_bytes as int, returned, 2, 8)
        }),
{
    let attributes = parser::attributes(data@, order);
    netlink::reading::law_what_is_reported(nat_event, attributes, order);
    netlink::reading::law_where_values_come_from(nat_event, attributes, order);
}

/// A datagram that opens with a message about a new or a gone IPv4 session yields the
/// event the message makes up, if an address was translated, and then what the rest of
/// the datagram yields.
pub proof fn law_parse_datagram(
    buf: &[u8],
    rest: &[u8],
    order: ByteOrder,
    found: Vec<ConntrackEvent>,
    behind: Vec<ConntrackEvent>,
    nat_event: NatEventType,
    parts: EventParts,
)
    requires
        call_ensures(parse_conntrack_messages_in, (buf, order), found),
        call_ensures(parse_conntrack_messages_in, (rest, order), behind),
        buf@ == netlink::laws::message_bytes(
            order,
            (match nat_event {
                NatEventType::Create => 0x100u16,
                NatEventType::Delete => 0x102u16,
            }),
            2,
            netlink::reading::event_layout(order, parts),
        ) + rest@,
    ensures
        found@ == (match parts.status {
            Some(status) if (status / 16) % 4 != 0 => seq![
                netlink::reading::event_of_parts(nat_event, parts),
            ],
            _ => Seq::empty(),
        }) + behind@,
{
    netlink::reading::law_message_of_parts_reads_back(order, nat_event, parts, rest@);
}

/// Datagrams of the kernel are in the order of the machine.
pub proof fn law_parse_in_native_order(
    buf: &[u8],
    found: Vec<ConntrackEvent>,
    same: Vec<ConntrackEvent>,
)
    requires
        call_ensures(parse_conntrack_messages, (buf,), found),
        call_ensures(parse_conntrack_messages_in, (buf, bytes::native_order()), same),
    ensures
        found@ == same@,
{
}

// ---- Records ----

/// The value of an event that each source names.
pub proof fn law_value_of(source: FieldSource, event: ConntrackEvent, value: Value)
    requires
        call_ensures(value_of, (source, &event), value),
    ensures
        value == (match source {
            FieldSource::NatEvent => Value::Byte(reading::nat_event_byte(event)),
            FieldSource::Protocol => Value::Byte(event.protocol),
            FieldSource::SrcIp => Value::Addr(event.src_ip),
            FieldSource::DstIp => Value::Addr(event.dst_ip),
            FieldSource::SrcPort => Value::Port(event.src_port),
            FieldSource::DstPort => Value::Port(event.dst_port),
            FieldSource::PostNatSrcIp => Value::Addr(event.post_nat_src_ip),
            FieldSource::PostNatSrcPort => Value::Port(event.post_nat_src_port),
            FieldSource::PostNatDstIp => Value::Addr(event.post_nat_dst_ip),
            FieldSource::PostNatDstPort => Value::Port(event.post_nat_dst_port),
            FieldSource::OrigBytes => Value::Counter(event.orig_bytes),
            FieldSource::OrigPackets => Value::Counter(event.orig_packets),
            FieldSource::ReplyBytes => Value::Counter(event.reply_bytes),
            FieldSource::ReplyPackets => Value::Counter(event.reply_packets),
        }),
{
}

/// The largest number that so many bytes can spell.
pub proof fn law_counter_max(len: usize, max: u64)
    requires
        call_ensures(counter_max, (len,), max),
        len <= 8,
    ensures
        max + 1 == vstd::arithmetic::power::pow(256, len as nat),
{
    reveal_with_fuel(vstd::arithmetic::power::pow, 9);
    vstd::arithmetic::power::lemma_pow_positive(256, len as nat);
}

/// Writing a record of a configuration puts it where it belongs and touches no other
/// byte, and counts the counters that do not fit four bytes where they have four.
pub proof fn law_write_record(
    protocol: Protocol,
    profile: Profile,
    width: CounterWidth,
    event: ConntrackEvent,
)
    ensures
        forall|buf: &mut [u8], offset: &mut usize, fields: &[ResolvedField], saturated: u64|
            #[trigger] call_ensures(write_record, (buf, offset, fields, &event), saturated)
                && fields@ == reading::fields_of(protocol, profile, width) && *offset
                + reading::record_len_of(profile, width) <= buf@.len() ==> {
                let start = *offset as int;
                let end = start + reading::record_len_of(profile, width);
                &&& *final(offset) == end
                &&& final(buf)@.len() == buf@.len()
                &&& final(buf)@.subrange(start, end) == reading::record_of(
                    protocol,
                    profile,
                    width,
                    event,
                )
                &&& final(buf)@.take(start) == buf@.take(start)
                &&& final(buf)@.skip(end) == buf@.skip(end)
                &&& saturated == (if width is Four {
                    reading::wide_counters(event)
                } else {
                    0
                })
            },
{
    let fields = reading::fields_of(protocol, profile, width);
    let record = reading::record_of(protocol, profile, width, event);
    reading::law_clamped_counters(protocol, profile, width, event);
    crate::export::template::law_configuration_sizes(protocol, profile, width);
    assert forall|i: int| 0 <= i < fields.len() implies (#[trigger] fields[i]).writable() by {
        assert(fields[i].wf(protocol));
    }
    crate::export::record::lemma_record_len(fields, event);
    assert forall|base: Seq<u8>, at: int|
        0 <= at && at + record.len() <= base.len() implies ({
        let written = #[trigger] bytes::overwrite(base, at, record);
        &&& written.len() == base.len()
        &&& written.subrange(at, at + record.len()) == record
        &&& written.take(at) == base.take(at)
        &&& written.skip(at + record.len()) == base.skip(at + record.len())
    }) by {
        let written = bytes::overwrite(base, at, record);
        assert(written.subrange(at, at + record.len()) == record);
        assert(written.take(at) == base.take(at));
        assert(written.skip(at + record.len()) == base.skip(at + record.len()));
    }
}

// ---- Messages ----

/// What the calls of an encoder do to the message it is building.
pub proof fn law_encoder_calls()
    ensures
        forall|encoder: &mut Encoder, include_template: bool|
            #[trigger] call_ensures(Encoder::begin_message, (encoder, include_template), ()) ==> (
            *encoder)@.begins(include_template, (*final(encoder))@),
        forall|encoder: &mut Encoder, event: &ConntrackEvent, added: bool|
            #[trigger] call_ensures(Encoder::add_record, (encoder, event), added) ==> {
                &&& added == (*encoder)@.has_room()
                &&& added ==> (*final(encoder))@ == (*encoder)@.with_record(*event)
                &&& !added ==> (*final(encoder))@ == (*encoder)@
            },
        forall|encoder: &mut Encoder, unix_secs: u32, uptime_ms: u32, sent: (&[u8], u32)|
            #[trigger] call_ensures(Encoder::finalize_at, (encoder, unix_secs, uptime_ms), sent)
                ==> {
                &&& sent.0@ == (*encoder)@.message(unix_secs, uptime_ms)
                &&& sent.1 == (*encoder)@.records
                &&& (*final(encoder))@ == (*encoder)@.finished(unix_secs, uptime_ms)
            },
{
}

/// One event through an encoder: a message that is begun, given the event and finished
/// is a header, the template if it was asked for, and a data set that holds the record
/// of that event alone.
pub proof fn law_one_event_in_a_message()
    ensures
        forall|
            begun: &mut Encoder,
            include_template: bool,
            given: &mut Encoder,
            event: &ConntrackEvent,
            added: bool,
            finished: &mut Encoder,
            unix_secs: u32,
            uptime_ms: u32,
            sent: (&[u8], u32),
        |
            #[trigger] call_ensures(Encoder::begin_message, (begun, include_template), ())
                && #[trigger] call_ensures(Encoder::add_record, (given, event), added)
                && #[trigger] call_ensures(
                Encoder::finalize_at,
                (finished, unix_secs, uptime_ms),
                sent,
            ) && (*begun)@.wf() && worker::is_resolved((*begun)@.template) && *given == *final(begun)
                && *finished == *final(given) ==> {
                let view = (*begun)@;
                let start = reading::header_len_of(view.template.protocol);
                let at = start + (if include_template {
                    reading::template_len_of(view.template.protocol, view.template.profile)
                } else {
                    0
                });
                &&& added
                &&& sent.1 == 1
                &&& reading::header_reads(
                    sent.0@,
                    view.template.protocol,
                    view.domain,
                    view.sequence,
                    1 + (if include_template {
                        1int
                    } else {
                        0
                    }),
                    unix_secs,
                    uptime_ms,
                )
                &&& include_template ==> sent.0@.subrange(start, at)
                    == encoder::template_set_bytes(view.template)
                &&& reading::data_set_reads(sent.0@, at, view.template, seq![*event])
            },
{
    assert forall|
        begun: &mut Encoder,
        include_template: bool,
        given: &mut Encoder,
        event: &ConntrackEvent,
        added: bool,
        finished: &mut Encoder,
        unix_secs: u32,
        uptime_ms: u32,
        sent: (&[u8], u32),
    |
        #[trigger] call_ensures(Encoder::begin_message, (begun, include_template), ())
            && #[trigger] call_ensures(Encoder::add_record, (given, event), added)
            && #[trigger] call_ensures(
            Encoder::finalize_at,
            (finished, unix_secs, uptime_ms),
            sent,
        ) && (*begun)@.wf() && worker::is_resolved((*begun)@.template) && *given == *final(begun)
            && *finished == *final(given) implies ({
        let view = (*begun)@;
        let start = reading::header_len_of(view.template.protocol);
        let at = start + (if include_template {
            reading::template_len_of(view.template.protocol, view.template.profile)
        } else {
            0
        });
        &&& added
        &&& sent.1 == 1
        &&& reading::header_reads(
            sent.0@,
            view.template.protocol,
            view.domain,
            view.sequence,
            1 + (if include_template {
                1int
            } else {
                0
            }),
            unix_secs,
            uptime_ms,
        )
        &&& include_template ==> sent.0@.subrange(start, at) == encoder::template_set_bytes(
            view.template,
        )
        &&& reading::data_set_reads(sent.0@, at, view.template, seq![*event])
    }) by {
        lemma_one_event(
            (*begun)@,
            include_template,
            (*given)@,
            *event,
            unix_secs,
            uptime_ms,
        );
    }
}

proof fn lemma_one_event(
    before: EncoderView,
    include_template: bool,
    begun: EncoderView,
    event: ConntrackEvent,
    unix_secs: u32,
    uptime_ms: u32,
)
    requires
        before.wf(),
        worker::is_resolved(before.template),
        before.begins(include_template, begun),
    ensures
        begun.has_room(),
        ({
            let view = before;
            let message = begun.with_record(event).message(unix_secs, uptime_ms);
            let start = reading::header_len_of(view.template.protocol);
            let at = start + (if include_template {
                reading::template_len_of(view.template.protocol, view.template.profile)
            } else {
                0
            });
            &&& begun.with_record(event).records == 1
            &&& reading::header_reads(
                message,
                view.template.protocol,
                view.domain,
                view.sequence,
                1 + (if include_template {
                    1int
                } else {
                    0
                }),
                unix_secs,
                uptime_ms,
            )
            &&& include_template ==> message.subrange(start, at) == encoder::template_set_bytes(
                view.template,
            )
            &&& reading::data_set_reads(message, at, view.template, seq![event])
        }),
{
    let template = before.template;
    let events = seq![event];
    assert(events.drop_last() == Seq::<ConntrackEvent>::empty());
    reading::law_sizes(
        template,
        template.protocol,
        template.profile,
        template.counter_width,
        template.template_id,
        1,
    );
    encoder::lemma_template_set_len(template);
    laws::lemma_first_record_fits(template);
    reading::law_what_a_message_takes(
        before,
        include_template,
        begun,
        events,
        template.protocol,
        template.profile,
        template.counter_width,
        template.template_id,
    );
    reveal_with_fuel(EncoderView::accepts_all, 2);
    reveal_with_fuel(EncoderView::with_records, 2);
    assert(begun.with_records(events) == begun.with_record(event));
    reading::law_finished_message_reads(
        before,
        include_template,
        begun,
        events,
        unix_secs,
        uptime_ms,
    );
}

/// What the calls of the fixed encoder do to the message it is building.
pub proof fn law_fixed_encoder_calls()
    ensures
        forall|fixed: &mut IpfixEncoder, include_template: bool|
            #[trigger] call_ensures(IpfixEncoder::begin_message, (fixed, include_template), ())
                ==> (*fixed)@.begins(include_template, (*final(fixed))@),
        forall|fixed: &mut IpfixEncoder, event: &ConntrackEvent, added: bool|
            #[trigger] call_ensures(IpfixEncoder::add_record, (fixed, event), added) ==> {
                &&& added == (*fixed)@.has_room()
                &&& added ==> (*final(fixed))@ == (*fixed)@.with_record(*event)
                &&& !added ==> (*final(fixed))@ == (*fixed)@
            },
        forall|fixed: &mut IpfixEncoder, export_time: u32, sent: (&[u8], u32)|
            #[trigger] call_ensures(IpfixEncoder::finalize_at, (fixed, export_time), sent) ==> {
                &&& sent.0@ == (*fixed)@.message(export_time)
                &&& sent.1 == (*fixed)@.records
                &&& (*final(fixed))@ == (*fixed)@.finished(export_time)
            },
{
}

// ---- The event loop ----

/// A new worker asks for the template, and has everything else before it.
pub proof fn law_new_worker(
    settings: ExportSettings,
    domain: u32,
    nl_drops: u64,
    now_ns: u128,
    worker: Worker,
)
    requires
        call_ensures(Worker::new, (settings, domain, nl_drops, now_ns), worker),
    ensures
        worker@.include_template,
        !worker@.active,
        !worker@.carries_template,
        worker@.pending.len() == 0,
        worker@.sequence == 0,
        worker@.domain == domain,
        worker@.template == settings.template,
        worker@.template_interval == settings.template_interval,
        worker@.last_template_ns == now_ns,
        worker@.last_stats_ns == now_ns,
        worker@.counters.nl_drops == nl_drops,
        worker@.counters.send_errors == 0,
        worker@.counters.truncated == 0,
        worker@.counters.foreign == 0,
        worker@.counters.clamped == 0,
        worker@.reported == worker@.counters,
        worker@.consistent(),
{
    worker::law_workers_are_consistent(&worker);
}

/// Every call of a worker is a turn of a run, so that what holds of runs holds of it.
pub proof fn law_calls_are_turns()
    ensures
        forall|worker: &mut Worker, now_ns: u128|
            #[trigger] call_ensures(Worker::tick, (worker, now_ns), ()) ==> (Turn {
                before: (*worker)@,
                call: Call::Tick { now_ns },
                out: None,
                after: (*final(worker))@,
            }).allowed(),
        forall|worker: &mut Worker, datagram: &Datagram, now_ns: u128, parse: bool|
            #[trigger] call_ensures(Worker::on_datagram, (worker, datagram, now_ns), parse) ==> {
                &&& parse <==> datagram.len > 0
                &&& (Turn {
                    before: (*worker)@,
                    call: Call::Datagram { datagram: *datagram, now_ns },
                    out: None,
                    after: (*final(worker))@,
                }).allowed()
            },
        forall|worker: &mut Worker, event: &ConntrackEvent, now_ns: u128, out: Option<Outgoing>|
            #[trigger] call_ensures(Worker::on_event, (worker, event, now_ns), out) ==> (Turn {
                before: (*worker)@,
                call: Call::Event { event: *event, now_ns },
                out,
                after: (*final(worker))@,
            }).allowed(),
        forall|worker: &mut Worker, out: Option<Outgoing>|
            #[trigger] call_ensures(Worker::flush, (worker,), out) ==> (Turn {
                before: (*worker)@,
                call: Call::Flush,
                out,
                after: (*final(worker))@,
            }).allowed(),
        forall|worker: &mut Worker|
            #[trigger] call_ensures(Worker::on_send_failed, (worker,), ()) ==> (Turn {
                before: (*worker)@,
                call: Call::SendFailed,
                out: None,
                after: (*final(worker))@,
            }).allowed(),
        forall|worker: &mut Worker, nl_drops: u64, now_ns: u128, report: Option<StatsReport>|
            #[trigger] call_ensures(Worker::report, (worker, nl_drops, now_ns), report) ==> {
                &&& report == (*worker)@.looked(nl_drops, now_ns).0
                &&& (Turn {
                    before: (*worker)@,
                    call: Call::Report { nl_drops, now_ns },
                    out: None,
                    after: (*final(worker))@,
                }).allowed()
            },
{
}

/// What a worker does after a wait: it stops if a signal is pending, whatever else there
/// is; otherwise it receives if there is something to; otherwise it goes on waiting. It
/// flushes what it has unless it receives.
pub proof fn law_after_poll()
    ensures
        forall|worker: &mut Worker, pending: &[libc::c_int], ready: bool, next: AfterPoll|
            #[trigger] call_ensures(Worker::after_poll, (worker, pending, ready), next) ==> {
                let before = (*worker)@;
                let after = (*final(worker))@;
                &&& next is Stop <==> pending@.len() > 0
                &&& next is Receive <==> pending@.len() == 0 && ready
                &&& next is Wait <==> pending@.len() == 0 && !ready
                &&& match next {
                    AfterPoll::Receive => after == before,
                    AfterPoll::Stop(out) => (Turn {
                        before,
                        call: Call::Flush,
                        out,
                        after,
                    }).allowed(),
                    AfterPoll::Wait(out) => (Turn {
                        before,
                        call: Call::Flush,
                        out,
                        after,
                    }).allowed(),
                }
            },
{
}

/// A worker waits a tenth of a second while it is building a message. Otherwise it
/// waits until the template or the next look at drops and errors is due, whichever
/// comes first, and no longer.
pub proof fn law_poll_timeout(worker: Worker, now_ns: u128, timeout: i32)
    requires
        call_ensures(Worker::poll_timeout, (&worker, now_ns), timeout),
        worker@.last_template_ns <= now_ns,
        worker@.last_stats_ns <= now_ns,
    ensures
        worker@.active ==> timeout == 100,
        !worker@.active ==> {
            let template_ns = worker@.last_template_ns + worker@.template_interval
                * 1_000_000_000;
            let stats_ns = worker@.last_stats_ns + 10_000_000_000;
            let due_ns = if template_ns <= stats_ns {
                template_ns
            } else {
                stats_ns
            };
            &&& due_ns <= now_ns ==> timeout == 0
            &&& due_ns > now_ns ==> {
                &&& 0 <= timeout
                &&& now_ns + timeout * 1_000_000 <= due_ns
                &&& timeout < i32::MAX ==> due_ns < now_ns + (timeout + 1) * 1_000_000
            }
        },
{
    deadline::law_wait_until_seconds_pass(
        worker@.last_template_ns as int,
        worker@.template_interval,
        now_ns as int,
    );
    deadline::law_wait_until_seconds_pass(worker@.last_stats_ns as int, 10, now_ns as int);
}

/// Drops and errors are looked at every ten seconds.
pub proof fn law_stats_due(worker: Worker, now_ns: u128, due: bool)
    requires
        call_ensures(Worker::stats_due, (&worker, now_ns), due),
    ensures
        due <==> now_ns - worker@.last_stats_ns >= 10_000_000_000,
{
    deadline::law_seconds_pass(worker@.last_stats_ns as int, 10, now_ns as int);
}

// ---- Settings ----

/// Settings are accepted exactly if the counter width is four or eight, the template ID
/// is at least 256, and the interval is at least a second, and then they are kept.
pub proof fn law_validate(
    options: ExportOptions,
    settings: Result<ExportSettings, ConfigError>,
)
    requires
        call_ensures(ExportOptions::validate, (&options,), settings),
    ensures
        settings is Ok <==> (options.counter_width == 4 || options.counter_width == 8)
            && options.template_id >= 256 && options.template_interval >= 1,
        settings matches Ok(settings) ==> {
            &&& settings.template_interval == options.template_interval
            &&& settings.template.protocol == options.protocol
            &&& settings.template.profile == options.profile
            &&& settings.template.template_id == options.template_id
            &&& reading::counter_len(settings.template.counter_width) == options.counter_width
            &&& settings.template.fields@ == reading::fields_of(
                options.protocol,
                options.profile,
                settings.template.counter_width,
            )
        },
        settings matches Err(error) ==> {
            &&& error is CounterWidth <==> options.counter_width != 4 && options.counter_width != 8
            &&& error matches ConfigError::CounterWidth(error) ==> error.bytes
                == options.counter_width
            &&& error is TemplateInterval ==> options.template_interval == 0
                && options.template_id >= 256
            &&& error matches ConfigError::Template(TemplateError::ReservedTemplateId(id)) ==> id
                == options.template_id && id < 256
        },
{
    config::law_refusals(options);
    if let Ok(settings) = settings {
        config::law_settings_are_kept(options, settings);
    }
}

/// Nothing is done for options that are refused, and for others everything is that they
/// ask for, in order.
pub proof fn law_plan(options: StartupOptions, startup: Result<Startup, ConfigError>)
    requires
        call_ensures(StartupOptions::plan, (&options,), startup),
    ensures
        startup is Ok <==> (options.export.counter_width == 4 || options.export.counter_width
            == 8) && options.export.template_id >= 256 && options.export.template_interval >= 1,
        startup matches Ok(startup) ==> {
            let n = startup.steps@.len() as int;
            &&& n == (if options.no_sysctl {
                3int
            } else {
                5
            })
            &&& startup.steps@[n - 3] is Signals
            &&& startup.steps@[n - 2] matches StartupStep::Collector(size) && size
                == crate::startup::as_int(options.send_buf)
            &&& startup.steps@[n - 1] matches StartupStep::Events(size) && size
                == crate::startup::as_int(options.recv_buf)
            &&& startup.settings.template.protocol == options.export.protocol
            &&& startup.settings.template.profile == options.export.profile
            &&& startup.settings.template.template_id == options.export.template_id
            &&& startup.settings.template_interval == options.export.template_interval
        },
{
    config::law_refusals(options.export);
    if let Ok(startup) = startup {
        crate::startup::law_startup_steps(options, startup.steps@);
        config::law_settings_are_kept(options.export, startup.settings);
    }
}

/// How many records a message takes beside the template: so many that it fits in 1472
/// bytes with them, and not with one more.
pub proof fn law_max_records(template: Template, records: usize)
    requires
        call_ensures(Template::max_records_per_message, (&template,), records),
        worker::is_resolved(template),
    ensures
        ({
            let fixed = reading::header_len_of(template.protocol) + reading::template_len_of(
                template.protocol,
                template.profile,
            );
            let size = reading::record_len_of(template.profile, template.counter_width);
            &&& records > 0 ==> fixed + reading::padded_len(template.protocol, 4 + records * size)
                <= 1472
            &&& fixed + reading::padded_len(template.protocol, 4 + (records + 1) * size) > 1472
        }),
{
    reading::law_sizes(
        template,
        template.protocol,
        template.profile,
        template.counter_width,
        template.template_id,
        records as nat,
    );
    reading::law_sizes(
        template,
        template.protocol,
        template.profile,
        template.counter_width,
        template.template_id,
        (records + 1) as nat,
    );
}

/// A template is made of every configuration whose template ID is not reserved, and it
/// is the one of that configuration.
pub proof fn law_resolve(
    protocol: Protocol,
    profile: Profile,
    width: CounterWidth,
    template_id: u16,
    template: Result<Template, TemplateError>,
)
    requires
        call_ensures(Template::resolve, (protocol, profile, width, template_id), template),
    ensures
        template is Ok <==> template_id >= 256,
        template matches Err(TemplateError::ReservedTemplateId(id)) ==> id == template_id,
        template matches Ok(template) ==> {
            &&& template.template_id == template_id
            &&& template.protocol == protocol
            &&& template.profile == profile
            &&& template.counter_width == width
            &&& template.record_size == reading::record_len_of(profile, width)
            &&& template.fields@ == reading::fields_of(protocol, profile, width)
        },
{
    if let Ok(template) = template {
        reading::law_sizes(template, protocol, profile, width, template_id, 0);
    }
}

/// Four and eight are the widths there are.
pub proof fn law_counter_widths(bytes: u8, width: Result<CounterWidth, CounterWidthError>)
    requires
        call_ensures(CounterWidth::from_bytes, (bytes,), width),
    ensures
        width is Ok <==> bytes == 4 || bytes == 8,
        width matches Ok(width) ==> reading::counter_len(width) == bytes,
        width matches Err(error) ==> error.bytes == bytes,
{
}

// ---- Kernel settings ----

/// A setting is written exactly if what it reads, apart from white space around it, is
/// not the value it is to have, and then that value is written on a line of its own.
pub proof fn law_sysctl_update(
    current: &str,
    value: &str,
    update: Option<String>,
    front: Seq<char>,
    reads: Seq<char>,
    back: Seq<char>,
)
    requires
        call_ensures(sysctl_update, (current, value), update),
        current@ == front + reads + back,
        forall|i: int| 0 <= i < front.len() ==> sysctl::is_white_space(#[trigger] front[i]),
        forall|i: int| 0 <= i < back.len() ==> sysctl::is_white_space(#[trigger] back[i]),
        reads.len() > 0 ==> !sysctl::is_white_space(reads[0]) && !sysctl::is_white_space(
            reads[reads.len() - 1],
        ),
    ensures
        update is None <==> reads == value@,
        update matches Some(line) ==> line@ == value@.push('\n'),
{
    sysctl::law_trimming(front, reads, back);
    reveal_strlit("\n");
    if let Some(line) = update {
        assert(line@ == value@.push('\n'));
    }
}

// ---- The event socket ----

/// The drops are the ninth of the values the kernel reports, and none if it could not be
/// asked.
pub proof fn law_drops(ret: libc::c_int, meminfo: [u32; 9], drops: u64)
    requires
        call_ensures(drops_from, (ret, &meminfo), drops),
    ensures
        ret < 0 ==> drops == 0,
        ret >= 0 ==> drops == meminfo@[8],
{
}

/// A descriptor is readable if the lowest bit of what was found says so.
pub proof fn law_readable(revents: i16, readable: bool, ret: libc::c_int, found: bool)
    requires
        call_ensures(is_readable, (revents,), readable),
        call_ensures(poll_found_data, (ret, revents), found),
    ensures
        revents >= 0 ==> (readable <==> revents % 2 == 1),
        found <==> ret > 0 && readable,
{
    assert(revents >= 0 ==> (revents & 1 != 0 <==> revents % 2 == 1)) by (bit_vector);
}

/// The socket is drained as long as anything comes, and only a failure that is neither an
/// empty socket nor an interruption is reported.
pub proof fn law_after_receive(outcome: ReceiveOutcome, next: ReceiveMove)
    requires
        call_ensures(after_receive, (outcome,), next),
    ensures
        next is ReceiveAgain <==> (outcome matches ReceiveOutcome::Filled(slots) && slots > 0),
        next is Report <==> outcome is Failed,
{
}

/// A buffer is asked for again only if it could not be forced, and a warning is due only if
/// it could not be had at all.
pub proof fn law_buffer_options(forced: bool, ret: libc::c_int, next: BufferMove)
    requires
        call_ensures(after_buffer_option, (forced, ret), next),
    ensures
        next is Done <==> ret >= 0,
        next is FallBack <==> ret < 0 && forced,
        next is Warn <==> ret < 0 && !forced,
{
}

/// What a batch hands out of what a receive brought back: of each slot the datagram the
/// kernel reported, with as many of the slot's bytes as there are.
pub proof fn law_batches()
    ensures
        forall|
            batch: &mut ReceiveBatch,
            storage: Vec<u8>,
            received: Vec<Received>,
            asked: &ReceiveBatch,
            index: usize,
            slot: (Datagram, &[u8]),
        |
            #[trigger] call_ensures(ReceiveBatch::accept, (batch, storage, received), ())
                && #[trigger] call_ensures(ReceiveBatch::datagram, (asked, index), slot) && *asked
                == *final(batch) && index < received@.len() && (*batch)@.slot_len <= usize::MAX
                ==> {
                let seen = received@[index as int];
                &&& slot.0.sender_portid == seen.sender_portid
                &&& slot.0.datagram_len == seen.datagram_len as usize
                &&& slot.1@.len() == slot.0.len
                &&& slot.0.len == (if seen.datagram_len as nat <= (*batch)@.slot_len {
                    seen.datagram_len as int
                } else {
                    (*batch)@.slot_len as int
                })
                &&& slot.1@ == storage@.subrange(
                    index * (*batch)@.slot_len,
                    index * (*batch)@.slot_len + slot.0.len,
                )
            },
{
}

/// Signals are read until nothing is pending, and each is kept, in order.
pub proof fn law_reading_signals()
    ensures
        forall|pending: &mut PendingSignals, read: SignalRead, next: DrainMove|
            #[trigger] call_ensures(PendingSignals::on_read, (pending, read), next) ==> {
                &&& next is ReadAgain <==> read is Signal || read is Interrupted
                &&& next is Fail <==> read is Failed
                &&& read matches SignalRead::Signal(signal) ==> final(pending).signals@
                    == pending.signals@.push(signal as libc::c_int)
                &&& !(read is Signal) ==> final(pending).signals@ == pending.signals@
            },
{
}

} // verus!
