//! What the event loop promises of any run of calls: when the template goes out,
//! what a message holds, and what is counted.

use crate::deadline;
use crate::event::ConntrackEvent;
use crate::export::encoder;
use crate::export::laws;
use crate::export::reading;
use crate::export::template::Protocol;
use crate::netlink::socket::Datagram;
use crate::worker;
use crate::worker::{Outgoing, WorkerView};
use vstd::prelude::*;

verus! {

/// A call of a worker.
pub enum Call {
    /// [`crate::worker::Worker::tick`].
    Tick { now_ns: u128 },
    /// [`crate::worker::Worker::on_datagram`].
    Datagram { datagram: Datagram, now_ns: u128 },
    /// [`crate::worker::Worker::on_event`].
    Event { event: ConntrackEvent, now_ns: u128 },
    /// [`crate::worker::Worker::flush`].
    Flush,
    /// [`crate::worker::Worker::on_send_failed`].
    SendFailed,
    /// [`crate::worker::Worker::report`].
    Report { nl_drops: u64, now_ns: u128 },
}

/// One call of a worker, with the worker before and after it, and the message that
/// came out of it, if one did.
pub struct Turn {
    pub before: WorkerView,
    pub call: Call,
    pub out: Option<Outgoing>,
    pub after: WorkerView,
}

/// The bytes of the message being built that are not its data set.
pub open spec fn used_len(view: WorkerView) -> int {
    reading::header_len_of(view.template.protocol) + (if view.carries_template {
        reading::template_len_of(view.template.protocol, view.template.profile)
    } else {
        0
    })
}

/// The size of the message being built, if it held this many records.
pub open spec fn message_len(view: WorkerView, records: nat) -> int {
    used_len(view) + (if records == 0 {
        0
    } else {
        reading::padded_len(
            view.template.protocol,
            4 + records * reading::record_len_of(
                view.template.profile,
                view.template.counter_width,
            ),
        )
    })
}

impl WorkerView {
    /// A worker that is not building a message holds no events and no template, and
    /// one that is holds no more than fits in a datagram.
    pub open spec fn consistent(self) -> bool {
        &&& worker::is_resolved(self.template)
        &&& !self.active ==> self.pending.len() == 0 && !self.carries_template
        &&& self.active ==> message_len(self, self.pending.len()) <= 1472
    }

    /// The template has not been sent for its interval.
    pub open spec fn overdue(self, now_ns: u128) -> bool {
        self.template_interval == 0 || now_ns - self.last_template_ns >= self.template_interval
            * 1_000_000_000
    }
}

impl Turn {
    /// The turn is one that the contracts of the calls allow.
    pub open spec fn allowed(self) -> bool {
        match self.call {
            Call::Tick { now_ns } => self.out is None && self.after == self.before.ticked(now_ns),
            Call::Datagram { datagram, now_ns } => self.out is None && self.after
                == self.before.noted(datagram, now_ns),
            Call::Event { event, now_ns } => self.before.takes(
                event,
                now_ns,
                self.out,
                self.after,
            ),
            Call::Flush => self.before.flushes(self.out, self.after),
            Call::SendFailed => self.out is None && self.after == self.before.send_failed(),
            Call::Report { nl_drops, now_ns } => self.out is None && self.after
                == self.before.looked(nl_drops, now_ns).1,
        }
    }

    /// When the call was, if it was told.
    pub open spec fn now(self) -> int {
        match self.call {
            Call::Tick { now_ns } => now_ns as int,
            Call::Datagram { now_ns, .. } => now_ns as int,
            Call::Event { now_ns, .. } => now_ns as int,
            Call::Report { now_ns, .. } => now_ns as int,
            _ => 0,
        }
    }

    /// A message was begun: one is being built that was not being built before, or
    /// that has the template now.
    pub open spec fn began(self) -> bool {
        self.after.active && (!self.before.active || self.out is Some || (
        self.after.carries_template && !self.before.carries_template))
    }

    /// The call looked at the clock and found the template overdue.
    pub open spec fn found_overdue(self) -> bool {
        self.call matches Call::Tick { now_ns } && self.before.overdue(now_ns)
    }
}

/// The room that a message has, by what it would be with one more record.
proof fn lemma_room(view: WorkerView)
    requires
        worker::is_resolved(view.template),
    ensures
        view.has_room() <==> message_len(view, view.pending.len() + 1) <= 1472,
        view.pending.len() > 0 && view.has_room() ==> message_len(view, view.pending.len())
            <= 1472,
        view.pending.len() == 0 ==> view.has_room(),
        view.pending.len() == 0 ==> message_len(view, 0) <= 1472,
{
    let template = view.template;
    let n = view.pending.len() + 1;
    reading::law_sizes(
        template,
        template.protocol,
        template.profile,
        template.counter_width,
        template.template_id,
        n,
    );
    reading::law_sizes(
        template,
        template.protocol,
        template.profile,
        template.counter_width,
        template.template_id,
        (n - 1) as nat,
    );
    laws::lemma_capacity_step(
        template,
        view.carries_template,
        template.protocol,
        template.profile,
        template.counter_width,
        template.template_id,
        n,
    );
    laws::lemma_first_record_fits(template);
    if view.pending.len() == 0 {
        assert((view.pending.len() + 1) * template.record_size == template.record_size)
            by (nonlinear_arith)
            requires
                view.pending.len() == 0,
        ;
    }
}

/// A message that was just begun fits.
proof fn lemma_begun(view: WorkerView, now_ns: u128)
    requires
        worker::is_resolved(view.template),
    ensures
        view.begun(now_ns).consistent(),
        view.begun(now_ns).has_room(),
{
    lemma_room(view.begun(now_ns));
}

/// What a call leaves behind is consistent, if it found it so.
pub proof fn law_turns_keep_workers_consistent(turn: Turn)
    requires
        turn.allowed(),
        turn.before.consistent(),
    ensures
        turn.after.consistent(),
{
    let before = turn.before;
    match turn.call {
        Call::Tick { now_ns } => lemma_begun(before, now_ns),
        Call::Datagram { datagram, now_ns } => lemma_begun(before, now_ns),
        Call::Event { event, now_ns } => {
            let ready = before.ready(now_ns);
            lemma_begun(before, now_ns);
            lemma_room(ready);
            lemma_begun(ready.sent(), now_ns);
            lemma_room(ready.sent().begun(now_ns));
        },
        _ => {},
    }
}

/// What never changes: the template, the domain, the interval, and the point from
/// which the uptime counts.
pub proof fn law_configuration_stays(turn: Turn)
    requires
        turn.allowed(),
    ensures
        turn.after.template == turn.before.template,
        turn.after.domain == turn.before.domain,
        turn.after.template_interval == turn.before.template_interval,
        turn.after.started == turn.before.started,
{
}

/// When a message carries the template. One that is begun does exactly if the
/// template was asked for before, or the call finds it overdue; until one is begun,
/// the template stays asked for. The time of the last template moves only when a
/// message with the template is begun, and then to the time of that call.
pub proof fn law_when_the_template_goes_out(turn: Turn)
    requires
        turn.allowed(),
        turn.before.consistent(),
    ensures
        ({
            let wanted = turn.before.include_template || turn.found_overdue();
            &&& turn.began() ==> turn.after.carries_template == wanted
            &&& turn.began() ==> !turn.after.include_template
            &&& !turn.began() ==> turn.after.include_template == wanted
            &&& turn.began() && turn.after.carries_template ==> turn.after.last_template_ns
                == turn.now()
            &&& !(turn.began() && turn.after.carries_template) ==> turn.after.last_template_ns
                == turn.before.last_template_ns
            &&& !turn.began() && turn.after.active ==> turn.after.carries_template
                == turn.before.carries_template
        }),
{
    let before = turn.before;
    match turn.call {
        Call::Tick { now_ns } => {
            deadline::law_seconds_pass(
                before.last_template_ns as int,
                before.template_interval,
                now_ns as int,
            );
            lemma_begun(before, now_ns);
        },
        Call::Event { event, now_ns } => {
            lemma_begun(before, now_ns);
            lemma_room(before);
        },
        _ => {},
    }
}

/// A worker with nothing to send that looks at the clock and finds the template
/// overdue, or asked for, has a message with the template to send: it goes out even
/// without traffic.
pub proof fn law_template_needs_no_traffic(turn: Turn, now_ns: u128)
    requires
        turn.allowed(),
        turn.before.consistent(),
        turn.call == (Call::Tick { now_ns }),
        turn.before.include_template || turn.before.overdue(now_ns),
        !turn.before.active || turn.before.pending.len() == 0,
    ensures
        turn.after.active && turn.after.carries_template,
{
    deadline::law_seconds_pass(
        turn.before.last_template_ns as int,
        turn.before.template_interval,
        now_ns as int,
    );
}

/// The turns follow one another, from a worker in good order on.
pub open spec fn is_run(turns: Seq<Turn>) -> bool {
    &&& turns.len() > 0
    &&& turns[0].before.consistent()
    &&& forall|i: int| 0 <= i < turns.len() ==> (#[trigger] turns[i]).allowed()
    &&& forall|i: int, j: int|
        0 <= i && j == i + 1 && j < turns.len() ==> (#[trigger] turns[j]).before == (
        #[trigger] turns[i]).after
}

/// When the last message with the template was begun in some turns, or `start` if
/// none was.
pub open spec fn template_begun(turns: Seq<Turn>, start: int) -> int
    decreases turns.len(),
{
    if turns.len() == 0 {
        start
    } else if turns.last().began() && turns.last().after.carries_template {
        turns.last().now()
    } else {
        template_begun(turns.drop_last(), start)
    }
}

/// In a run, every turn finds the worker in good order, and remembers when the last
/// message with the template was begun.
pub proof fn law_run_remembers_the_template(turns: Seq<Turn>, i: int)
    requires
        is_run(turns),
        0 <= i < turns.len(),
    ensures
        turns[i].before.consistent(),
        turns[i].before.last_template_ns == template_begun(
            turns.take(i),
            turns[0].before.last_template_ns as int,
        ),
        turns[i].before.template_interval == turns[0].before.template_interval,
    decreases i,
{
    if i > 0 {
        law_run_remembers_the_template(turns, i - 1);
        assert(turns[i].before == turns[i - 1].after);
        assert(turns[i - 1].allowed());
        law_turns_keep_workers_consistent(turns[i - 1]);
        law_when_the_template_goes_out(turns[i - 1]);
        law_configuration_stays(turns[i - 1]);
        assert(turns.take(i).drop_last() == turns.take(i - 1));
        assert(turns.take(i).last() == turns[i - 1]);
    }
}

/// The template asked for stays asked for until a message is begun, which then
/// carries it.
proof fn lemma_wanted_until_begun(turns: Seq<Turn>, i: int, j: int)
    requires
        is_run(turns),
        0 <= i <= j < turns.len(),
        turns[i].before.include_template || turns[i].found_overdue(),
        forall|m: int| i <= m < j ==> !(#[trigger] turns[m]).began(),
    ensures
        turns[j].before.include_template || turns[j].found_overdue(),
    decreases j - i,
{
    if i < j {
        lemma_wanted_until_begun(turns, i, j - 1);
        law_run_remembers_the_template(turns, j - 1);
        assert(!turns[j - 1].began());
        assert(turns[j - 1].allowed());
        law_when_the_template_goes_out(turns[j - 1]);
        assert(turns[j].before == turns[j - 1].after);
    }
}

/// The template is sent again at its interval, whatever the traffic: once a look at
/// the clock comes that much after the last message with the template was begun, the
/// next message to be begun carries it.
///
/// `i` is the look at the clock, and `j` the turn that begins the next message.
pub proof fn law_template_is_sent_again(turns: Seq<Turn>, i: int, j: int, now_ns: u128)
    requires
        is_run(turns),
        0 <= i <= j < turns.len(),
        turns[i].call == (Call::Tick { now_ns }),
        now_ns - template_begun(turns.take(i), turns[0].before.last_template_ns as int)
            >= turns[0].before.template_interval * 1_000_000_000,
        turns[j].began(),
        forall|m: int| i <= m < j ==> !(#[trigger] turns[m]).began(),
    ensures
        turns[j].after.carries_template,
{
    law_run_remembers_the_template(turns, i);
    law_run_remembers_the_template(turns, j);
    lemma_wanted_until_begun(turns, i, j);
    assert(turns[j].allowed());
    law_when_the_template_goes_out(turns[j]);
}

/// The first message of a worker carries the template, since a new one asks for it.
pub proof fn law_first_message_carries_the_template(turns: Seq<Turn>, j: int)
    requires
        is_run(turns),
        turns[0].before.include_template,
        0 <= j < turns.len(),
        turns[j].began(),
        forall|m: int| 0 <= m < j ==> !(#[trigger] turns[m]).began(),
    ensures
        turns[j].after.carries_template,
{
    law_run_remembers_the_template(turns, j);
    lemma_wanted_until_begun(turns, 0, j);
    assert(turns[j].allowed());
    law_when_the_template_goes_out(turns[j]);
}

/// When a message comes out: a flush yields the one being built if it holds anything,
/// and an event does if its record would take that message past 1472 bytes. Nothing
/// else yields one.
pub proof fn law_when_a_message_comes_out(turn: Turn)
    requires
        turn.allowed(),
        turn.before.consistent(),
    ensures
        turn.out is Some <==> match turn.call {
            Call::Flush => turn.before.active && (turn.before.pending.len() > 0
                || turn.before.carries_template),
            Call::Event { .. } => turn.before.active && message_len(
                turn.before,
                turn.before.pending.len() + 1,
            ) > 1472,
            _ => false,
        },
{
    if let Call::Event { event, now_ns } = turn.call {
        lemma_begun(turn.before, now_ns);
        lemma_room(turn.before);
    }
}

/// Which events are waiting after a call: a message that came out took all that were,
/// an event that was handed in waits behind those that are left, and no other call
/// touches them.
pub proof fn law_events_wait_in_order(turn: Turn)
    requires
        turn.allowed(),
        turn.before.consistent(),
    ensures
        ({
            let left = if turn.out is Some {
                Seq::empty()
            } else {
                turn.before.pending
            };
            turn.after.pending == (match turn.call {
                Call::Event { event, .. } => left.push(event),
                _ => left,
            })
        }),
{
    let before = turn.before;
    match turn.call {
        Call::Event { event, now_ns } => {
            lemma_begun(before, now_ns);
            lemma_room(before);
            if !before.active {
                assert(before.pending == Seq::<ConntrackEvent>::empty());
            }
        },
        _ => {
            if before.pending.len() == 0 {
                assert(before.pending == Seq::<ConntrackEvent>::empty());
            }
        },
    }
}

/// How a message that came out reads: its header at the places the protocol fixes,
/// with the domain and the sequence number of the worker, then the template if the
/// message carries it, then the records of the events that were waiting, in order.
/// The times in the header are whatever the clocks showed.
pub proof fn law_what_comes_out(turn: Turn) -> (times: (u32, u32))
    requires
        turn.allowed(),
        turn.before.consistent(),
        turn.out is Some,
    ensures
        ({
            let view = turn.before;
            let message = turn.out->0.data@;
            let set = encoder::template_set_bytes(view.template);
            let start = reading::header_len_of(view.template.protocol);
            let at = start + (if view.carries_template {
                set.len()
            } else {
                0
            });
            &&& turn.out->0.count == view.pending.len()
            &&& message.len() == message_len(view, view.pending.len()) <= 1472
            &&& reading::header_reads(
                message,
                view.template.protocol,
                view.domain,
                view.sequence,
                view.pending.len() + (if view.carries_template {
                    1int
                } else {
                    0
                }),
                times.0,
                times.1,
            )
            &&& at <= message.len()
            &&& view.carries_template ==> message.subrange(start, at) == set
            &&& view.pending.len() > 0 ==> reading::data_set_reads(
                message,
                at,
                view.template,
                view.pending,
            )
        }),
{
    let view = turn.before;
    let template = view.template;
    let out = turn.out->0;
    if let Call::Event { event, now_ns } = turn.call {
        lemma_begun(view, now_ns);
        lemma_room(view);
    }
    assert(view.is_message(out));
    let (unix_secs, uptime_ms) = choose|unix_secs: u32, uptime_ms: u32|
        out.data@ == #[trigger] laws::message_bytes(
            template,
            view.domain,
            view.sequence,
            view.carries_template,
            view.pending,
            unix_secs,
            uptime_ms,
        );
    reading::law_sizes(
        template,
        template.protocol,
        template.profile,
        template.counter_width,
        template.template_id,
        view.pending.len(),
    );
    encoder::lemma_template_set_len(template);
    reading::lemma_message_len(
        template,
        view.domain,
        view.sequence,
        view.carries_template,
        view.pending,
        unix_secs,
        uptime_ms,
    );
    reading::law_message_reads(
        template,
        view.domain,
        view.sequence,
        view.carries_template,
        view.pending,
        unix_secs,
        uptime_ms,
    );
    (unix_secs, uptime_ms)
}

/// The sequence number moves on only when a message comes out: by its records under
/// IPFIX, by one under NetFlow v9, and around at 2^32.
pub proof fn law_sequence_moves_with_messages(turn: Turn)
    requires
        turn.allowed(),
        turn.before.consistent(),
    ensures
        ({
            let step = match turn.before.template.protocol {
                Protocol::Ipfix => turn.before.pending.len() as int,
                Protocol::Netflow9 => 1,
            };
            &&& turn.out is None ==> turn.after.sequence == turn.before.sequence
            &&& turn.out is Some ==> turn.after.sequence == (turn.before.sequence + step)
                % 0x1_0000_0000
        }),
{
    if let Call::Event { event, now_ns } = turn.call {
        lemma_begun(turn.before, now_ns);
        lemma_room(turn.before);
    }
}

/// A flush that yields a message ends it; an event, and a datagram that holds
/// anything, leave one being built; and apart from the clock, nothing else begins or
/// ends one.
pub proof fn law_when_a_message_is_being_built(turn: Turn)
    requires
        turn.allowed(),
        turn.before.consistent(),
    ensures
        match turn.call {
            Call::Flush => turn.after.active == (turn.before.active && turn.out is None),
            Call::Event { .. } => turn.after.active,
            Call::Datagram { datagram, .. } => turn.after.active == (turn.before.active
                || datagram.len > 0),
            Call::Tick { .. } => turn.after.active == (turn.before.active
                || turn.before.include_template || turn.found_overdue()),
            _ => turn.after.active == turn.before.active,
        },
{
    if let Call::Tick { now_ns } = turn.call {
        deadline::law_seconds_pass(
            turn.before.last_template_ns as int,
            turn.before.template_interval,
            now_ns as int,
        );
    }
}

/// One more, as far as 64 bits count.
pub open spec fn one_more(count: u64) -> int {
    if count == u64::MAX {
        0
    } else {
        count + 1
    }
}

/// What is counted: a datagram that did not fit its buffer, one that another process
/// sent, a message that could not be sent, a counter that did not fit its field, each
/// once and nowhere else. The kernel's drops are what the last look at them found.
pub proof fn law_what_is_counted(turn: Turn)
    requires
        turn.allowed(),
        turn.before.consistent(),
    ensures
        ({
            let before = turn.before.counters;
            let after = turn.after.counters;
            &&& after.truncated == (match turn.call {
                Call::Datagram { datagram, .. } if datagram.datagram_len > datagram.len => one_more(
                    before.truncated,
                ),
                _ => before.truncated as int,
            })
            &&& after.foreign == (match turn.call {
                Call::Datagram { datagram, .. } if datagram.sender_portid != 0 => one_more(
                    before.foreign,
                ),
                _ => before.foreign as int,
            })
            &&& after.send_errors == (match turn.call {
                Call::SendFailed => one_more(before.send_errors),
                _ => before.send_errors as int,
            })
            &&& after.clamped == (match turn.call {
                Call::Event { event, .. } if turn.before.template.counter_width is Four => (
                before.clamped + reading::wide_counters(event)) % 0x1_0000_0000_0000_0000,
                _ => before.clamped as int,
            })
            &&& after.nl_drops == (match turn.call {
                Call::Report { nl_drops, .. } => nl_drops,
                _ => before.nl_drops,
            })
        }),
{
    let template = turn.before.template;
    if let Call::Event { event, now_ns } = turn.call {
        reading::law_clamped_counters(
            template.protocol,
            template.profile,
            template.counter_width,
            event,
        );
        reading::law_sizes(
            template,
            template.protocol,
            template.profile,
            template.counter_width,
            template.template_id,
            0,
        );
    }
}

/// What a counter has gained between two looks.
pub open spec fn gained(earlier: u64, now: u64) -> int {
    if now >= earlier {
        now - earlier
    } else {
        now - earlier + 0x1_0000_0000_0000_0000
    }
}

/// A look at drops and errors reports what each has gained since the last look, and
/// what they have come to, unless none has gained anything. It is remembered as the
/// last look, with its time, and no other call is.
pub proof fn law_what_is_reported(view: WorkerView, nl_drops: u64, now_ns: u128)
    ensures
        ({
            let (report, after) = view.looked(nl_drops, now_ns);
            let total = after.counters;
            let last = view.reported;
            let quiet = {
                &&& total.nl_drops == last.nl_drops
                &&& total.send_errors == last.send_errors
                &&& total.truncated == last.truncated
                &&& total.foreign == last.foreign
                &&& total.clamped == last.clamped
            };
            &&& after.reported == total
            &&& after.last_stats_ns == now_ns
            &&& total.nl_drops == nl_drops
            &&& report is None <==> quiet
            &&& report matches Some(report) ==> {
                &&& report.total == total
                &&& report.new.nl_drops == gained(last.nl_drops, nl_drops)
                &&& report.new.send_errors == gained(last.send_errors, total.send_errors)
                &&& report.new.truncated == gained(last.truncated, total.truncated)
                &&& report.new.foreign == gained(last.foreign, total.foreign)
                &&& report.new.clamped == gained(last.clamped, total.clamped)
            }
        }),
{
}

/// Only a look at drops and errors moves what the next one starts from.
pub proof fn law_looks_are_remembered(turn: Turn)
    requires
        turn.allowed(),
        !(turn.call is Report),
    ensures
        turn.after.reported == turn.before.reported,
        turn.after.last_stats_ns == turn.before.last_stats_ns,
{
}

} // verus!
