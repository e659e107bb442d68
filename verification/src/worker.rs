//! The event loop of the exporter, without its system calls: what to wait for,
//! what to send, and what to report.

use crate::config::ExportSettings;
use crate::deadline;
use crate::deadline::{has_passed, ms_until_passed, NANOS_PER_SEC};
use crate::event::ConntrackEvent;
use crate::export::elements::{MAX_MSG_SIZE, SET_HEADER_LEN};
use crate::export::encoder::{Encoder, EncoderView};
use crate::export::laws;
use crate::export::reading;
use crate::export::record;
use crate::export::template::{Protocol, Template};
use crate::netlink::socket::Datagram;
use crate::text;
use vstd::prelude::*;

verus! {

/// Flush timeout: if there is something to send and no new data arrives within
/// this period, it is sent.
pub const FLUSH_TIMEOUT_MS: i32 = 100;

/// Drops and errors are reported at this interval.
pub const STATS_INTERVAL_SECS: u64 = 10;

/// A message that is ready to be sent.
#[derive(Debug)]
pub struct Outgoing {
    pub data: Vec<u8>,
    /// Data records in it.
    pub count: u32,
}

/// What has gone wrong so far.
#[derive(Debug, Clone, Copy, PartialEq, Eq, Structural)]
pub struct Counters {
    /// Events the kernel dropped because the socket was full.
    pub nl_drops: u64,
    /// Messages that could not be sent.
    pub send_errors: u64,
    /// Datagrams that did not fit their buffer.
    pub truncated: u64,
    /// Datagrams that did not come from the kernel.
    pub foreign: u64,
    /// Counter values too large for their field.
    pub clamped: u64,
}

/// `a - b`, as far as 64 bits count.
pub open spec fn difference(a: u64, b: u64) -> u64 {
    ((a - b) % 0x1_0000_0000_0000_0000) as u64
}

impl Counters {
    /// What has been added since `earlier`.
    pub open spec fn since(self, earlier: Counters) -> Counters {
        Counters {
            nl_drops: difference(self.nl_drops, earlier.nl_drops),
            send_errors: difference(self.send_errors, earlier.send_errors),
            truncated: difference(self.truncated, earlier.truncated),
            foreign: difference(self.foreign, earlier.foreign),
            clamped: difference(self.clamped, earlier.clamped),
        }
    }

    pub open spec fn is_zero(self) -> bool {
        &&& self.nl_drops == 0
        &&& self.send_errors == 0
        &&& self.truncated == 0
        &&& self.foreign == 0
        &&& self.clamped == 0
    }

    /// The counters on one line, for the log.
    pub open spec fn line(self) -> Seq<char> {
        "nl_recv="@ + text::decimal(self.nl_drops as nat) + " udp_send="@ + text::decimal(
            self.send_errors as nat,
        ) + " truncated="@ + text::decimal(self.truncated as nat) + " foreign="@ + text::decimal(
            self.foreign as nat,
        ) + " clamped="@ + text::decimal(self.clamped as nat)
    }

    fn push_line(&self, out: &mut String)
        ensures
            final(out)@ == old(out)@ + self.line(),
    {
        let ghost before = out@;
        out.append("nl_recv=");
        text::push_decimal(out, self.nl_drops);
        out.append(" udp_send=");
        text::push_decimal(out, self.send_errors);
        out.append(" truncated=");
        text::push_decimal(out, self.truncated);
        out.append(" foreign=");
        text::push_decimal(out, self.foreign);
        out.append(" clamped=");
        text::push_decimal(out, self.clamped);
        assert(out@ == before + self.line());
    }
}

/// What went wrong since the last report, and in all.
#[derive(Debug, Clone, Copy, PartialEq, Eq, Structural)]
pub struct StatsReport {
    pub new: Counters,
    pub total: Counters,
}

impl StatsReport {
    /// The report on one line, for the log.
    pub fn to_string(&self) -> (line: String)
        ensures
            line@ == "drops: "@ + self.new.line() + " (total: "@ + self.total.line() + ")"@,
    {
        let mut line: String = String::new();
        line.append("drops: ");
        self.new.push_line(&mut line);
        line.append(" (total: ");
        self.total.push_line(&mut line);
        line.append(")");
        line
    }
}

/// What the worker's owner is to do after a wait.
#[derive(Debug)]
pub enum AfterPoll {
    /// Stop, once this message has been sent.
    Stop(Option<Outgoing>),
    /// Drain the event socket.
    Receive,
    /// Send this message, or nothing, and wait again.
    Wait(Option<Outgoing>),
}

/// What a worker holds.
pub struct WorkerView {
    pub template: Template,
    pub domain: u32,
    /// Reference point for NetFlow v9's sysUpTime.
    pub started: std::time::Instant,
    /// Seconds between template retransmissions.
    pub template_interval: u64,
    /// The sequence number the next message carries.
    pub sequence: u32,
    /// A message is being built.
    pub active: bool,
    /// The message being built carries the template.
    pub carries_template: bool,
    /// The events whose records the message being built holds, in order.
    pub pending: Seq<ConntrackEvent>,
    /// The next message to be begun carries the template.
    pub include_template: bool,
    /// When a message with the template was last begun.
    pub last_template_ns: u128,
    /// When drops and errors were last looked at.
    pub last_stats_ns: u128,
    /// What has gone wrong so far. The kernel's drops are those that the last
    /// look at them found.
    pub counters: Counters,
    /// What had gone wrong at the last look.
    pub reported: Counters,
}

impl WorkerView {
    /// The message being built has room for one more record.
    pub open spec fn has_room(self) -> bool {
        let template_set = if self.carries_template {
            self.template.set_len()
        } else {
            0
        };
        self.template.protocol.header_len() + template_set + SET_HEADER_LEN + (self.pending.len()
            + 1) * self.template.record_size + (self.template.protocol.set_alignment() - 1)
            <= MAX_MSG_SIZE
    }

    /// A message is being built, and it is worth sending.
    pub open spec fn has_output(self) -> bool {
        self.active && (self.pending.len() > 0 || self.carries_template)
    }

    /// `out` is the message being built: its records are those of the pending
    /// events, in order. The times in its header are whatever the clocks show.
    pub open spec fn is_message(self, out: Outgoing) -> bool {
        &&& out.count == self.pending.len()
        &&& exists|unix_secs: u32, uptime_ms: u32|
            out.data@ == #[trigger] laws::message_bytes(
                self.template,
                self.domain,
                self.sequence,
                self.carries_template,
                self.pending,
                unix_secs,
                uptime_ms,
            )
    }

    /// The worker once the message being built has been finished.
    pub open spec fn sent(self) -> WorkerView {
        let step: int = match self.template.protocol {
            Protocol::Ipfix => self.pending.len() as int,
            Protocol::Netflow9 => 1,
        };
        WorkerView {
            sequence: ((self.sequence + step) % 0x1_0000_0000) as u32,
            active: false,
            carries_template: false,
            pending: Seq::empty(),
            ..self
        }
    }

    /// `out` is what a flush yields, and `after` the worker once it is done: the
    /// message being built if it is worth sending, and otherwise nothing.
    pub open spec fn flushes(self, out: Option<Outgoing>, after: WorkerView) -> bool {
        match out {
            Some(out) => self.has_output() && self.is_message(out) && after == self.sent(),
            None => !self.has_output() && after == self,
        }
    }

    /// `out` is what an event yields, and `after` the worker once it is done: the
    /// message being built if the event's record no longer fits, and otherwise
    /// nothing. Either way the record ends up in the message being built.
    pub open spec fn takes(
        self,
        event: ConntrackEvent,
        now_ns: u128,
        out: Option<Outgoing>,
        after: WorkerView,
    ) -> bool {
        let ready = self.ready(now_ns);
        match out {
            Some(out) => {
                &&& !ready.has_room()
                &&& ready.is_message(out)
                &&& after == ready.sent().begun(now_ns).recorded(event)
            },
            None => ready.has_room() && after == ready.recorded(event),
        }
    }

    /// The worker once a new message has been begun.
    pub open spec fn begun(self, now_ns: u128) -> WorkerView {
        WorkerView {
            active: true,
            carries_template: self.include_template,
            pending: Seq::empty(),
            include_template: false,
            last_template_ns: if self.include_template {
                now_ns
            } else {
                self.last_template_ns
            },
            ..self
        }
    }

    /// The worker with a message being built, whether or not there was one.
    pub open spec fn ready(self, now_ns: u128) -> WorkerView {
        if self.active {
            self
        } else {
            self.begun(now_ns)
        }
    }

    /// The worker with the record of an event added to the message.
    pub open spec fn recorded(self, event: ConntrackEvent) -> WorkerView {
        WorkerView {
            pending: self.pending.push(event),
            counters: Counters {
                clamped: ((self.counters.clamped + record::clamp_count(
                    self.template.fields@,
                    event,
                )) % 0x1_0000_0000_0000_0000) as u64,
                ..self.counters
            },
            ..self
        }
    }

    /// The template has not been sent for its interval.
    pub open spec fn template_due(self, now_ns: int) -> bool {
        deadline::elapsed(self.last_template_ns as int, now_ns) >= self.template_interval
            * NANOS_PER_SEC
    }

    /// The worker once it has looked at the clock.
    pub open spec fn ticked(self, now_ns: u128) -> WorkerView {
        let due = WorkerView {
            include_template: self.include_template || self.template_due(now_ns as int),
            ..self
        };
        if due.include_template && !due.has_output() {
            due.begun(now_ns)
        } else {
            due
        }
    }

    /// The worker once a datagram has arrived.
    pub open spec fn noted(self, datagram: Datagram, now_ns: u128) -> WorkerView {
        let noted = WorkerView {
            counters: Counters {
                truncated: if datagram.datagram_len > datagram.len {
                    ((self.counters.truncated + 1) % 0x1_0000_0000_0000_0000) as u64
                } else {
                    self.counters.truncated
                },
                foreign: if datagram.sender_portid != 0 {
                    ((self.counters.foreign + 1) % 0x1_0000_0000_0000_0000) as u64
                } else {
                    self.counters.foreign
                },
                ..self.counters
            },
            ..self
        };
        if datagram.len > 0 {
            noted.ready(now_ns)
        } else {
            noted
        }
    }

    /// The worker once a message could not be sent.
    pub open spec fn send_failed(self) -> WorkerView {
        WorkerView {
            counters: Counters {
                send_errors: ((self.counters.send_errors + 1) % 0x1_0000_0000_0000_0000) as u64,
                ..self.counters
            },
            ..self
        }
    }

    /// What a look at drops and errors finds, given the drops the kernel now counts,
    /// and the worker after it.
    pub open spec fn looked(self, nl_drops: u64, now_ns: u128) -> (Option<StatsReport>, WorkerView) {
        let total = Counters { nl_drops, ..self.counters };
        let new = total.since(self.reported);
        (
            if new.is_zero() {
                None
            } else {
                Some(StatsReport { new, total })
            },
            WorkerView { counters: total, reported: total, last_stats_ns: now_ns, ..self },
        )
    }

    /// Drops and errors have not been looked at for their interval.
    pub open spec fn stats_are_due(self, now_ns: int) -> bool {
        deadline::elapsed(self.last_stats_ns as int, now_ns) >= STATS_INTERVAL_SECS
            * NANOS_PER_SEC
    }
}

/// The exporter's event loop. Its owner waits, receives and sends, and hands
/// what came of it to the worker.
pub struct Worker {
    encoder: Encoder,
    template_interval: u64,
    include_template: bool,
    last_template_ns: u128,
    message_active: bool,
    last_stats_ns: u128,
    counters: Counters,
    reported: Counters,
    /// The events in the message being built, and the encoder before and after
    /// that message was begun.
    pending: Ghost<Seq<ConntrackEvent>>,
    before: Ghost<EncoderView>,
    begun: Ghost<EncoderView>,
}

impl View for Worker {
    type V = WorkerView;

    closed spec fn view(&self) -> WorkerView {
        WorkerView {
            template: self.encoder@.template,
            domain: self.encoder@.domain,
            started: self.encoder@.started,
            template_interval: self.template_interval,
            sequence: self.encoder@.sequence,
            active: self.message_active,
            carries_template: self.message_active && self.encoder@.template_included,
            pending: self.pending@,
            include_template: self.include_template,
            last_template_ns: self.last_template_ns,
            last_stats_ns: self.last_stats_ns,
            counters: Counters { clamped: self.encoder@.saturated, ..self.counters },
            reported: self.reported,
        }
    }
}

/// A template that was made from a configuration.
pub open spec fn is_resolved(template: Template) -> bool {
    template.wf() && template.resolved(
        template.protocol,
        template.profile,
        template.counter_width,
        template.template_id,
    )
}

impl Worker {
    pub closed spec fn wf(&self) -> bool {
        &&& self.encoder.wf()
        &&& is_resolved(self.encoder@.template)
        &&& !self.message_active ==> self.pending@.len() == 0
        &&& self.message_active ==> {
            &&& self.before@.wf()
            &&& self.before@.template == self.encoder@.template
            &&& self.before@.begins(self.encoder@.template_included, self.begun@)
            &&& self.begun@.accepts_all(self.pending@)
            &&& self.encoder@ == self.begun@.with_records(self.pending@)
        }
    }

    /// A worker that has not seen any events. Its first message carries the
    /// template.
    pub fn new(
        settings: ExportSettings,
        observation_domain_id: u32,
        nl_drops: u64,
        now_ns: u128,
    ) -> (worker: Worker)
        requires
            is_resolved(settings.template),
        ensures
            worker.wf(),
            worker@ == (WorkerView {
                template: settings.template,
                domain: observation_domain_id,
                started: worker@.started,
                template_interval: settings.template_interval,
                sequence: 0,
                active: false,
                carries_template: false,
                pending: Seq::empty(),
                include_template: true,
                last_template_ns: now_ns,
                last_stats_ns: now_ns,
                counters: Counters {
                    nl_drops,
                    send_errors: 0,
                    truncated: 0,
                    foreign: 0,
                    clamped: 0,
                },
                reported: Counters {
                    nl_drops,
                    send_errors: 0,
                    truncated: 0,
                    foreign: 0,
                    clamped: 0,
                },
            }),
    {
        let encoder: Encoder = Encoder::new(observation_domain_id, settings.template);
        let counters: Counters = Counters {
            nl_drops,
            send_errors: 0,
            truncated: 0,
            foreign: 0,
            clamped: 0,
        };
        Worker {
            encoder,
            template_interval: settings.template_interval,
            include_template: true,
            last_template_ns: now_ns,
            message_active: false,
            last_stats_ns: now_ns,
            counters,
            reported: counters,
            pending: Ghost(Seq::empty()),
            before: Ghost(encoder@),
            begun: Ghost(encoder@),
        }
    }

    /// Begin a new message, with the template if it is time for it.
    fn start_message(&mut self, now_ns: u128)
        requires
            old(self).wf(),
        ensures
            final(self).wf(),
            final(self)@ == old(self)@.begun(now_ns),
    {
        let ghost before = self.encoder@;
        proof {
            self.encoder.lemma_wf();
        }
        self.encoder.begin_message(self.include_template);
        if self.include_template {
            self.include_template = false;
            self.last_template_ns = now_ns;
        }
        self.message_active = true;
        self.pending = Ghost(Seq::empty());
        self.before = Ghost(before);
        self.begun = Ghost(self.encoder@);
    }

    /// Finish the message being built.
    fn finish_message(&mut self) -> (out: Outgoing)
        requires
            old(self).wf(),
            old(self)@.active,
        ensures
            final(self).wf(),
            old(self)@.is_message(out),
            final(self)@ == old(self)@.sent(),
    {
        let ghost view = self@;
        let ghost encoder = self.encoder@;
        let ghost before = self.before@;
        let ghost begun = self.begun@;
        let (data, count) = self.encoder.finalize();
        let out: Outgoing = Outgoing { data: vstd::slice::slice_to_vec(data), count };
        self.message_active = false;
        self.pending = Ghost(Seq::empty());
        proof {
            let (unix_secs, uptime_ms) = choose|unix_secs: u32, uptime_ms: u32|
                out.data@ == #[trigger] encoder.message(unix_secs, uptime_ms) && self.encoder@
                    == encoder.finished(unix_secs, uptime_ms);
            laws::lemma_with_records(before, encoder.template_included, begun, view.pending);
            laws::law_message_layout(
                before,
                encoder.template_included,
                begun,
                view.pending,
                unix_secs,
                uptime_ms,
            );
            assert(out.data@ == laws::message_bytes(
                view.template,
                view.domain,
                view.sequence,
                view.carries_template,
                view.pending,
                unix_secs,
                uptime_ms,
            ));
        }
        out
    }

    /// Look at the clock. When the template has not been sent for its interval,
    /// the next message carries it; with nothing to send under way, a message is
    /// begun for it, so that it goes out even without traffic.
    pub fn tick(&mut self, now_ns: u128)
        requires
            old(self).wf(),
        ensures
            final(self).wf(),
            final(self)@ == old(self)@.ticked(now_ns),
    {
        if has_passed(self.last_template_ns, self.template_interval, now_ns) {
            self.include_template = true;
        }
        if self.include_template && !self.has_output() {
            self.start_message(now_ns);
        }
    }

    /// Whether it is time to look at drops and errors.
    pub fn stats_due(&self, now_ns: u128) -> (due: bool)
        ensures
            due == self@.stats_are_due(now_ns as int),
    {
        has_passed(self.last_stats_ns, STATS_INTERVAL_SECS, now_ns)
    }

    /// Look at drops and errors, given the drops the kernel now counts. Returns
    /// a report if anything was added since the last look.
    pub fn report(&mut self, nl_drops: u64, now_ns: u128) -> (report: Option<StatsReport>)
        requires
            old(self).wf(),
        ensures
            final(self).wf(),
            ({
                let total = Counters { nl_drops, ..old(self)@.counters };
                let new = total.since(old(self)@.reported);
                &&& report == (if new.is_zero() {
                    None
                } else {
                    Some(StatsReport { new, total })
                })
                &&& final(self)@ == (WorkerView {
                    counters: total,
                    reported: total,
                    last_stats_ns: now_ns,
                    ..old(self)@
                })
            }),
            (report, final(self)@) == old(self)@.looked(nl_drops, now_ns),
    {
        let clamped: u64 = self.encoder.saturated_counters();
        let total: Counters = Counters {
            nl_drops,
            send_errors: self.counters.send_errors,
            truncated: self.counters.truncated,
            foreign: self.counters.foreign,
            clamped,
        };
        let new: Counters = Counters {
            nl_drops: total.nl_drops.wrapping_sub(self.reported.nl_drops),
            send_errors: total.send_errors.wrapping_sub(self.reported.send_errors),
            truncated: total.truncated.wrapping_sub(self.reported.truncated),
            foreign: total.foreign.wrapping_sub(self.reported.foreign),
            clamped: total.clamped.wrapping_sub(self.reported.clamped),
        };
        self.counters = total;
        self.reported = total;
        self.last_stats_ns = now_ns;
        if new.nl_drops > 0 || new.send_errors > 0 || new.truncated > 0 || new.foreign > 0
            || new.clamped > 0 {
            Some(StatsReport { new, total })
        } else {
            None
        }
    }

    /// How long to wait for the next event, in milliseconds: the flush timeout
    /// while a message is being built, and otherwise until the template or the
    /// next look at drops and errors is due.
    pub fn poll_timeout(&self, now_ns: u128) -> (timeout: i32)
        ensures
            timeout == (if self@.active {
                FLUSH_TIMEOUT_MS as int
            } else {
                let template = deadline::poll_millis(
                    deadline::elapsed(
                        deadline::elapsed(self@.last_template_ns as int, now_ns as int),
                        self@.template_interval * NANOS_PER_SEC,
                    ),
                );
                let stats = deadline::poll_millis(
                    deadline::elapsed(
                        deadline::elapsed(self@.last_stats_ns as int, now_ns as int),
                        STATS_INTERVAL_SECS * NANOS_PER_SEC,
                    ),
                );
                if template <= stats {
                    template
                } else {
                    stats
                }
            }),
    {
        if self.message_active {
            return FLUSH_TIMEOUT_MS;
        }
        let template: i32 = ms_until_passed(
            self.last_template_ns,
            self.template_interval,
            now_ns,
        );
        let stats: i32 = ms_until_passed(self.last_stats_ns, STATS_INTERVAL_SECS, now_ns);
        if template <= stats {
            template
        } else {
            stats
        }
    }

    /// Whether a message is being built that is worth sending.
    fn has_output(&self) -> (output: bool)
        requires
            self.wf(),
        ensures
            output == self@.has_output(),
    {
        proof {
            if self.message_active {
                laws::lemma_with_records(
                    self.before@,
                    self.encoder@.template_included,
                    self.begun@,
                    self.pending@,
                );
            }
        }
        self.message_active && self.encoder.has_pending_output()
    }

    /// Nothing arrived in time, or the worker is to stop: finish the message
    /// being built, if it is worth sending.
    pub fn flush(&mut self) -> (out: Option<Outgoing>)
        requires
            old(self).wf(),
        ensures
            final(self).wf(),
            old(self)@.flushes(out, final(self)@),
    {
        if self.has_output() {
            Some(self.finish_message())
        } else {
            None
        }
    }

    /// A wait has ended: shutdown signals were pending or not, and there were
    /// events to read or not. A signal comes first, then events; a wait that
    /// ended with neither has timed out. What is worth sending is flushed on
    /// shutdown and on timeout.
    pub fn after_poll(&mut self, pending_signals: &[libc::c_int], ready: bool) -> (next: AfterPoll)
        requires
            old(self).wf(),
        ensures
            final(self).wf(),
            match next {
                AfterPoll::Stop(out) => pending_signals@.len() > 0 && old(self)@.flushes(
                    out,
                    final(self)@,
                ),
                AfterPoll::Receive => pending_signals@.len() == 0 && ready && final(self)@ == old(
                    self,
                )@,
                AfterPoll::Wait(out) => pending_signals@.len() == 0 && !ready && old(
                    self,
                )@.flushes(out, final(self)@),
            },
    {
        if pending_signals.len() > 0 {
            AfterPoll::Stop(self.flush())
        } else if ready {
            AfterPoll::Receive
        } else {
            AfterPoll::Wait(self.flush())
        }
    }

    /// A datagram arrived. One that holds nothing is passed over; otherwise a
    /// message is begun if none is under way. Returns whether the datagram is to
    /// be parsed.
    pub fn on_datagram(&mut self, datagram: &Datagram, now_ns: u128) -> (parse: bool)
        requires
            old(self).wf(),
        ensures
            final(self).wf(),
            parse == (datagram.len > 0),
            final(self)@ == ({
                let noted = WorkerView {
                    counters: Counters {
                        truncated: if datagram.datagram_len > datagram.len {
                            ((old(self)@.counters.truncated + 1) % 0x1_0000_0000_0000_0000) as u64
                        } else {
                            old(self)@.counters.truncated
                        },
                        foreign: if datagram.sender_portid != 0 {
                            ((old(self)@.counters.foreign + 1) % 0x1_0000_0000_0000_0000) as u64
                        } else {
                            old(self)@.counters.foreign
                        },
                        ..old(self)@.counters
                    },
                    ..old(self)@
                };
                if datagram.len > 0 {
                    noted.ready(now_ns)
                } else {
                    noted
                }
            }),
            final(self)@ == old(self)@.noted(*datagram, now_ns),
    {
        if datagram.datagram_len > datagram.len {
            self.counters.truncated = self.counters.truncated.wrapping_add(1);
        }
        if datagram.sender_portid != 0 {
            self.counters.foreign = self.counters.foreign.wrapping_add(1);
        }
        if datagram.len == 0 {
            return false;
        }
        if !self.message_active {
            self.start_message(now_ns);
        }
        true
    }

    /// A message could not be sent.
    pub fn on_send_failed(&mut self)
        requires
            old(self).wf(),
        ensures
            final(self).wf(),
            final(self)@ == (WorkerView {
                counters: Counters {
                    send_errors: ((old(self)@.counters.send_errors + 1)
                        % 0x1_0000_0000_0000_0000) as u64,
                    ..old(self)@.counters
                },
                ..old(self)@
            }),
            final(self)@ == old(self)@.send_failed(),
    {
        self.counters.send_errors = self.counters.send_errors.wrapping_add(1);
    }

    /// Add the record of an event to the message being built. If the message is
    /// full, it is finished and returned, and the record goes into a new one.
    pub fn on_event(&mut self, event: &ConntrackEvent, now_ns: u128) -> (out: Option<Outgoing>)
        requires
            old(self).wf(),
        ensures
            final(self).wf(),
            old(self)@.takes(*event, now_ns, out, final(self)@),
    {
        if !self.message_active {
            self.start_message(now_ns);
        }
        if self.add_record(event) {
            return None;
        }
        // Message full -- finish it, then start a new one
        let out: Outgoing = self.finish_message();
        self.start_message(now_ns);
        proof {
            self.lemma_fresh_message_has_room();
        }
        let added: bool = self.add_record(event);
        assert(added);
        Some(out)
    }

    /// Add a record to the message being built, if it has room.
    fn add_record(&mut self, event: &ConntrackEvent) -> (added: bool)
        requires
            old(self).wf(),
            old(self)@.active,
        ensures
            final(self).wf(),
            added == old(self)@.has_room(),
            final(self)@ == (if added {
                old(self)@.recorded(*event)
            } else {
                old(self)@
            }),
    {
        let ghost pending = self.pending@;
        proof {
            laws::lemma_with_records(
                self.before@,
                self.encoder@.template_included,
                self.begun@,
                pending,
            );
            laws::lemma_room(
                self.before@,
                self.encoder@.template_included,
                self.begun@,
                pending,
            );
            assert(pending.push(*event).drop_last() == pending);
        }
        if self.encoder.add_record(event) {
            self.pending = Ghost(pending.push(*event));
            true
        } else {
            false
        }
    }

    proof fn lemma_fresh_message_has_room(&self)
        requires
            self.wf(),
            self@.active,
            self@.pending.len() == 0,
        ensures
            self@.has_room(),
    {
        let template = self.encoder@.template;
        laws::lemma_first_record_fits(template);
    }
}

/// One call of [`Worker::on_event`] or [`Worker::flush`], with the worker before
/// and after it.
pub struct WorkerStep {
    pub before: WorkerView,
    /// The event that was handed in, if it was one.
    pub event: Option<ConntrackEvent>,
    pub now_ns: u128,
    pub out: Option<Outgoing>,
    pub after: WorkerView,
}

impl WorkerStep {
    /// The step is one that the contracts of the two functions allow.
    pub open spec fn allowed(self) -> bool {
        match self.event {
            Some(event) => self.before.takes(event, self.now_ns, self.out, self.after),
            None => self.before.flushes(self.out, self.after),
        }
    }

    /// The events whose records went out.
    pub open spec fn delivered(self) -> Seq<ConntrackEvent> {
        if self.out is Some {
            self.before.ready(self.now_ns).pending
        } else {
            Seq::empty()
        }
    }

    /// The events that were handed in.
    pub open spec fn accepted(self) -> Seq<ConntrackEvent> {
        match self.event {
            Some(event) => seq![event],
            None => Seq::empty(),
        }
    }
}

/// The events whose records went out in some steps.
pub open spec fn all_delivered(steps: Seq<WorkerStep>) -> Seq<ConntrackEvent>
    decreases steps.len(),
{
    if steps.len() == 0 {
        Seq::empty()
    } else {
        all_delivered(steps.drop_last()) + steps.last().delivered()
    }
}

/// The events that were handed in in some steps.
pub open spec fn all_accepted(steps: Seq<WorkerStep>) -> Seq<ConntrackEvent>
    decreases steps.len(),
{
    if steps.len() == 0 {
        Seq::empty()
    } else {
        all_accepted(steps.drop_last()) + steps.last().accepted()
    }
}

/// No event is lost, repeated or overtaken: what went out, followed by what is
/// still pending, is what was pending at first, followed by what was handed in.
///
/// Between two steps the worker may see to other things, none of which touches
/// the pending events of a message that is being built.
pub proof fn law_every_event_is_exported_once_and_in_order(steps: Seq<WorkerStep>)
    requires
        steps.len() > 0,
        forall|i: int| 0 <= i < steps.len() ==> (#[trigger] steps[i]).allowed(),
        forall|i: int|
            0 <= i < steps.len() ==> (!(#[trigger] steps[i]).before.active
                ==> steps[i].before.pending.len() == 0),
        forall|i: int, j: int|
            0 <= i && j == i + 1 && j < steps.len() ==> (#[trigger] steps[j]).before.pending == (
            #[trigger] steps[i]).after.pending,
    ensures
        all_delivered(steps) + steps.last().after.pending == steps[0].before.pending
            + all_accepted(steps),
    decreases steps.len(),
{
    let last = steps.last();
    assert(last == steps[steps.len() - 1]);
    assert(last.allowed());
    lemma_step_keeps_events(last);
    let shorter = steps.drop_last();
    if shorter.len() > 0 {
        assert(shorter.last() == steps[steps.len() - 2]);
        law_every_event_is_exported_once_and_in_order(shorter);
        let delivered = all_delivered(shorter);
        assert((delivered + last.delivered()) + last.after.pending == delivered + (
        last.delivered() + last.after.pending));
        assert(delivered + (last.before.pending + last.accepted()) == (delivered
            + last.before.pending) + last.accepted());
        assert((steps[0].before.pending + all_accepted(shorter)) + last.accepted()
            == steps[0].before.pending + (all_accepted(shorter) + last.accepted()));
    } else {
        assert(all_delivered(shorter) == Seq::<ConntrackEvent>::empty());
        assert(all_accepted(shorter) == Seq::<ConntrackEvent>::empty());
        assert(all_delivered(steps) == last.delivered());
        assert(all_accepted(steps) == last.accepted());
    }
}

proof fn lemma_step_keeps_events(step: WorkerStep)
    requires
        step.allowed(),
        !step.before.active ==> step.before.pending.len() == 0,
    ensures
        step.delivered() + step.after.pending == step.before.pending + step.accepted(),
{
    assert(step.before.ready(step.now_ns).pending == step.before.pending);
}

/// A template that is due goes out even without traffic: a worker with nothing to
/// send that looks at the clock has a message with the template to flush, and one
/// that has something to send puts the template into the next message.
pub proof fn law_due_template_goes_out(before: WorkerView, now_ns: u128)
    requires
        before.template_due(now_ns as int),
    ensures
        !before.has_output() ==> before.ticked(now_ns).has_output() && before.ticked(
            now_ns,
        ).carries_template,
        before.has_output() ==> before.ticked(now_ns).sent().begun(now_ns).carries_template,
{
}

/// Looking at the clock never costs an event.
pub proof fn law_tick_keeps_pending_events(before: WorkerView, now_ns: u128)
    requires
        !before.active ==> before.pending.len() == 0,
    ensures
        before.ticked(now_ns).pending == before.pending,
{
    if !before.has_output() {
        assert(before.pending == Seq::<ConntrackEvent>::empty());
    }
}

/// A worker that is not building a message holds no events.
pub proof fn law_idle_worker_holds_nothing(worker: &Worker)
    requires
        worker.wf(),
        !worker@.active,
    ensures
        worker@.pending.len() == 0,
{
}

/// Every message a worker hands out fits in a datagram.
pub proof fn law_messages_fit_in_a_datagram(worker: &Worker, out: Outgoing)
    requires
        worker.wf(),
        worker@.active,
        worker@.is_message(out),
    ensures
        out.data@.len() <= MAX_MSG_SIZE,
{
    let view = worker@;
    let (unix_secs, uptime_ms) = choose|unix_secs: u32, uptime_ms: u32|
        out.data@ == #[trigger] laws::message_bytes(
            view.template,
            view.domain,
            view.sequence,
            view.carries_template,
            view.pending,
            unix_secs,
            uptime_ms,
        );
    laws::lemma_with_records(
        worker.before@,
        worker.encoder@.template_included,
        worker.begun@,
        worker.pending@,
    );
    laws::law_message_layout(
        worker.before@,
        worker.encoder@.template_included,
        worker.begun@,
        worker.pending@,
        unix_secs,
        uptime_ms,
    );
}

/// What a worker shows is always in good order: without a message being built it
/// holds no events and no template, and what is being built fits in a datagram.
pub proof fn law_workers_are_consistent(worker: &Worker)
    requires
        worker.wf(),
    ensures
        worker@.consistent(),
{
    if worker@.active {
        let view = worker@;
        laws::lemma_with_records(
            worker.before@,
            worker.encoder@.template_included,
            worker.begun@,
            worker.pending@,
        );
        reading::law_what_a_message_takes(
            worker.before@,
            worker.encoder@.template_included,
            worker.begun@,
            worker.pending@,
            view.template.protocol,
            view.template.profile,
            view.template.counter_width,
            view.template.template_id,
        );
        laws::law_message_layout(
            worker.before@,
            worker.encoder@.template_included,
            worker.begun@,
            worker.pending@,
            0,
            0,
        );
        reading::lemma_message_len(
            view.template,
            view.domain,
            view.sequence,
            view.carries_template,
            view.pending,
            0,
            0,
        );
        reading::law_sizes(
            view.template,
            view.template.protocol,
            view.template.profile,
            view.template.counter_width,
            view.template.template_id,
            view.pending.len(),
        );
    }
}

/// The line of some counters names each of them: other counters have another line.
pub proof fn law_lines_tell_counters_apart(a: Counters, b: Counters)
    requires
        a.line() == b.line(),
    ensures
        a == b,
{
    reveal_strlit("nl_recv=");
    reveal_strlit(" udp_send=");
    reveal_strlit(" truncated=");
    reveal_strlit(" foreign=");
    reveal_strlit(" clamped=");
    let a1 = "nl_recv="@ + text::decimal(a.nl_drops as nat);
    let b1 = "nl_recv="@ + text::decimal(b.nl_drops as nat);
    let a2 = a1 + " udp_send="@ + text::decimal(a.send_errors as nat);
    let b2 = b1 + " udp_send="@ + text::decimal(b.send_errors as nat);
    let a3 = a2 + " truncated="@ + text::decimal(a.truncated as nat);
    let b3 = b2 + " truncated="@ + text::decimal(b.truncated as nat);
    let a4 = a3 + " foreign="@ + text::decimal(a.foreign as nat);
    let b4 = b3 + " foreign="@ + text::decimal(b.foreign as nat);
    text::lemma_word_and_number(a4, a.clamped as nat, b4, b.clamped as nat, " clamped="@);
    text::lemma_word_and_number(a3, a.foreign as nat, b3, b.foreign as nat, " foreign="@);
    text::lemma_word_and_number(a2, a.truncated as nat, b2, b.truncated as nat, " truncated="@);
    text::lemma_word_and_number(a1, a.send_errors as nat, b1, b.send_errors as nat, " udp_send="@);
    text::lemma_number_at_end("nl_recv="@, a.nl_drops as nat, "nl_recv="@, b.nl_drops as nat);
}

} // verus!
