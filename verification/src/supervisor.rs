//! The decisions of the supervisor: when a worker is stopped, killed or
//! restarted.

use crate::deadline;
use crate::deadline::ms_until;
use crate::signals;
use crate::signals::shutdown_signal;
use vstd::prelude::*;

verus! {

/// How long the supervisor waits for the worker to exit on its own after
/// SIGTERM before escalating to SIGKILL.
pub const WORKER_STOP_GRACE_NS: u128 = 10_000_000_000;

/// How long the supervisor waits before it restarts a worker that crashed.
pub const RESTART_DELAY_SECS: u64 = 1;

/// `libc::WIFEXITED`: a wait status whose low seven bits are zero says that the
/// process exited.
pub assume_specification[ libc::WIFEXITED ](status: libc::c_int) -> (exited: bool)
    ensures
        exited == (status & 0x7f == 0),
;

/// `libc::WEXITSTATUS`: the second byte of a wait status is the exit code.
pub assume_specification[ libc::WEXITSTATUS ](status: libc::c_int) -> (code: libc::c_int)
    ensures
        code == (status >> 8) & 0xff,
;

/// `libc::WIFSIGNALED`: a wait status whose low seven bits are neither all zero
/// nor all one says that a signal ended the process.
pub assume_specification[ libc::WIFSIGNALED ](status: libc::c_int) -> (signaled: bool)
    ensures
        signaled == (0 < status & 0x7f && status & 0x7f < 0x7f),
;

/// A wait status that says the process exited with a code other than zero, or
/// was ended by a signal.
pub open spec fn is_crash(status: libc::c_int) -> bool {
    if status & 0x7f == 0 {
        (status >> 8) & 0xff != 0
    } else {
        0 < status & 0x7f && status & 0x7f < 0x7f
    }
}

/// Whether a worker that ended with this wait status is to be restarted: it is
/// unless it exited cleanly.
pub fn should_restart(status: libc::c_int) -> (restart: bool)
    ensures
        restart == is_crash(status),
{
    if libc::WIFEXITED(status) {
        libc::WEXITSTATUS(status) != 0
    } else {
        libc::WIFSIGNALED(status)
    }
}

/// What a `fork()` makes of the process that called it.
#[derive(Debug, Clone, Copy, PartialEq, Eq, Structural)]
pub enum ForkRole {
    Failed,
    Child,
    /// The parent of this child.
    Parent(libc::pid_t),
}

/// What a `fork()` that returned `pid` makes of the process that called it.
pub fn fork_role(pid: libc::pid_t) -> (role: ForkRole)
    ensures
        role == (if pid < 0 {
            ForkRole::Failed
        } else if pid == 0 {
            ForkRole::Child
        } else {
            ForkRole::Parent(pid)
        }),
{
    if pid < 0 {
        ForkRole::Failed
    } else if pid == 0 {
        ForkRole::Child
    } else {
        ForkRole::Parent(pid)
    }
}

/// What a `waitpid()` that does not block found out.
#[derive(Debug, Clone, Copy, PartialEq, Eq, Structural)]
pub enum Reaped {
    /// The worker has exited with this wait status.
    Exited(libc::c_int),
    /// The worker is still running, as far as is known.
    Running,
    /// The worker cannot be waited for.
    Failed,
}

/// What a `waitpid()` for `child_pid` found out that returned `rc`, wrote
/// `status`, and was or was not interrupted where it failed.
pub fn try_reap(
    rc: libc::pid_t,
    child_pid: libc::pid_t,
    status: libc::c_int,
    interrupted: bool,
) -> (reaped: Reaped)
    ensures
        reaped == (if rc == child_pid {
            Reaped::Exited(status)
        } else if rc < 0 && !interrupted {
            Reaped::Failed
        } else {
            Reaped::Running
        }),
{
    if rc == child_pid {
        return Reaped::Exited(status);
    }
    if rc < 0 && !interrupted {
        return Reaped::Failed;
    }
    Reaped::Running
}

/// How the supervision of one worker ended.
#[derive(Debug, Clone, Copy, PartialEq, Eq, Structural)]
pub enum Supervision {
    /// The worker exited on its own with this wait status.
    Exited(libc::c_int),
    /// A shutdown signal arrived; the worker has been stopped and reaped.
    ShutdownRequested,
}

/// What the supervisor does once a worker is gone.
#[derive(Debug, Clone, Copy, PartialEq, Eq, Structural)]
pub enum AfterWorker {
    /// Stop: it was asked to.
    Stop,
    /// Stop: the worker exited cleanly.
    WorkerDone,
    /// Start another worker, after a pause.
    Restart,
}

impl Supervision {
    /// What the supervisor does once a worker is gone: it restarts a worker that
    /// crashed, and stops otherwise.
    pub fn next(self) -> (next: AfterWorker)
        ensures
            next == (match self {
                Supervision::ShutdownRequested => AfterWorker::Stop,
                Supervision::Exited(status) => if is_crash(status) {
                    AfterWorker::Restart
                } else {
                    AfterWorker::WorkerDone
                },
            }),
    {
        match self {
            Supervision::ShutdownRequested => AfterWorker::Stop,
            Supervision::Exited(status) => {
                if should_restart(status) {
                    AfterWorker::Restart
                } else {
                    AfterWorker::WorkerDone
                }
            },
        }
    }
}

/// What the supervisor does to a running worker.
#[derive(Debug, Clone, Copy, PartialEq, Eq, Structural)]
pub enum SuperviseAction {
    /// Nothing: go on waiting.
    Wait,
    /// Send it SIGTERM, because of this signal.
    Terminate(libc::c_int),
    /// Send it SIGKILL.
    Kill,
}

/// The supervision of one worker: wait for it to exit, or for a shutdown signal
/// -- in which case the signal is forwarded to the worker and the wait goes on
/// until it is gone.
#[derive(Debug, Clone, Copy, PartialEq, Eq, Structural)]
pub struct Supervised {
    /// The signal that reports the exit of a child: `SIGCHLD`, whose number is
    /// the platform's.
    pub child_exit: libc::c_int,
    /// The worker has been asked to stop.
    pub shutting_down: bool,
    /// When to lose patience with it.
    pub kill_deadline: Option<u128>,
}

impl Supervised {
    pub open spec fn wf(self) -> bool {
        self.kill_deadline is Some ==> self.shutting_down
    }

    /// A worker that was just started, on a platform that reports its exit with
    /// the signal `child_exit`.
    pub fn new(child_exit: libc::c_int) -> (supervised: Supervised)
        ensures
            supervised == (Supervised { child_exit, shutting_down: false, kill_deadline: None }),
            supervised.wf(),
    {
        Supervised { child_exit, shutting_down: false, kill_deadline: None }
    }

    /// What the end of the worker means.
    pub fn on_exit(&self, status: libc::c_int) -> (end: Supervision)
        ensures
            end == (if self.shutting_down {
                Supervision::ShutdownRequested
            } else {
                Supervision::Exited(status)
            }),
    {
        if self.shutting_down {
            Supervision::ShutdownRequested
        } else {
            Supervision::Exited(status)
        }
    }

    /// How long to wait for the next signal, in milliseconds. Without a deadline
    /// there is nothing else to wait for.
    pub fn timeout(&self, now_ns: u128) -> (timeout: i32)
        ensures
            timeout == (match self.kill_deadline {
                Some(deadline_ns) => deadline::poll_millis(
                    deadline::elapsed(now_ns as int, deadline_ns as int),
                ),
                None => -1,
            }),
    {
        match self.kill_deadline {
            Some(deadline_ns) => ms_until(deadline_ns, now_ns),
            None => -1,
        }
    }

    /// The state after a wait that ended with signals, of which one asked to
    /// stop or none did.
    pub open spec fn after_signals(self, asked: bool, now_ns: int) -> Supervised {
        if asked && !self.shutting_down {
            Supervised {
                shutting_down: true,
                kill_deadline: Some((now_ns + WORKER_STOP_GRACE_NS) as u128),
                ..self
            }
        } else {
            self
        }
    }

    /// Take note of pending signals. Returns the signal to report if the worker
    /// is now to be sent SIGTERM: that happens once, at the first signal that
    /// asks to stop.
    pub fn on_signals(&mut self, pending: &[libc::c_int], now_ns: u128) -> (stop: Option<
        libc::c_int,
    >)
        requires
            old(self).wf(),
            now_ns + WORKER_STOP_GRACE_NS <= u128::MAX,
        ensures
            final(self).wf(),
            stop == (if old(self).shutting_down {
                None
            } else {
                signals::first_shutdown(pending@, old(self).child_exit)
            }),
            *final(self) == old(self).after_signals(
                signals::first_shutdown(pending@, old(self).child_exit) is Some,
                now_ns as int,
            ),
    {
        if self.shutting_down {
            return None;
        }
        match shutdown_signal(pending, self.child_exit) {
            Some(signal) => {
                self.shutting_down = true;
                self.kill_deadline = Some(now_ns + WORKER_STOP_GRACE_NS);
                Some(signal)
            },
            None => None,
        }
    }

    /// The worker has had its time to stop.
    pub open spec fn expired(self, now_ns: int) -> bool {
        self.kill_deadline matches Some(deadline_ns) && now_ns >= deadline_ns
    }

    /// The state after a wait that ended without a signal.
    pub open spec fn after_timeout(self, now_ns: int) -> Supervised {
        if self.expired(now_ns) {
            Supervised { kill_deadline: None, ..self }
        } else {
            self
        }
    }

    /// Take note that a wait ended without a signal. Returns true if the worker
    /// is now to be sent SIGKILL.
    pub fn on_timeout(&mut self, now_ns: u128) -> (kill: bool)
        requires
            old(self).wf(),
        ensures
            final(self).wf(),
            kill == old(self).expired(now_ns as int),
            *final(self) == old(self).after_timeout(now_ns as int),
    {
        match self.kill_deadline {
            Some(deadline_ns) => {
                if now_ns >= deadline_ns {
                    self.kill_deadline = None;
                    true
                } else {
                    false
                }
            },
            None => false,
        }
    }
}

impl Supervised {
    /// A wait has ended, with the signals that were pending or, if it timed out,
    /// with none to be read.
    pub fn on_wakeup(&mut self, pending: Option<&[libc::c_int]>, now_ns: u128) -> (action:
        SuperviseAction)
        requires
            old(self).wf(),
            now_ns + WORKER_STOP_GRACE_NS <= u128::MAX,
        ensures
            final(self).wf(),
            match pending {
                Some(pending) => {
                    let asked = signals::first_shutdown(pending@, old(self).child_exit);
                    &&& action == (match asked {
                        Some(signal) if !old(self).shutting_down => SuperviseAction::Terminate(
                            signal,
                        ),
                        _ => SuperviseAction::Wait,
                    })
                    &&& *final(self) == old(self).after_signals(asked is Some, now_ns as int)
                },
                None => {
                    &&& action == (if old(self).expired(now_ns as int) {
                        SuperviseAction::Kill
                    } else {
                        SuperviseAction::Wait
                    })
                    &&& *final(self) == old(self).after_timeout(now_ns as int)
                },
            },
    {
        match pending {
            Some(pending) => match self.on_signals(pending, now_ns) {
                Some(signal) => SuperviseAction::Terminate(signal),
                None => SuperviseAction::Wait,
            },
            None => if self.on_timeout(now_ns) {
                SuperviseAction::Kill
            } else {
                SuperviseAction::Wait
            },
        }
    }
}

/// How one wait of the supervisor ended.
pub enum Wakeup {
    /// With signals, of which one asked to stop or none did.
    Signals { asked: bool, now_ns: u128 },
    /// Without a signal.
    Timeout { now_ns: u128 },
}

/// What a worker has been sent, and when.
pub struct Sent {
    pub state: Supervised,
    pub terms: Seq<int>,
    pub kills: Seq<int>,
}

/// What a worker has been sent after some wakeups.
pub open spec fn sent_after(child_exit: libc::c_int, wakeups: Seq<Wakeup>) -> Sent
    decreases wakeups.len(),
{
    if wakeups.len() == 0 {
        Sent {
            state: Supervised { child_exit, shutting_down: false, kill_deadline: None },
            terms: Seq::empty(),
            kills: Seq::empty(),
        }
    } else {
        let before = sent_after(child_exit, wakeups.drop_last());
        match wakeups.last() {
            Wakeup::Signals { asked, now_ns } => Sent {
                state: before.state.after_signals(asked, now_ns as int),
                terms: if asked && !before.state.shutting_down {
                    before.terms.push(now_ns as int)
                } else {
                    before.terms
                },
                ..before
            },
            Wakeup::Timeout { now_ns } => Sent {
                state: before.state.after_timeout(now_ns as int),
                kills: if before.state.expired(now_ns as int) {
                    before.kills.push(now_ns as int)
                } else {
                    before.kills
                },
                ..before
            },
        }
    }
}

/// A worker is sent SIGTERM at most once and SIGKILL at most once, and SIGKILL
/// only when it has had its grace period since SIGTERM.
pub proof fn law_grace_before_kill(child_exit: libc::c_int, wakeups: Seq<Wakeup>)
    requires
        forall|i: int|
            0 <= i < wakeups.len() ==> (#[trigger] wakeups[i] matches Wakeup::Signals {
                now_ns,
                ..
            } ==> now_ns + WORKER_STOP_GRACE_NS <= u128::MAX),
    ensures
        ({
            let sent = sent_after(child_exit, wakeups);
            &&& sent.terms.len() <= 1
            &&& sent.kills.len() <= sent.terms.len()
            &&& sent.kills.len() == 1 ==> sent.kills[0] >= sent.terms[0] + WORKER_STOP_GRACE_NS
            &&& sent.state.shutting_down <==> sent.terms.len() == 1
            &&& sent.state.kill_deadline matches Some(deadline_ns) ==> sent.kills.len() == 0
                && sent.terms.len() == 1 && deadline_ns == sent.terms[0] + WORKER_STOP_GRACE_NS
            &&& sent.terms.len() == 1 && sent.kills.len() == 0 ==> sent.state.kill_deadline is Some
        }),
    decreases wakeups.len(),
{
    if wakeups.len() > 0 {
        let last = wakeups[wakeups.len() - 1];
        assert forall|i: int| 0 <= i < wakeups.drop_last().len() implies (
        #[trigger] wakeups.drop_last()[i] matches Wakeup::Signals { now_ns, .. } ==> now_ns
            + WORKER_STOP_GRACE_NS <= u128::MAX) by {
            assert(wakeups[i] == wakeups.drop_last()[i]);
        }
        law_grace_before_kill(child_exit, wakeups.drop_last());
    }
}

/// A wait status as the kernel composes it: the signal that ended the process in
/// the low seven bits, whether it left a core in the next one, and the exit code
/// in the second byte. A process that a signal ended, or that exited with another
/// code than zero, has crashed; one that is merely stopped has not.
pub proof fn law_crashes(status: libc::c_int)
    requires
        0 <= status <= 0xffff,
    ensures
        is_crash(status) <==> (status % 128 == 0 && status / 256 != 0 || 0 < status % 128 < 127),
{
    assert(status & 0x7f == status % 128) by (bit_vector)
        requires
            0 <= status <= 0xffff,
    ;
    assert((status >> 8) & 0xff == status / 256) by (bit_vector)
        requires
            0 <= status <= 0xffff,
    ;
}

/// Nothing above the second byte of a wait status tells a crash.
pub proof fn law_crash_is_in_the_low_bytes(status: libc::c_int)
    ensures
        0 <= status & 0xffff <= 0xffff,
        is_crash(status) == is_crash(status & 0xffff),
{
    let low = status & 0xffff;
    assert(0 <= status & 0xffff <= 0xffff) by (bit_vector);
    assert(low & 0x7f == status & 0x7f && (low >> 8) & 0xff == (status >> 8) & 0xff) by (bit_vector)
        requires
            low == status & 0xffff,
    ;
}

/// Every exit code but zero is a crash, and so is every signal, with or without a
/// core.
pub proof fn law_exit_codes_and_signals(code: libc::c_int, signal: libc::c_int)
    requires
        0 <= code <= 255,
        1 <= signal <= 126,
    ensures
        is_crash((code * 256) as libc::c_int) <==> code != 0,
        is_crash(signal),
        is_crash((signal + 128) as libc::c_int),
{
    law_crashes((code * 256) as libc::c_int);
    law_crashes(signal);
    law_crashes((signal + 128) as libc::c_int);
}

/// The wakeup brought a signal that asks to stop.
pub open spec fn asks(wakeup: Wakeup) -> bool {
    wakeup matches Wakeup::Signals { asked, .. } && asked
}

/// When the wakeup was.
pub open spec fn woke_at(wakeup: Wakeup) -> int {
    match wakeup {
        Wakeup::Signals { now_ns, .. } => now_ns as int,
        Wakeup::Timeout { now_ns } => now_ns as int,
    }
}

/// Nobody touches a worker that nobody asked to stop.
pub proof fn law_unasked_worker_is_left_alone(child_exit: libc::c_int, wakeups: Seq<Wakeup>)
    requires
        forall|i: int| 0 <= i < wakeups.len() ==> !asks(#[trigger] wakeups[i]),
    ensures
        sent_after(child_exit, wakeups).terms.len() == 0,
        sent_after(child_exit, wakeups).kills.len() == 0,
        !sent_after(child_exit, wakeups).state.shutting_down,
        sent_after(child_exit, wakeups).state.kill_deadline is None,
        sent_after(child_exit, wakeups).state.child_exit == child_exit,
    decreases wakeups.len(),
{
    if wakeups.len() > 0 {
        assert(!asks(wakeups[wakeups.len() - 1]));
        assert forall|i: int| 0 <= i < wakeups.drop_last().len() implies !asks(
            #[trigger] wakeups.drop_last()[i],
        ) by {
            assert(!asks(wakeups[i]));
        }
        law_unasked_worker_is_left_alone(child_exit, wakeups.drop_last());
    }
}

/// A wait that ran out ten seconds or more after a worker was asked to stop.
pub open spec fn out_of_patience(wakeup: Wakeup, asked_at: int) -> bool {
    wakeup matches Wakeup::Timeout { now_ns } && now_ns >= asked_at + 10_000_000_000
}

/// The first signal that asks to stop has SIGTERM sent, then and only then. Until a
/// wait runs out ten seconds or more after it, nothing else is sent.
///
/// `first` is the wakeup that asked first.
pub proof fn law_first_request_sends_term(
    child_exit: libc::c_int,
    wakeups: Seq<Wakeup>,
    first: int,
)
    requires
        0 <= first < wakeups.len(),
        asks(wakeups[first]),
        forall|i: int| 0 <= i < first ==> !asks(#[trigger] wakeups[i]),
        woke_at(wakeups[first]) + 10_000_000_000 <= u128::MAX,
        forall|i: int|
            first < i < wakeups.len() ==> !out_of_patience(
                #[trigger] wakeups[i],
                woke_at(wakeups[first]),
            ),
    ensures
        ({
            let sent = sent_after(child_exit, wakeups);
            let asked_at = woke_at(wakeups[first]);
            &&& sent.terms == seq![asked_at]
            &&& sent.kills.len() == 0
            &&& sent.state == (Supervised {
                child_exit,
                shutting_down: true,
                kill_deadline: Some((asked_at + 10_000_000_000) as u128),
            })
        }),
    decreases wakeups.len(),
{
    let shorter = wakeups.drop_last();
    let last = wakeups.len() - 1;
    assert forall|i: int| 0 <= i < shorter.len() implies #[trigger] shorter[i] == wakeups[i] by {}
    if first == last {
        law_unasked_worker_is_left_alone(child_exit, shorter);
        assert(sent_after(child_exit, wakeups).terms == seq![woke_at(wakeups[first])]);
    } else {
        law_first_request_sends_term(child_exit, shorter, first);
        assert(!out_of_patience(wakeups[last], woke_at(wakeups[first])));
    }
}

/// The first wait that runs out ten seconds or more after the first request to stop
/// has SIGKILL sent, then and only then, and after that nothing is sent any more.
///
/// `first` is the wakeup that asked first, and `late` the wait that ran out.
pub proof fn law_patience_ends_with_kill(
    child_exit: libc::c_int,
    wakeups: Seq<Wakeup>,
    first: int,
    late: int,
)
    requires
        0 <= first < late < wakeups.len(),
        asks(wakeups[first]),
        forall|i: int| 0 <= i < first ==> !asks(#[trigger] wakeups[i]),
        woke_at(wakeups[first]) + 10_000_000_000 <= u128::MAX,
        out_of_patience(wakeups[late], woke_at(wakeups[first])),
        forall|i: int|
            first < i < late ==> !out_of_patience(
                #[trigger] wakeups[i],
                woke_at(wakeups[first]),
            ),
    ensures
        ({
            let sent = sent_after(child_exit, wakeups);
            &&& sent.terms == seq![woke_at(wakeups[first])]
            &&& sent.kills == seq![woke_at(wakeups[late])]
            &&& sent.state == (Supervised {
                child_exit,
                shutting_down: true,
                kill_deadline: None,
            })
        }),
    decreases wakeups.len(),
{
    let shorter = wakeups.drop_last();
    let last = wakeups.len() - 1;
    assert forall|i: int| 0 <= i < shorter.len() implies #[trigger] shorter[i] == wakeups[i] by {}
    if late == last {
        law_first_request_sends_term(child_exit, shorter, first);
        assert(sent_after(child_exit, wakeups).kills == seq![woke_at(wakeups[late])]);
    } else {
        law_patience_ends_with_kill(child_exit, shorter, first, late);
    }
}

} // verus!
