//! The supervisor's decisions.

use conntrack_exporter::deadline::{has_passed, ms_until, ms_until_passed};
use conntrack_exporter::signals::{
    poll_found_data, shutdown_signal, DrainMove, PendingSignals, SignalRead,
};
use conntrack_exporter::supervisor::{
    fork_role, should_restart, try_reap, AfterWorker, ForkRole, Reaped, SuperviseAction,
    Supervised, Supervision, WORKER_STOP_GRACE_NS,
};

/// A wait status as the kernel encodes it.
fn exited(code: i32) -> i32 {
    code << 8
}

#[test]
fn a_clean_exit_is_not_restarted() {
    assert!(!should_restart(exited(0)));
}

#[test]
fn a_failed_or_killed_worker_is_restarted() {
    assert!(should_restart(exited(1)));
    assert!(should_restart(exited(255)));
    assert!(should_restart(libc::SIGKILL));
    assert!(should_restart(libc::SIGSEGV | 0x80), "with a core dump");
    assert!(!should_restart(0x7f), "merely stopped");
}

#[test]
fn the_end_of_a_worker_decides_what_comes_next() {
    assert_eq!(Supervision::ShutdownRequested.next(), AfterWorker::Stop);
    assert_eq!(Supervision::Exited(exited(0)).next(), AfterWorker::WorkerDone);
    assert_eq!(Supervision::Exited(exited(1)).next(), AfterWorker::Restart);
}

#[test]
fn fork_tells_parent_and_child_apart() {
    assert_eq!(fork_role(-1), ForkRole::Failed);
    assert_eq!(fork_role(0), ForkRole::Child);
    assert_eq!(fork_role(42), ForkRole::Parent(42));
}

#[test]
fn waiting_without_blocking_has_three_outcomes() {
    assert_eq!(try_reap(42, 42, exited(3), false), Reaped::Exited(exited(3)));
    assert_eq!(try_reap(0, 42, 0, false), Reaped::Running);
    assert_eq!(try_reap(-1, 42, 0, true), Reaped::Running, "interrupted");
    assert_eq!(try_reap(-1, 42, 0, false), Reaped::Failed);
}

#[test]
fn a_worker_that_exits_by_itself_is_reported_with_its_status() {
    let supervised = Supervised::new(libc::SIGCHLD);
    assert_eq!(supervised.timeout(123), -1, "nothing to wait for but signals");
    assert_eq!(supervised.on_exit(exited(1)), Supervision::Exited(exited(1)));
}

#[test]
fn a_worker_is_asked_before_it_is_killed() {
    let mut supervised = Supervised::new(libc::SIGCHLD);
    assert_eq!(supervised.on_signals(&[libc::SIGCHLD], 0), None);
    assert!(!supervised.on_timeout(u128::MAX));

    let asked = supervised.on_signals(&[libc::SIGCHLD, libc::SIGTERM, libc::SIGINT], 1000);
    assert_eq!(asked, Some(libc::SIGTERM));
    assert_eq!(supervised.on_signals(&[libc::SIGINT], 2000), None, "only once");
    assert_eq!(supervised.timeout(1000), 10_000);

    assert!(!supervised.on_timeout(WORKER_STOP_GRACE_NS));
    assert!(supervised.on_timeout(1000 + WORKER_STOP_GRACE_NS));
    assert!(!supervised.on_timeout(u128::MAX), "only once");
    assert_eq!(supervised.timeout(0), -1);
    assert_eq!(supervised.on_exit(libc::SIGKILL), Supervision::ShutdownRequested);
}

#[test]
fn a_deadline_becomes_a_poll_timeout() {
    assert_eq!(ms_until(5_000_000, 2_000_000), 3);
    assert_eq!(ms_until(5_999_999, 2_000_000), 3, "whole milliseconds");
    assert_eq!(ms_until(1, 2), 0, "already passed");
    assert_eq!(ms_until(u128::MAX, 0), i32::MAX, "as long as poll can wait");
}

#[test]
fn an_interval_has_passed_once_it_is_over() {
    assert!(!has_passed(10, 1, 1_000_000_009));
    assert!(has_passed(10, 1, 1_000_000_010));
    assert!(!has_passed(10, 1, 0), "the clock is behind");
    assert_eq!(ms_until_passed(0, 10, 4_000_000_000), 6_000);
    assert_eq!(ms_until_passed(0, 10, 11_000_000_000), 0);
}

#[test]
fn pending_signals_are_drained_until_none_is_left() {
    let mut pending = PendingSignals::new();
    assert_eq!(pending.on_read(SignalRead::Signal(15)), DrainMove::ReadAgain);
    assert_eq!(pending.on_read(SignalRead::Interrupted), DrainMove::ReadAgain);
    assert_eq!(pending.on_read(SignalRead::Signal(2)), DrainMove::ReadAgain);
    assert_eq!(pending.on_read(SignalRead::WouldBlock), DrainMove::Drained);
    assert_eq!(pending.signals, vec![15, 2]);
    assert_eq!(pending.on_read(SignalRead::End), DrainMove::Drained);
    assert_eq!(pending.on_read(SignalRead::Failed), DrainMove::Fail);
    assert_eq!(pending.signals, vec![15, 2]);
}

#[test]
fn a_child_exit_alone_is_no_request_to_stop() {
    assert_eq!(shutdown_signal(&[], libc::SIGCHLD), None);
    assert_eq!(shutdown_signal(&[libc::SIGCHLD, libc::SIGCHLD], libc::SIGCHLD), None);
    assert_eq!(
        shutdown_signal(&[libc::SIGCHLD, libc::SIGINT], libc::SIGCHLD),
        Some(libc::SIGINT)
    );
    // The number is the platform's: where it is another, 17 asks to stop.
    assert_eq!(shutdown_signal(&[18, 17], 18), Some(17));
}

#[test]
fn a_poll_that_timed_out_found_nothing() {
    assert!(poll_found_data(1, libc::POLLIN));
    assert!(!poll_found_data(0, libc::POLLIN));
    assert!(!poll_found_data(1, libc::POLLERR));
}

#[test]
fn a_wakeup_leads_to_at_most_one_signal() {
    let mut supervised = Supervised::new(libc::SIGCHLD);
    assert_eq!(supervised.on_wakeup(Some(&[libc::SIGCHLD]), 0), SuperviseAction::Wait);
    assert_eq!(supervised.on_wakeup(None, 0), SuperviseAction::Wait);
    assert_eq!(
        supervised.on_wakeup(Some(&[libc::SIGINT]), 5),
        SuperviseAction::Terminate(libc::SIGINT)
    );
    assert_eq!(supervised.on_wakeup(Some(&[libc::SIGINT]), 6), SuperviseAction::Wait);
    assert_eq!(
        supervised.on_wakeup(None, WORKER_STOP_GRACE_NS),
        SuperviseAction::Wait,
        "a little early"
    );
    assert_eq!(
        supervised.on_wakeup(None, WORKER_STOP_GRACE_NS + 5),
        SuperviseAction::Kill
    );
    assert_eq!(
        supervised.on_wakeup(None, WORKER_STOP_GRACE_NS + 6),
        SuperviseAction::Wait
    );
}
