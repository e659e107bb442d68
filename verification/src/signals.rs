//! What pending signals mean to the event loops.
//!
//! The signals are blocked process-wide and read from a descriptor, so the
//! loops wait for them with `poll()` alongside their other descriptors.

use vstd::prelude::*;

verus! {

/// What one read of the signal descriptor returned.
#[derive(Debug, Clone, Copy, PartialEq, Eq, Structural)]
pub enum SignalRead {
    /// A signal, by its number.
    Signal(u32),
    /// The end of the descriptor.
    End,
    /// Nothing is pending.
    WouldBlock,
    /// The read was interrupted.
    Interrupted,
    /// The read failed in another way.
    Failed,
}

/// What to do after a read of the signal descriptor.
#[derive(Debug, Clone, Copy, PartialEq, Eq, Structural)]
pub enum DrainMove {
    /// Read again.
    ReadAgain,
    /// Everything that was pending has been read.
    Drained,
    /// Report the error.
    Fail,
}

/// The signals read so far.
#[derive(Debug)]
pub struct PendingSignals {
    pub signals: Vec<libc::c_int>,
}

impl PendingSignals {
    pub fn new() -> (pending: PendingSignals)
        ensures
            pending.signals@.len() == 0,
    {
        PendingSignals { signals: Vec::new() }
    }

    /// Take note of what a read returned. Draining ends when nothing is
    /// pending; an interrupted read is repeated.
    pub fn on_read(&mut self, read: SignalRead) -> (next: DrainMove)
        ensures
            next == (match read {
                SignalRead::Signal(_) => DrainMove::ReadAgain,
                SignalRead::End => DrainMove::Drained,
                SignalRead::WouldBlock => DrainMove::Drained,
                SignalRead::Interrupted => DrainMove::ReadAgain,
                SignalRead::Failed => DrainMove::Fail,
            }),
            final(self).signals@ == (match read {
                SignalRead::Signal(signo) => old(self).signals@.push(signo as libc::c_int),
                _ => old(self).signals@,
            }),
    {
        match read {
            SignalRead::Signal(signo) => {
                // Signal numbers are small positive integers.
                self.signals.push(signo as libc::c_int);
                DrainMove::ReadAgain
            },
            SignalRead::End => DrainMove::Drained,
            SignalRead::WouldBlock => DrainMove::Drained,
            SignalRead::Interrupted => DrainMove::ReadAgain,
            SignalRead::Failed => DrainMove::Fail,
        }
    }
}

/// The first of some signals other than `child_exit`.
pub open spec fn first_shutdown(
    pending: Seq<libc::c_int>,
    child_exit: libc::c_int,
) -> Option<libc::c_int>
    decreases pending.len(),
{
    if pending.len() == 0 {
        None
    } else if pending.first() != child_exit {
        Some(pending.first())
    } else {
        first_shutdown(pending.drop_first(), child_exit)
    }
}

/// The first pending signal that asks a supervisor to stop. The one that reports
/// the exit of a child (`SIGCHLD`, whose number is the platform's) needs no
/// handling beyond waking the loop.
pub fn shutdown_signal(pending: &[libc::c_int], child_exit: libc::c_int) -> (signal: Option<
    libc::c_int,
>)
    ensures
        signal == first_shutdown(pending@, child_exit),
{
    let mut i: usize = 0;
    assert(pending@.skip(0) == pending@);
    while i < pending.len()
        invariant
            i <= pending@.len(),
            first_shutdown(pending@, child_exit) == first_shutdown(
                pending@.skip(i as int),
                child_exit,
            ),
        decreases pending@.len() - i,
    {
        if pending[i] != child_exit {
            return Some(pending[i]);
        }
        assert(pending@.skip(i as int).drop_first() == pending@.skip(i + 1));
        i = i + 1;
    }
    None
}

/// Whether `poll()` on a single descriptor, which returned `ret`, found
/// something to read.
pub fn poll_found_data(ret: libc::c_int, revents: i16) -> (readable: bool)
    ensures
        readable == (ret > 0 && revents & crate::netlink::socket::POLLIN != 0),
{
    ret > 0 && crate::netlink::socket::is_readable(revents)
}

/// Of some pending signals, the first that is another than the one reporting the
/// exit of a child asks to stop. If there is no other, none does.
pub proof fn law_first_shutdown(pending: Seq<libc::c_int>, child_exit: libc::c_int)
    ensures
        first_shutdown(pending, child_exit) is None <==> forall|i: int|
            0 <= i < pending.len() ==> #[trigger] pending[i] == child_exit,
        forall|i: int|
            #![trigger pending[i]]
            0 <= i < pending.len() && pending[i] != child_exit && (forall|j: int|
                0 <= j < i ==> #[trigger] pending[j] == child_exit) ==> first_shutdown(
                pending,
                child_exit,
            ) == Some(pending[i]),
    decreases pending.len(),
{
    if pending.len() > 0 && pending[0] == child_exit {
        let rest = pending.drop_first();
        law_first_shutdown(rest, child_exit);
        if first_shutdown(pending, child_exit) is None {
            assert forall|i: int| 0 <= i < pending.len() implies #[trigger] pending[i]
                == child_exit by {
                if i > 0 {
                    assert(rest[i - 1] == child_exit);
                }
            }
        } else {
            let k = choose|k: int| 0 <= k < rest.len() && #[trigger] rest[k] != child_exit;
            assert(pending[k + 1] != child_exit);
        }
        assert forall|i: int|
            #![trigger pending[i]]
            0 <= i < pending.len() && pending[i] != child_exit && (forall|j: int|
                0 <= j < i ==> #[trigger] pending[j] == child_exit) implies first_shutdown(
            pending,
            child_exit,
        ) == Some(pending[i]) by {
            assert(i > 0);
            assert(rest[i - 1] == pending[i]);
            assert forall|j: int| 0 <= j < i - 1 implies #[trigger] rest[j] == child_exit by {
                assert(pending[j + 1] == child_exit);
            }
        }
    } else if pending.len() > 0 {
        assert(pending[0] != child_exit);
        assert forall|i: int|
            #![trigger pending[i]]
            0 <= i < pending.len() && pending[i] != child_exit && (forall|j: int|
                0 <= j < i ==> #[trigger] pending[j] == child_exit) implies i == 0 by {
            if i > 0 {
                assert(pending[0] == child_exit);
            }
        }
    }
}

} // verus!
