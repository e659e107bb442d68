//! The conntrack event socket: how it is set up, and what a receive returns.

use super::constants::{NFNLGRP_CONNTRACK_DESTROY, NFNLGRP_CONNTRACK_NEW};
use crate::text;
use vstd::prelude::*;

verus! {

/// `POLLIN`: there is data to read.
pub const POLLIN: i16 = 0x1;

/// How many values `SO_MEMINFO` reports, and which of them counts drops.
pub const SK_MEMINFO_VARS: usize = 9;
pub const SK_MEMINFO_DROPS: usize = 8;

/// One datagram read from the netlink socket.
#[derive(Debug, Clone, Copy, PartialEq, Eq, Structural)]
pub struct Datagram {
    /// Bytes actually available in the caller's buffer.
    pub len: usize,
    /// The datagram's full length as reported by the kernel. Greater than
    /// `len` when the buffer was too small and the remainder was discarded.
    pub datagram_len: usize,
    /// Netlink port ID of the sender. Kernel-originated messages use 0.
    pub sender_portid: u32,
}

/// What the kernel writes back about one received datagram.
#[derive(Debug, Clone, Copy, PartialEq, Eq, Structural)]
pub struct Received {
    /// The datagram's real length, which can exceed the slot it was read into.
    pub datagram_len: u32,
    /// Netlink port ID of the sender.
    pub sender_portid: u32,
}

/// What a batch holds.
pub struct BatchView {
    pub slots: nat,
    pub slot_len: nat,
    /// The slots' buffers, end to end. `None` while a receive is writing to
    /// them.
    pub storage: Option<Seq<u8>>,
    /// One entry for each slot the last receive filled.
    pub received: Seq<Received>,
}

impl BatchView {
    /// The datagram in a slot.
    pub open spec fn datagram(self, index: int) -> Datagram {
        let full = self.received[index].datagram_len as nat;
        Datagram {
            len: (if full <= self.slot_len {
                full
            } else {
                self.slot_len
            }) as usize,
            datagram_len: full as usize,
            sender_portid: self.received[index].sender_portid,
        }
    }

    /// The bytes a slot holds.
    pub open spec fn contents(self, index: int) -> Seq<u8> {
        let start = index * self.slot_len;
        self.storage->0.subrange(start, start + self.datagram(index).len)
    }
}

/// Buffers for one batched receive.
///
/// The buffers are allocated once and reused for every receive: one receive
/// borrows them with [`ReceiveBatch::lend`] and brings them back, with what the
/// kernel reported of each slot, with [`ReceiveBatch::accept`].
pub struct ReceiveBatch {
    /// One receive buffer per slot, laid out end to end.
    storage: Vec<u8>,
    lent: bool,
    slots: usize,
    slot_len: usize,
    /// Slots the last receive filled.
    received: Vec<Received>,
}

impl View for ReceiveBatch {
    type V = BatchView;

    closed spec fn view(&self) -> BatchView {
        BatchView {
            slots: self.slots as nat,
            slot_len: self.slot_len as nat,
            storage: if self.lent {
                None
            } else {
                Some(self.storage@)
            },
            received: self.received@,
        }
    }
}

impl ReceiveBatch {
    pub closed spec fn wf(&self) -> bool {
        &&& self.slots > 0
        &&& self.slot_len > 0
        &&& self.slots * self.slot_len <= usize::MAX
        &&& !self.lent ==> self.storage@.len() == self.slots * self.slot_len
        &&& self.received@.len() <= self.slots
        &&& self.lent ==> self.received@.len() == 0
    }

    /// A batch of `slots` datagrams, each up to `slot_len` bytes. Neither
    /// dimension may be zero, which would make the batch useless.
    #[must_use]
    pub fn new(slots: usize, slot_len: usize) -> (batch: ReceiveBatch)
        requires
            slots > 0,
            slot_len > 0,
            slots * slot_len <= isize::MAX,
        ensures
            batch.wf(),
            batch@.slots == slots,
            batch@.slot_len == slot_len,
            batch@.storage is Some,
            batch@.received.len() == 0,
    {
        let size: usize = slots * slot_len;
        ReceiveBatch {
            storage: vec![0u8; size],
            lent: false,
            slots,
            slot_len,
            received: Vec::new(),
        }
    }

    /// Slots in the batch, which is the most one receive can return.
    #[must_use]
    pub fn capacity(&self) -> (slots: usize)
        ensures
            slots == self@.slots,
    {
        self.slots
    }

    /// The same, at the width `recvmmsg` takes it.
    pub fn capacity_as_c_uint(&self) -> (slots: libc::c_uint)
        requires
            self@.slots <= u32::MAX,
        ensures
            slots == self@.slots,
    {
        self.slots as libc::c_uint
    }

    /// How long each slot's buffer is.
    #[must_use]
    pub fn slot_len(&self) -> (len: usize)
        ensures
            len == self@.slot_len,
    {
        self.slot_len
    }

    /// Slots the last receive filled.
    #[must_use]
    pub fn filled(&self) -> (filled: usize)
        ensures
            filled == self@.received.len(),
    {
        self.received.len()
    }

    /// Hand out the buffers for a receive to write to, and forget what the last
    /// receive filled.
    pub fn lend(&mut self) -> (storage: Vec<u8>)
        requires
            old(self).wf(),
            old(self)@.storage is Some,
        ensures
            final(self).wf(),
            Some(storage@) == old(self)@.storage,
            storage@.len() == old(self)@.slots * old(self)@.slot_len,
            final(self)@ == (BatchView {
                storage: None,
                received: Seq::empty(),
                ..old(self)@
            }),
    {
        let mut storage: Vec<u8> = Vec::new();
        std::mem::swap(&mut storage, &mut self.storage);
        self.lent = true;
        self.received = Vec::new();
        storage
    }

    /// Take the buffers back, with what the kernel wrote about each slot it
    /// filled. A receive that failed filled none.
    pub fn accept(&mut self, storage: Vec<u8>, received: Vec<Received>)
        requires
            old(self).wf(),
            old(self)@.storage is None,
            storage@.len() == old(self)@.slots * old(self)@.slot_len,
            received@.len() <= old(self)@.slots,
        ensures
            final(self).wf(),
            final(self)@ == (BatchView {
                storage: Some(storage@),
                received: received@,
                ..old(self)@
            }),
    {
        self.storage = storage;
        self.received = received;
        self.lent = false;
    }

    /// The datagram in slot `index`, and the bytes it holds. Only what the last
    /// receive filled can be asked for.
    #[must_use]
    pub fn datagram(&self, index: usize) -> (slot: (Datagram, &[u8]))
        requires
            self.wf(),
            self@.storage is Some,
            index < self@.received.len(),
        ensures
            slot.0 == self@.datagram(index as int),
            slot.1@ == self@.contents(index as int),
            slot.1@.len() == slot.0.len,
    {
        // This is the datagram's real length, which can exceed the slot it was
        // read into.
        let datagram_len: usize = self.received[index].datagram_len as usize;
        let len: usize = if datagram_len <= self.slot_len {
            datagram_len
        } else {
            self.slot_len
        };
        proof {
            assert(index * self.slot_len + self.slot_len <= self.slots * self.slot_len)
                by (nonlinear_arith)
                requires
                    index < self.slots,
            ;
            assert(index * self.slot_len >= 0) by (nonlinear_arith);
        }
        let start: usize = index * self.slot_len;
        (
            Datagram { len, datagram_len, sender_portid: self.received[index].sender_portid },
            &self.storage[start..start + len],
        )
    }
}

/// How one batched receive went.
#[derive(Debug, Clone, Copy, PartialEq, Eq, Structural)]
pub enum ReceiveOutcome {
    /// This many slots were filled.
    Filled(usize),
    /// Nothing was queued.
    WouldBlock,
    /// A signal arrived first.
    Interrupted,
    /// It failed for another reason.
    Failed,
}

/// What follows from a batched receive, once what it filled has been handled.
#[derive(Debug, Clone, Copy, PartialEq, Eq, Structural)]
pub enum ReceiveMove {
    /// Receive again: more may be queued.
    ReceiveAgain,
    /// Go back to waiting.
    Stop,
    /// Report the failure, and go back to waiting.
    Report,
}

/// The socket is drained until nothing is queued. An interrupted receive is not
/// repeated, so that a pending shutdown is noticed, and neither of the two is
/// worth a report.
pub fn after_receive(outcome: ReceiveOutcome) -> (next: ReceiveMove)
    ensures
        next == (match outcome {
            ReceiveOutcome::Filled(slots) => if slots > 0 {
                ReceiveMove::ReceiveAgain
            } else {
                ReceiveMove::Stop
            },
            ReceiveOutcome::WouldBlock => ReceiveMove::Stop,
            ReceiveOutcome::Interrupted => ReceiveMove::Stop,
            ReceiveOutcome::Failed => ReceiveMove::Report,
        }),
{
    match outcome {
        ReceiveOutcome::Filled(slots) if slots > 0 => ReceiveMove::ReceiveAgain,
        ReceiveOutcome::Failed => ReceiveMove::Report,
        _ => ReceiveMove::Stop,
    }
}

/// A slot's bytes never reach into another slot.
pub proof fn law_slots_are_disjoint(batch: BatchView, i: int, j: int)
    requires
        0 <= i < j,
        batch.slot_len <= usize::MAX,
    ensures
        i * batch.slot_len + batch.datagram(i).len <= j * batch.slot_len,
{
    assert(i * batch.slot_len + batch.slot_len <= j * batch.slot_len) by (nonlinear_arith)
        requires
            i < j,
    ;
}

/// What is to be done next about the size of a socket buffer.
#[derive(Debug, Clone, Copy, PartialEq, Eq, Structural)]
pub enum BufferMove {
    /// The size is set.
    Done,
    /// Ask again with the option that needs no privilege.
    FallBack,
    /// The size stays what it was. That deserves a warning, and no more.
    Warn,
}

/// What follows from an attempt to set the size of a socket buffer. The forcing
/// option, which needs `CAP_NET_ADMIN`, is tried first.
pub fn after_buffer_option(forced: bool, ret: libc::c_int) -> (next: BufferMove)
    ensures
        next == (if ret >= 0 {
            BufferMove::Done
        } else if forced {
            BufferMove::FallBack
        } else {
            BufferMove::Warn
        }),
{
    if ret >= 0 {
        BufferMove::Done
    } else if forced {
        BufferMove::FallBack
    } else {
        BufferMove::Warn
    }
}

/// A system call on the way to an open socket.
#[derive(Debug, Clone, Copy, PartialEq, Eq, Structural)]
pub enum OpenStep {
    /// Create the socket.
    Create,
    /// Set the receive buffer size, whether or not the limits allow it.
    ForceBuffer,
    /// Set the receive buffer size within the limits.
    Buffer,
    /// Bind the socket. The kernel assigns the port, and no groups are joined
    /// that way.
    Bind,
    /// Join a multicast group.
    JoinNew,
    JoinDestroy,
    /// Drop silently under overload instead of reporting it.
    NoEnobufs,
}

/// Where the way to an open socket has led.
#[derive(Debug, Clone, Copy, PartialEq, Eq, Structural)]
pub enum OpenMove {
    /// Make this call next.
    Perform(OpenStep),
    /// The socket is open.
    Opened,
    /// Opening it failed for good at this call.
    Failed(OpenStep),
}

impl OpenStep {
    /// What follows when a call has succeeded or failed.
    pub open spec fn spec_after(self, ret: libc::c_int) -> OpenMove {
        let failed = ret < 0;
        match self {
            OpenStep::Create => if failed {
                OpenMove::Failed(self)
            } else {
                OpenMove::Perform(OpenStep::ForceBuffer)
            },
            OpenStep::ForceBuffer => if failed {
                OpenMove::Perform(OpenStep::Buffer)
            } else {
                OpenMove::Perform(OpenStep::Bind)
            },
            OpenStep::Buffer => OpenMove::Perform(OpenStep::Bind),
            OpenStep::Bind => if failed {
                OpenMove::Failed(self)
            } else {
                OpenMove::Perform(OpenStep::JoinNew)
            },
            OpenStep::JoinNew => if failed {
                OpenMove::Failed(self)
            } else {
                OpenMove::Perform(OpenStep::JoinDestroy)
            },
            OpenStep::JoinDestroy => if failed {
                OpenMove::Failed(self)
            } else {
                OpenMove::Perform(OpenStep::NoEnobufs)
            },
            OpenStep::NoEnobufs => OpenMove::Opened,
        }
    }

    /// What follows when a call has returned `ret`, which is negative where it
    /// failed.
    pub fn after(self, ret: libc::c_int) -> (next: OpenMove)
        ensures
            next == self.spec_after(ret),
    {
        match self {
            OpenStep::Create => if ret < 0 {
                OpenMove::Failed(self)
            } else {
                OpenMove::Perform(OpenStep::ForceBuffer)
            },
            OpenStep::ForceBuffer => match after_buffer_option(true, ret) {
                BufferMove::FallBack => OpenMove::Perform(OpenStep::Buffer),
                _ => OpenMove::Perform(OpenStep::Bind),
            },
            OpenStep::Buffer => OpenMove::Perform(OpenStep::Bind),
            OpenStep::Bind => if ret < 0 {
                OpenMove::Failed(self)
            } else {
                OpenMove::Perform(OpenStep::JoinNew)
            },
            OpenStep::JoinNew => if ret < 0 {
                OpenMove::Failed(self)
            } else {
                OpenMove::Perform(OpenStep::JoinDestroy)
            },
            OpenStep::JoinDestroy => if ret < 0 {
                OpenMove::Failed(self)
            } else {
                OpenMove::Perform(OpenStep::NoEnobufs)
            },
            OpenStep::NoEnobufs => OpenMove::Opened,
        }
    }

    /// Whether a call that returned `ret` deserves a warning though the socket
    /// is usable: the buffer stays small, or overload will be reported.
    pub fn deserves_warning(self, ret: libc::c_int) -> (warn: bool)
        ensures
            warn == (ret < 0 && (self is Buffer || self is NoEnobufs)),
    {
        ret < 0 && matches!(self, OpenStep::Buffer | OpenStep::NoEnobufs)
    }

    /// The multicast group a call joins.
    pub fn group(self) -> (group: Option<libc::c_int>)
        ensures
            group == (match self {
                OpenStep::JoinNew => Some(NFNLGRP_CONNTRACK_NEW),
                OpenStep::JoinDestroy => Some(NFNLGRP_CONNTRACK_DESTROY),
                _ => None,
            }),
    {
        match self {
            OpenStep::JoinNew => Some(NFNLGRP_CONNTRACK_NEW),
            OpenStep::JoinDestroy => Some(NFNLGRP_CONNTRACK_DESTROY),
            _ => None,
        }
    }

    /// What an operator is told when a call fails.
    pub open spec fn complaint(self) -> Seq<char> {
        match self {
            OpenStep::Create => "Failed to create netlink socket"@,
            OpenStep::ForceBuffer => "SO_RCVBUFFORCE failed, falling back to SO_RCVBUF"@,
            OpenStep::Buffer => "Failed to set SO_RCVBUF"@,
            OpenStep::Bind => "Failed to bind netlink socket"@,
            OpenStep::JoinNew => "Failed to join NFNLGRP_CONNTRACK_NEW: "@
                + "NETLINK_ADD_MEMBERSHIP group "@ + text::decimal(NFNLGRP_CONNTRACK_NEW as nat),
            OpenStep::JoinDestroy => "Failed to join NFNLGRP_CONNTRACK_DESTROY: "@
                + "NETLINK_ADD_MEMBERSHIP group "@ + text::decimal(
                NFNLGRP_CONNTRACK_DESTROY as nat,
            ),
            OpenStep::NoEnobufs => "Failed to set NETLINK_NO_ENOBUFS"@,
        }
    }

    /// What an operator is told when a call fails.
    pub fn to_string(&self) -> (line: String)
        ensures
            line@ == self.complaint(),
    {
        let mut line: String = String::new();
        match *self {
            OpenStep::Create => line.append("Failed to create netlink socket"),
            OpenStep::ForceBuffer => line.append(
                "SO_RCVBUFFORCE failed, falling back to SO_RCVBUF",
            ),
            OpenStep::Buffer => line.append("Failed to set SO_RCVBUF"),
            OpenStep::Bind => line.append("Failed to bind netlink socket"),
            OpenStep::JoinNew => {
                line.append("Failed to join NFNLGRP_CONNTRACK_NEW: ");
                line.append("NETLINK_ADD_MEMBERSHIP group ");
                text::push_decimal(&mut line, NFNLGRP_CONNTRACK_NEW as u64);
            },
            OpenStep::JoinDestroy => {
                line.append("Failed to join NFNLGRP_CONNTRACK_DESTROY: ");
                line.append("NETLINK_ADD_MEMBERSHIP group ");
                text::push_decimal(&mut line, NFNLGRP_CONNTRACK_DESTROY as u64);
            },
            OpenStep::NoEnobufs => line.append("Failed to set NETLINK_NO_ENOBUFS"),
        }
        assert(line@ == self.complaint());
        line
    }
}

/// Where opening the socket ends, if each call returns what `rets` says.
pub open spec fn opening(rets: spec_fn(OpenStep) -> libc::c_int, at: OpenStep) -> OpenMove
    decreases at.remaining(),
{
    match at.spec_after(rets(at)) {
        OpenMove::Perform(next) => opening(rets, next),
        end => end,
    }
}

impl OpenStep {
    /// How many calls can still follow.
    pub open spec fn remaining(self) -> nat {
        match self {
            OpenStep::Create => 6,
            OpenStep::ForceBuffer => 5,
            OpenStep::Buffer => 4,
            OpenStep::Bind => 3,
            OpenStep::JoinNew => 2,
            OpenStep::JoinDestroy => 1,
            OpenStep::NoEnobufs => 0,
        }
    }
}

/// The socket opens exactly when it can be created, bound and subscribed to both
/// groups. The first of these calls that fails is the one that is reported;
/// everything else about the socket is a preference.
pub proof fn law_opening(rets: spec_fn(OpenStep) -> libc::c_int)
    ensures
        opening(rets, OpenStep::Create) == (if rets(OpenStep::Create) < 0 {
            OpenMove::Failed(OpenStep::Create)
        } else if rets(OpenStep::Bind) < 0 {
            OpenMove::Failed(OpenStep::Bind)
        } else if rets(OpenStep::JoinNew) < 0 {
            OpenMove::Failed(OpenStep::JoinNew)
        } else if rets(OpenStep::JoinDestroy) < 0 {
            OpenMove::Failed(OpenStep::JoinDestroy)
        } else {
            OpenMove::Opened
        }),
{
    reveal_with_fuel(opening, 8);
}

/// The drops that `SO_MEMINFO` reports, and none where it could not be asked.
pub fn drops_from(ret: libc::c_int, meminfo: &[u32; SK_MEMINFO_VARS]) -> (drops: u64)
    ensures
        drops == (if ret < 0 {
            0
        } else {
            meminfo@[SK_MEMINFO_DROPS as int]
        }),
{
    if ret < 0 {
        return 0;
    }
    meminfo[SK_MEMINFO_DROPS] as u64
}

/// Whether `poll()` found something to read on a descriptor.
pub fn is_readable(revents: i16) -> (readable: bool)
    ensures
        readable == (revents & POLLIN != 0),
{
    (revents & POLLIN) != 0
}

/// A datagram is as long as the kernel says, but no more of it is there than its slot
/// holds. What is there are the bytes of that slot, from its first on.
pub proof fn law_what_a_slot_holds(batch: BatchView, index: int, i: int)
    requires
        0 <= index < batch.received.len(),
        batch.storage is Some,
        batch.slot_len <= usize::MAX,
        u32::MAX <= usize::MAX,
    ensures
        ({
            let datagram = batch.datagram(index);
            &&& datagram.datagram_len == batch.received[index].datagram_len
            &&& datagram.sender_portid == batch.received[index].sender_portid
            &&& datagram.len <= batch.slot_len
            &&& datagram.len <= datagram.datagram_len
            &&& datagram.len == batch.slot_len || datagram.len == datagram.datagram_len
            &&& 0 <= i < datagram.len && 0 <= index * batch.slot_len && (index + 1)
                * batch.slot_len <= batch.storage->0.len() ==> batch.contents(index)[i]
                == batch.storage->0[index * batch.slot_len + i]
        }),
{
    assert((index + 1) * batch.slot_len == index * batch.slot_len + batch.slot_len)
        by (nonlinear_arith);
}

/// The calls that are made until the socket is open, or until one fails for good.
pub open spec fn calls(rets: spec_fn(OpenStep) -> libc::c_int, at: OpenStep) -> Seq<OpenStep>
    decreases at.remaining(),
{
    match at.spec_after(rets(at)) {
        OpenMove::Perform(next) => seq![at] + calls(rets, next),
        _ => seq![at],
    }
}

/// Which calls open the socket, where none of those that matter fails: create it, force
/// the buffer, ask for the buffer only if it could not be forced, bind it, join both
/// groups, and ask for silent drops.
pub proof fn law_opening_calls(rets: spec_fn(OpenStep) -> libc::c_int)
    requires
        opening(rets, OpenStep::Create) is Opened,
    ensures
        calls(rets, OpenStep::Create) == seq![OpenStep::Create, OpenStep::ForceBuffer] + (
        if rets(OpenStep::ForceBuffer) < 0 {
            seq![OpenStep::Buffer]
        } else {
            Seq::empty()
        }) + seq![
            OpenStep::Bind,
            OpenStep::JoinNew,
            OpenStep::JoinDestroy,
            OpenStep::NoEnobufs,
        ],
{
    reveal_with_fuel(opening, 8);
    reveal_with_fuel(calls, 8);
}

} // verus!
