//! Setting up the event socket, and reading what a receive returned.

use conntrack_exporter::netlink::socket::{
    after_buffer_option, after_receive, drops_from, is_readable, BufferMove, Datagram, OpenMove,
    OpenStep, ReceiveBatch, ReceiveMove, ReceiveOutcome, Received,
};

/// Open a socket on which the calls in `failing` fail, and return every call
/// that was made with where that led.
fn open(failing: &[OpenStep]) -> (Vec<OpenStep>, OpenMove) {
    let mut made = Vec::new();
    let mut step = OpenStep::Create;
    loop {
        made.push(step);
        let ret = if failing.contains(&step) { -1 } else { 0 };
        match step.after(ret) {
            OpenMove::Perform(next) => step = next,
            end => return (made, end),
        }
    }
}

#[test]
fn a_socket_opens_in_a_fixed_order() {
    let (made, end) = open(&[]);
    assert_eq!(
        made,
        vec![
            OpenStep::Create,
            OpenStep::ForceBuffer,
            OpenStep::Bind,
            OpenStep::JoinNew,
            OpenStep::JoinDestroy,
            OpenStep::NoEnobufs,
        ]
    );
    assert_eq!(end, OpenMove::Opened);
}

#[test]
fn a_buffer_that_cannot_be_set_is_no_reason_to_fail() {
    let (made, end) = open(&[OpenStep::ForceBuffer, OpenStep::Buffer, OpenStep::NoEnobufs]);
    assert!(made.contains(&OpenStep::Buffer), "the fallback is tried");
    assert_eq!(end, OpenMove::Opened);
    assert!(!OpenStep::ForceBuffer.deserves_warning(-1));
    assert!(OpenStep::Buffer.deserves_warning(-1));
    assert!(OpenStep::NoEnobufs.deserves_warning(-1));
    assert!(!OpenStep::Buffer.deserves_warning(0));
}

#[test]
fn the_calls_that_matter_fail_for_good() {
    for step in [
        OpenStep::Create,
        OpenStep::Bind,
        OpenStep::JoinNew,
        OpenStep::JoinDestroy,
    ] {
        let (made, end) = open(&[step]);
        assert_eq!(end, OpenMove::Failed(step));
        assert_eq!(made.last(), Some(&step), "nothing is done after it");
    }
}

#[test]
fn both_groups_are_joined_by_number() {
    assert_eq!(OpenStep::JoinNew.group(), Some(1));
    assert_eq!(OpenStep::JoinDestroy.group(), Some(3));
    assert_eq!(OpenStep::Bind.group(), None);
}

#[test]
fn failures_are_named() {
    assert_eq!(OpenStep::Create.to_string(), "Failed to create netlink socket");
    assert_eq!(OpenStep::Bind.to_string(), "Failed to bind netlink socket");
    assert_eq!(
        OpenStep::JoinDestroy.to_string(),
        "Failed to join NFNLGRP_CONNTRACK_DESTROY: NETLINK_ADD_MEMBERSHIP group 3"
    );
    assert_eq!(
        OpenStep::JoinNew.to_string(),
        "Failed to join NFNLGRP_CONNTRACK_NEW: NETLINK_ADD_MEMBERSHIP group 1"
    );
}

#[test]
fn the_forcing_option_falls_back_once() {
    assert_eq!(after_buffer_option(true, 0), BufferMove::Done);
    assert_eq!(after_buffer_option(true, -1), BufferMove::FallBack);
    assert_eq!(after_buffer_option(false, 0), BufferMove::Done);
    assert_eq!(after_buffer_option(false, -1), BufferMove::Warn);
}

#[test]
fn drops_are_the_last_of_the_values() {
    assert_eq!(drops_from(0, &[1, 2, 3, 4, 5, 6, 7, 8, 9]), 9);
    assert_eq!(drops_from(-1, &[1, 2, 3, 4, 5, 6, 7, 8, 9]), 0);
}

#[test]
fn only_pollin_counts_as_readable() {
    assert!(is_readable(libc::POLLIN));
    assert!(is_readable(libc::POLLIN | libc::POLLHUP));
    assert!(!is_readable(libc::POLLHUP));
    assert!(!is_readable(0));
}

#[test]
fn a_batch_hands_out_what_was_received() {
    let mut batch = ReceiveBatch::new(3, 4);
    assert_eq!(batch.capacity(), 3);
    assert_eq!(batch.capacity_as_c_uint(), 3);
    assert_eq!(batch.slot_len(), 4);
    assert_eq!(batch.filled(), 0);

    let mut storage = batch.lend();
    assert_eq!(storage.len(), 12);
    storage[0..2].copy_from_slice(&[1, 2]);
    storage[4..8].copy_from_slice(&[3, 4, 5, 6]);
    batch.accept(
        storage,
        vec![
            Received { datagram_len: 2, sender_portid: 0 },
            Received { datagram_len: 9, sender_portid: 77 },
        ],
    );

    assert_eq!(batch.filled(), 2);
    let (datagram, bytes) = batch.datagram(0);
    assert_eq!(datagram, Datagram { len: 2, datagram_len: 2, sender_portid: 0 });
    assert_eq!(bytes, &[1, 2]);
    let (datagram, bytes) = batch.datagram(1);
    assert_eq!(
        datagram,
        Datagram { len: 4, datagram_len: 9, sender_portid: 77 },
        "cut to its slot"
    );
    assert_eq!(bytes, &[3, 4, 5, 6]);
}

#[test]
fn a_new_receive_forgets_the_last_one() {
    let mut batch = ReceiveBatch::new(1, 2);
    let storage = batch.lend();
    batch.accept(storage, vec![Received { datagram_len: 1, sender_portid: 0 }]);
    assert_eq!(batch.filled(), 1);
    let storage = batch.lend();
    assert_eq!(batch.filled(), 0);
    batch.accept(storage, vec![]);
    assert_eq!(batch.filled(), 0, "a receive that failed filled none");
}

#[test]
fn a_receive_is_repeated_until_nothing_is_queued() {
    assert_eq!(after_receive(ReceiveOutcome::Filled(1)), ReceiveMove::ReceiveAgain);
    assert_eq!(after_receive(ReceiveOutcome::Filled(32)), ReceiveMove::ReceiveAgain);
    assert_eq!(after_receive(ReceiveOutcome::Filled(0)), ReceiveMove::Stop);
    assert_eq!(after_receive(ReceiveOutcome::WouldBlock), ReceiveMove::Stop);
    assert_eq!(after_receive(ReceiveOutcome::Interrupted), ReceiveMove::Stop);
    assert_eq!(after_receive(ReceiveOutcome::Failed), ReceiveMove::Report);
}
