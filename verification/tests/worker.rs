//! The event loop, driven by hand.

use conntrack_exporter::config::{ExportOptions, ExportSettings};
use conntrack_exporter::event::{ConntrackEvent, NatEventType};
use conntrack_exporter::export::{Profile, Protocol};
use conntrack_exporter::net::Ipv4Addr;
use conntrack_exporter::netlink::socket::Datagram;
use conntrack_exporter::worker::{AfterPoll, Counters, StatsReport, Worker, FLUSH_TIMEOUT_MS};

const SECOND: u128 = 1_000_000_000;

fn settings(protocol: Protocol, counter_width: u8) -> ExportSettings {
    ExportOptions {
        protocol,
        profile: Profile::Full,
        counter_width,
        template_id: 256,
        template_interval: 30,
    }
    .validate()
    .unwrap()
}

fn worker() -> Worker {
    Worker::new(settings(Protocol::Ipfix, 8), 7, 0, 0)
}

fn event(src_port: u16) -> ConntrackEvent {
    ConntrackEvent {
        nat_event: NatEventType::Create,
        protocol: 6,
        src_ip: Ipv4Addr::new(192, 168, 1, 10),
        dst_ip: Ipv4Addr::new(8, 8, 8, 8),
        src_port,
        dst_port: 53,
        post_nat_src_ip: Ipv4Addr::new(203, 0, 113, 5),
        post_nat_src_port: 40000,
        post_nat_dst_ip: Ipv4Addr::new(8, 8, 8, 8),
        post_nat_dst_port: 53,
        orig_bytes: 700,
        orig_packets: 7,
        reply_bytes: 900,
        reply_packets: 9,
    }
}

fn datagram(len: usize) -> Datagram {
    Datagram { len, datagram_len: len, sender_portid: 0 }
}

fn be16(bytes: &[u8]) -> u16 {
    u16::from_be_bytes([bytes[0], bytes[1]])
}

fn be32(bytes: &[u8]) -> u32 {
    u32::from_be_bytes([bytes[0], bytes[1], bytes[2], bytes[3]])
}

/// The source ports of the records in an IPFIX message, in order.
fn source_ports(message: &[u8]) -> Vec<u16> {
    let mut ports = Vec::new();
    let mut offset = 16;
    while offset < message.len() {
        let set_id = be16(&message[offset..]);
        let set_len = be16(&message[offset + 2..]) as usize;
        if set_id == 256 {
            let mut at = offset + 4;
            while at < offset + set_len {
                ports.push(be16(&message[at + 10..]));
                at += 58;
            }
        }
        offset += set_len;
    }
    assert_eq!(offset, message.len());
    ports
}

#[test]
fn the_first_message_carries_the_template_without_traffic() {
    let mut worker = worker();
    worker.tick(0);
    let out = worker.flush().expect("the template is worth sending");
    assert_eq!(out.count, 0);
    assert_eq!(out.data.len(), 16 + 72);
    assert_eq!(be32(&out.data[8..12]), 0);
    assert_eq!(be32(&out.data[12..16]), 7, "observation domain id");
    assert!(worker.flush().is_none(), "nothing is left");
}

#[test]
fn the_template_is_repeated_at_its_interval() {
    let mut worker = worker();
    worker.tick(0);
    assert!(worker.flush().is_some());

    worker.tick(29 * SECOND);
    assert!(worker.flush().is_none(), "too early");

    worker.tick(30 * SECOND);
    let out = worker.flush().expect("due");
    assert_eq!(out.data.len(), 16 + 72);

    worker.tick(31 * SECOND);
    assert!(worker.flush().is_none(), "the interval starts anew");
}

#[test]
fn a_due_template_waits_for_the_message_under_way() {
    let mut worker = worker();
    worker.tick(0);
    worker.flush();

    assert!(worker.on_datagram(&datagram(100), SECOND));
    assert!(worker.on_event(&event(1), SECOND).is_none());
    worker.tick(40 * SECOND);
    let out = worker.flush().unwrap();
    assert_eq!(out.data.len(), 16 + 4 + 58, "no template in this one");

    worker.tick(40 * SECOND);
    assert_eq!(worker.flush().unwrap().data.len(), 16 + 72);
}

#[test]
fn every_event_is_exported_once_and_in_order() {
    let mut worker = worker();
    let mut ports = Vec::new();
    let mut sequence = 0u32;
    for port in 0..100u16 {
        if let Some(out) = worker.on_event(&event(port), 0) {
            assert!(out.data.len() <= 1472);
            assert_eq!(be32(&out.data[8..12]), sequence, "records sent before");
            let found = source_ports(&out.data);
            assert_eq!(found.len(), out.count as usize);
            sequence += out.count;
            ports.extend(found);
        }
    }
    let out = worker.flush().unwrap();
    assert_eq!(be32(&out.data[8..12]), sequence);
    ports.extend(source_ports(&out.data));
    assert_eq!(ports, (0..100).collect::<Vec<u16>>());
    assert!(worker.flush().is_none());
}

#[test]
fn a_full_message_is_returned_when_the_next_event_does_not_fit() {
    let mut worker = worker();
    // With the template: 16 + 72 + 4 + 23 * 58 = 1426; one more would be 1484.
    for port in 0..23 {
        assert!(worker.on_event(&event(port), 0).is_none());
    }
    let out = worker.on_event(&event(23), 0).expect("full");
    assert_eq!(out.count, 23);
    assert_eq!(out.data.len(), 1426);
    // Without it: 16 + 4 + 25 * 58 = 1470.
    for port in 24..48 {
        assert!(worker.on_event(&event(port), 0).is_none());
    }
    let out = worker.on_event(&event(48), 0).expect("full");
    assert_eq!(out.count, 25);
    assert_eq!(out.data.len(), 1470);
}

#[test]
fn an_empty_datagram_is_passed_over() {
    let mut worker = worker();
    assert!(!worker.on_datagram(&datagram(0), 0));
    assert!(worker.flush().is_none());

    // One without events begins a message, and that carries the template.
    assert!(worker.on_datagram(&datagram(20), 0));
    assert_eq!(worker.flush().unwrap().count, 0);

    // The next one has nothing to carry and is not worth sending.
    assert!(worker.on_datagram(&datagram(20), 0));
    assert!(worker.flush().is_none());
    assert_eq!(worker.poll_timeout(0), FLUSH_TIMEOUT_MS);
}

#[test]
fn waiting_ends_at_the_next_deadline() {
    let mut worker = worker();
    worker.tick(0);
    assert_eq!(worker.poll_timeout(0), 100, "a message is under way");
    worker.flush();
    assert_eq!(worker.poll_timeout(0), 10_000, "the stats come first");
    assert_eq!(worker.poll_timeout(4 * SECOND), 6_000);
    worker.report(0, 25 * SECOND);
    assert_eq!(worker.poll_timeout(25 * SECOND), 5_000, "then the template");
    assert_eq!(worker.poll_timeout(99 * SECOND), 0, "overdue");
}

#[test]
fn stats_are_due_every_ten_seconds() {
    let mut worker = worker();
    assert!(!worker.stats_due(10 * SECOND - 1));
    assert!(worker.stats_due(10 * SECOND));
    assert!(worker.report(0, 10 * SECOND).is_none(), "nothing happened");
    assert!(!worker.stats_due(19 * SECOND));
    assert!(worker.stats_due(20 * SECOND));
}

#[test]
fn a_report_tells_what_was_added_and_the_total() {
    let mut worker = Worker::new(settings(Protocol::Ipfix, 4), 0, 5, 0);
    worker.on_send_failed();
    worker.on_send_failed();
    worker.on_datagram(&Datagram { len: 10, datagram_len: 11, sender_portid: 0 }, 0);
    worker.on_datagram(&Datagram { len: 10, datagram_len: 10, sender_portid: 9 }, 0);
    let mut busy = event(1);
    busy.orig_bytes = u64::MAX;
    busy.reply_bytes = 1 << 32;
    worker.on_event(&busy, 0);

    let first = Counters { nl_drops: 3, send_errors: 2, truncated: 1, foreign: 1, clamped: 2 };
    let total = Counters { nl_drops: 8, ..first };
    let report = worker.report(8, 10 * SECOND).unwrap();
    assert_eq!(report, StatsReport { new: first, total });
    assert_eq!(
        report.to_string(),
        "drops: nl_recv=3 udp_send=2 truncated=1 foreign=1 clamped=2 \
         (total: nl_recv=8 udp_send=2 truncated=1 foreign=1 clamped=2)"
    );

    assert!(worker.report(8, 20 * SECOND).is_none(), "nothing was added");
    worker.on_send_failed();
    let report = worker.report(8, 30 * SECOND).unwrap();
    assert_eq!(report.new.send_errors, 1);
    assert_eq!(report.total.send_errors, 3);
    assert_eq!(report.new.nl_drops, 0);
}

#[test]
fn netflow9_messages_count_packets() {
    let mut worker = Worker::new(settings(Protocol::Netflow9, 8), 3, 0, 0);
    worker.on_event(&event(1), 0);
    let first = worker.flush().unwrap();
    assert_eq!(be16(&first.data[0..2]), 9);
    assert_eq!(be16(&first.data[2..4]), 2, "the template and a record");
    assert_eq!(be32(&first.data[12..16]), 0);
    assert_eq!(be32(&first.data[16..20]), 3);

    worker.on_event(&event(2), 0);
    worker.on_event(&event(3), 0);
    let second = worker.flush().unwrap();
    assert_eq!(be16(&second.data[2..4]), 2);
    assert_eq!(be32(&second.data[12..16]), 1);
    assert_eq!(second.data.len() % 4, 0);
}

#[test]
fn a_signal_stops_the_worker_and_flushes_it() {
    let mut worker = worker();
    worker.on_event(&event(1), 0);
    assert!(matches!(worker.after_poll(&[], true), AfterPoll::Receive));
    match worker.after_poll(&[libc::SIGTERM], true) {
        AfterPoll::Stop(Some(out)) => assert_eq!(out.count, 1),
        other => panic!("{other:?}"),
    }
    assert!(matches!(
        worker.after_poll(&[libc::SIGTERM], false),
        AfterPoll::Stop(None)
    ));
}

#[test]
fn a_timeout_flushes_what_is_pending() {
    let mut worker = worker();
    assert!(matches!(worker.after_poll(&[], false), AfterPoll::Wait(None)));
    worker.on_event(&event(1), 0);
    match worker.after_poll(&[], false) {
        AfterPoll::Wait(Some(out)) => assert_eq!(out.count, 1),
        other => panic!("{other:?}"),
    }
    assert!(matches!(worker.after_poll(&[], false), AfterPoll::Wait(None)));
}

#[test]
fn an_empty_message_under_way_does_not_hold_the_template_back() {
    let mut worker = worker();
    worker.tick(0);
    worker.flush();

    // Datagrams without NAT events keep a message open that has nothing in it.
    assert!(worker.on_datagram(&datagram(20), SECOND));
    worker.tick(30 * SECOND);
    assert_eq!(worker.flush().expect("due").data.len(), 16 + 72);
}
