//! Messages with the fixed NAT event record.

use conntrack_exporter::event::{ConntrackEvent, NatEventType};
use conntrack_exporter::ipfix::constants::{
    DATA_RECORD_SIZE, ENTERPRISE_BIT, ENTERPRISE_NUMBER_LEN, FIELD_SPECIFIER_LEN,
    IPFIX_HEADER_LEN, IPFIX_VERSION, MAX_IPFIX_MSG_SIZE, NAT44_SESSION_CREATE,
    NAT44_SESSION_DELETE, NAT_TEMPLATE_ID, SET_HEADER_LEN, TEMPLATE_FIELD_COUNT, TEMPLATE_SET_ID,
};
use conntrack_exporter::ipfix::template::{nat_template_fields, record_size, template_set_size};
use conntrack_exporter::ipfix::IpfixEncoder;
use conntrack_exporter::net::Ipv4Addr;

fn event() -> ConntrackEvent {
    ConntrackEvent {
        nat_event: NatEventType::Create,
        protocol: 6,
        src_ip: Ipv4Addr::new(192, 168, 1, 10),
        dst_ip: Ipv4Addr::new(8, 8, 8, 8),
        src_port: 1234,
        dst_port: 53,
        post_nat_src_ip: Ipv4Addr::new(203, 0, 113, 5),
        post_nat_src_port: 40000,
        post_nat_dst_ip: Ipv4Addr::new(8, 8, 8, 8),
        post_nat_dst_port: 53,
        orig_bytes: 700,
        orig_packets: 7,
        reply_bytes: 900,
        reply_packets: 9,
    }
}

fn be16(bytes: &[u8]) -> u16 {
    u16::from_be_bytes([bytes[0], bytes[1]])
}

fn be32(bytes: &[u8]) -> u32 {
    u32::from_be_bytes([bytes[0], bytes[1], bytes[2], bytes[3]])
}

fn be64(bytes: &[u8]) -> u64 {
    u64::from_be_bytes(bytes[..8].try_into().unwrap())
}

#[test]
fn message_header_describes_the_message() {
    let mut enc = IpfixEncoder::new(42);
    enc.begin_message(false);
    assert!(enc.add_record(&event()));
    let (msg, count) = enc.finalize();

    assert_eq!(count, 1);
    assert_eq!(be16(&msg[0..2]), IPFIX_VERSION);
    assert_eq!(be16(&msg[2..4]) as usize, msg.len(), "length field must match");
    assert_ne!(be32(&msg[4..8]), 0, "export time should be set");
    assert_eq!(be32(&msg[8..12]), 0, "first message starts at sequence 0");
    assert_eq!(be32(&msg[12..16]), 42, "observation domain id");
}

#[test]
fn a_template_only_message_carries_no_data_set() {
    let mut enc = IpfixEncoder::new(0);
    enc.begin_message(true);

    assert!(enc.template_included());
    assert!(
        enc.has_pending_output(),
        "a template alone is worth sending"
    );

    let (msg, count) = enc.finalize();
    assert_eq!(count, 0);
    assert_eq!(msg.len(), IPFIX_HEADER_LEN + template_set_size());
    assert_eq!(be16(&msg[2..4]) as usize, msg.len());

    // Exactly one set, the template set, with no empty data set trailing it.
    assert_eq!(be16(&msg[16..18]), TEMPLATE_SET_ID);
    assert_eq!(be16(&msg[18..20]) as usize, template_set_size());
    assert_eq!(be16(&msg[20..22]), NAT_TEMPLATE_ID);
    assert_eq!(be16(&msg[22..24]), TEMPLATE_FIELD_COUNT);
}

#[test]
fn an_empty_message_without_a_template_is_not_worth_sending() {
    let mut enc = IpfixEncoder::new(0);
    enc.begin_message(false);
    assert!(!enc.has_pending_output());
}

#[test]
fn the_template_describes_the_fields_the_encoder_writes() {
    let mut enc = IpfixEncoder::new(0);
    enc.begin_message(true);
    let (msg, _) = enc.finalize();

    let mut offset = IPFIX_HEADER_LEN + SET_HEADER_LEN + 4; // sets, template header
    let mut record_size = 0;
    for field in nat_template_fields() {
        let raw_id = be16(&msg[offset..]);
        let length = be16(&msg[offset + 2..]);
        offset += FIELD_SPECIFIER_LEN;

        assert_eq!(length, field.length);
        match field.enterprise {
            Some(pen) => {
                assert_eq!(raw_id & ENTERPRISE_BIT, ENTERPRISE_BIT, "enterprise bit");
                assert_eq!(raw_id & !ENTERPRISE_BIT, field.ie_id);
                assert_eq!(be32(&msg[offset..]), pen);
                offset += ENTERPRISE_NUMBER_LEN;
            }
            None => {
                assert_eq!(raw_id, field.ie_id);
                assert_eq!(raw_id & ENTERPRISE_BIT, 0, "no enterprise bit");
            }
        }
        record_size += length as usize;
    }

    assert_eq!(offset, msg.len(), "template set consumes the whole message");
    assert_eq!(record_size, DATA_RECORD_SIZE);
}

#[test]
fn record_fields_are_written_in_template_order() {
    let mut enc = IpfixEncoder::new(0);
    enc.begin_message(false);
    assert!(enc.add_record(&event()));
    let (msg, _) = enc.finalize();

    // Data set header, then the record.
    assert_eq!(be16(&msg[16..18]), NAT_TEMPLATE_ID);
    assert_eq!(
        be16(&msg[18..20]) as usize,
        SET_HEADER_LEN + DATA_RECORD_SIZE
    );

    let r = &msg[20..];
    assert_eq!(r.len(), DATA_RECORD_SIZE);
    assert_eq!(r[0], NAT44_SESSION_CREATE);
    assert_eq!(r[1], 6);
    assert_eq!(&r[2..6], &[192, 168, 1, 10]);
    assert_eq!(&r[6..10], &[8, 8, 8, 8]);
    assert_eq!(be16(&r[10..12]), 1234);
    assert_eq!(be16(&r[12..14]), 53);
    assert_eq!(&r[14..18], &[203, 0, 113, 5]);
    assert_eq!(be16(&r[18..20]), 40000);
    assert_eq!(&r[20..24], &[8, 8, 8, 8]);
    assert_eq!(be16(&r[24..26]), 53);
    assert_eq!(be64(&r[26..34]), 700, "octetDeltaCount");
    assert_eq!(be64(&r[34..42]), 7, "packetDeltaCount");
    assert_eq!(be64(&r[42..50]), 900, "reverseOctetDeltaCount");
    assert_eq!(be64(&r[50..58]), 9, "reversePacketDeltaCount");
}

#[test]
fn a_delete_event_sets_the_delete_nat_event_code() {
    let mut enc = IpfixEncoder::new(0);
    enc.begin_message(false);
    let mut ev = event();
    ev.nat_event = NatEventType::Delete;
    assert!(enc.add_record(&ev));
    let (msg, _) = enc.finalize();
    assert_eq!(msg[20], NAT44_SESSION_DELETE);
}

/// Fill a message and return (records accepted, encoded length).
fn fill(include_template: bool) -> (u32, usize) {
    let mut enc = IpfixEncoder::new(0);
    enc.begin_message(include_template);
    let mut accepted = 0;
    while enc.add_record(&event()) {
        accepted += 1;
        assert!(accepted < 1000, "add_record never reported the message full");
    }
    let (msg, count) = enc.finalize();
    assert_eq!(count, accepted);
    (accepted, msg.len())
}

#[test]
fn a_full_message_stays_within_the_mtu_budget() {
    for include_template in [false, true] {
        let (records, len) = fill(include_template);
        assert!(records > 0);
        assert!(
            len <= MAX_IPFIX_MSG_SIZE,
            "{len} bytes exceeds the {MAX_IPFIX_MSG_SIZE} byte limit"
        );
        // One more record would not have fit.
        assert!(len + DATA_RECORD_SIZE > MAX_IPFIX_MSG_SIZE);
    }
}

#[test]
fn a_template_leaves_room_for_fewer_records() {
    let (without, _) = fill(false);
    let (with, _) = fill(true);
    assert!(with < without);
}

#[test]
fn a_rejected_record_fits_in_a_fresh_message() {
    let mut enc = IpfixEncoder::new(0);
    enc.begin_message(false);
    while enc.add_record(&event()) {}
    enc.finalize();

    // This is the recovery path the worker takes when a message fills up.
    enc.begin_message(false);
    assert!(enc.add_record(&event()));
}

#[test]
fn the_sequence_number_counts_records_sent_before_each_message() {
    let mut enc = IpfixEncoder::new(0);

    enc.begin_message(false);
    assert!(enc.add_record(&event()));
    assert!(enc.add_record(&event()));
    let (msg, count) = enc.finalize();
    assert_eq!(count, 2);
    assert_eq!(be32(&msg[8..12]), 0);

    enc.begin_message(false);
    assert!(enc.add_record(&event()));
    let (msg, _) = enc.finalize();
    assert_eq!(be32(&msg[8..12]), 2, "counts records, not messages");

    // A template-only message carries no records and must not advance it.
    enc.begin_message(true);
    let (msg, count) = enc.finalize();
    assert_eq!(count, 0);
    assert_eq!(be32(&msg[8..12]), 3);

    enc.begin_message(false);
    assert!(enc.add_record(&event()));
    let (msg, _) = enc.finalize();
    assert_eq!(be32(&msg[8..12]), 3);
}

#[test]
fn the_sequence_number_wraps_instead_of_overflowing() {
    let mut enc = IpfixEncoder::resume(0, u32::MAX);
    enc.begin_message(false);
    assert!(enc.add_record(&event()));
    assert!(enc.add_record(&event()));
    enc.finalize();
    assert_eq!(enc.sequence_number(), 1);
}

#[test]
fn the_template_adds_up_to_the_documented_sizes() {
    assert_eq!(record_size(), 58);
    assert_eq!(template_set_size(), 72);
    assert_eq!(nat_template_fields().len(), 14);
}
