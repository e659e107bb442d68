//! What holds of the encoders across configurations and calls, on concrete
//! values.

use conntrack_exporter::bytes::{get_be, get_le, put_be, ByteOrder};
use conntrack_exporter::clock::{seconds_field, uptime_field};
use conntrack_exporter::event::{ConntrackEvent, NatEventType};
use conntrack_exporter::export::elements::MAX_MSG_SIZE;
use conntrack_exporter::export::record::write_record;
use conntrack_exporter::export::{CounterWidth, Encoder, Profile, Protocol, Template};
use conntrack_exporter::ipfix::IpfixEncoder;
use conntrack_exporter::net::Ipv4Addr;

const PROTOCOLS: [Protocol; 2] = [Protocol::Ipfix, Protocol::Netflow9];
const PROFILES: [Profile; 3] = [Profile::Full, Profile::NatSource, Profile::FlowOnly];
const WIDTHS: [CounterWidth; 2] = [CounterWidth::Four, CounterWidth::Eight];

fn event() -> ConntrackEvent {
    ConntrackEvent {
        nat_event: NatEventType::Create,
        protocol: 6,
        src_ip: Ipv4Addr::new(192, 168, 1, 10),
        dst_ip: Ipv4Addr::new(8, 8, 8, 8),
        src_port: 1234,
        dst_port: 53,
        post_nat_src_ip: Ipv4Addr::new(203, 0, 113, 5),
        post_nat_src_port: 40000,
        post_nat_dst_ip: Ipv4Addr::new(10, 0, 0, 99),
        post_nat_dst_port: 8080,
        orig_bytes: 1 << 40,
        orig_packets: 7,
        reply_bytes: 900,
        reply_packets: 9,
    }
}

fn template(protocol: Protocol, profile: Profile, width: CounterWidth) -> Template {
    Template::resolve(protocol, profile, width, 256).unwrap()
}

#[test]
fn the_fixed_encoder_writes_what_the_default_configuration_writes() {
    let mut fixed = IpfixEncoder::new(42);
    let mut general =
        Encoder::new(42, template(Protocol::Ipfix, Profile::Full, CounterWidth::Eight));
    for include_template in [true, false, false] {
        fixed.begin_message(include_template);
        general.begin_message(include_template);
        loop {
            let added = fixed.add_record(&event());
            assert_eq!(general.add_record(&event()), added);
            if !added {
                break;
            }
        }
        let (left, left_count) = fixed.finalize_at(1_700_000_000);
        let (right, right_count) = general.finalize_at(1_700_000_000, 5);
        assert_eq!(left, right);
        assert_eq!(left_count, right_count);
    }
    assert_eq!(fixed.sequence_number(), general.sequence_number());
}

#[test]
fn the_record_body_is_the_same_under_both_protocols() {
    for profile in PROFILES {
        for width in WIDTHS {
            let mut bodies = Vec::new();
            for protocol in PROTOCOLS {
                let template = template(protocol, profile, width);
                let mut buf = vec![0u8; template.record_size];
                let mut offset = 0;
                write_record(&mut buf, &mut offset, &template.fields, &event());
                bodies.push(buf);
            }
            assert_eq!(bodies[0], bodies[1], "{profile:?}/{width:?}");
        }
    }
}

#[test]
fn a_message_is_a_header_and_sets_of_the_announced_length() {
    for protocol in PROTOCOLS {
        for profile in PROFILES {
            for width in WIDTHS {
                let template = template(protocol, profile, width);
                let mut enc = Encoder::new(1, template.clone());
                enc.begin_message(true);
                for _ in 0..3 {
                    assert!(enc.add_record(&event()));
                }
                let (message, count) = enc.finalize_at(100, 200);
                assert_eq!(count, 3);

                let mut offset = protocol.header_len();
                let mut ids = Vec::new();
                while offset < message.len() {
                    ids.push(u16::from_be_bytes([message[offset], message[offset + 1]]));
                    let len =
                        u16::from_be_bytes([message[offset + 2], message[offset + 3]]) as usize;
                    assert_eq!(len % protocol.set_alignment(), 0);
                    offset += len;
                }
                assert_eq!(offset, message.len(), "the sets fill the message");
                assert_eq!(ids, vec![protocol.template_set_id(), 256]);
                assert_eq!(
                    message.len(),
                    protocol.header_len() + template.set_size() + template.data_set_size(3)
                );
            }
        }
    }
}

#[test]
fn a_header_carries_the_given_times() {
    let mut enc = Encoder::new(9, template(Protocol::Netflow9, Profile::Full, CounterWidth::Eight));
    enc.begin_message(true);
    let (message, _) = enc.finalize_at(0x0102_0304, 0x0506_0708);
    assert_eq!(
        &message[..20],
        &[0, 9, 0, 1, 5, 6, 7, 8, 1, 2, 3, 4, 0, 0, 0, 0, 0, 0, 0, 9]
    );

    let mut enc = Encoder::new(9, template(Protocol::Ipfix, Profile::Full, CounterWidth::Eight));
    enc.begin_message(true);
    let (message, _) = enc.finalize_at(0x0102_0304, 0x0506_0708);
    assert_eq!(
        &message[..16],
        &[0, 10, 0, 88, 1, 2, 3, 4, 0, 0, 0, 0, 0, 0, 0, 9]
    );
}

#[test]
fn a_fresh_message_has_room_in_every_configuration() {
    for protocol in PROTOCOLS {
        for profile in PROFILES {
            for width in WIDTHS {
                for include_template in [false, true] {
                    let mut enc = Encoder::new(0, template(protocol, profile, width));
                    enc.begin_message(include_template);
                    assert!(enc.add_record(&event()));
                    let (message, _) = enc.finalize_at(0, 0);
                    assert!(message.len() <= MAX_MSG_SIZE);
                }
            }
        }
    }
}

#[test]
fn a_wide_value_is_clamped_only_in_a_narrow_field() {
    for (width, clamped) in [(CounterWidth::Four, 1), (CounterWidth::Eight, 0)] {
        let mut enc = Encoder::new(0, template(Protocol::Ipfix, Profile::Full, width));
        enc.begin_message(false);
        assert!(enc.add_record(&event()));
        assert_eq!(enc.saturated_counters(), clamped);
    }
}

#[test]
fn numbers_read_back_in_the_order_they_were_written() {
    let mut buf = [0u8; 8];
    let mut offset = 1;
    put_be(&mut buf, &mut offset, 0x0102_0304, 3);
    assert_eq!(offset, 4);
    assert_eq!(buf, [0, 2, 3, 4, 0, 0, 0, 0], "the low bytes");
    assert_eq!(get_be(&[1, 2, 3]), 0x0001_0203);
    assert_eq!(get_le(&[1, 2, 3]), 0x0003_0201);
    assert_eq!(get_be(&[0xff; 8]), u64::MAX);
    assert_eq!(ByteOrder::Little.get(&[1, 0]), 1);
    assert_eq!(ByteOrder::Big.get(&[1, 0]), 256);
}

#[test]
fn header_times_wrap_at_their_field() {
    assert_eq!(uptime_field(15), 15);
    assert_eq!(uptime_field((1 << 32) + 7), 7);
    assert_eq!(seconds_field(Some(1_700_000_000)), 1_700_000_000);
    assert_eq!(seconds_field(Some((1 << 32) + 1)), 1);
    assert_eq!(seconds_field(None), 0);
}

#[test]
fn a_byte_order_is_told_by_what_two_bytes_spell() {
    assert_eq!(ByteOrder::from_probe(1), ByteOrder::Little);
    assert_eq!(ByteOrder::from_probe(256), ByteOrder::Big);
    for order in [ByteOrder::Little, ByteOrder::Big] {
        let probe = order.get(&[1, 0]) as u16;
        assert_eq!(ByteOrder::from_probe(probe), order);
    }
}

/// With the template or without it, a message takes as many records as fit it:
/// one more would take it past the limit.
#[test]
fn nothing_is_refused_for_padding_that_is_not_needed() {
    for protocol in PROTOCOLS {
        let alignment = protocol.set_alignment();
        for profile in PROFILES {
            for width in WIDTHS {
                for include_template in [true, false] {
                    let template = template(protocol, profile, width);
                    let size = template.record_size;
                    let mut encoder = Encoder::new(0, template);
                    encoder.begin_message(include_template);
                    let mut accepted = 0;
                    while encoder.add_record(&event()) {
                        accepted += 1;
                    }
                    let (message, _) = encoder.finalize_at(0, 0);
                    let padded = |records: usize| (4 + records * size).div_ceil(alignment) * alignment;
                    let more = message.len() - padded(accepted) + padded(accepted + 1);
                    assert!(message.len() <= MAX_MSG_SIZE);
                    assert!(more > MAX_MSG_SIZE, "{protocol:?}/{profile:?}/{width:?}");
                }
            }
        }
    }
    // Without the template there is room for more of the largest records.
    let mut encoder =
        Encoder::new(0, template(Protocol::Netflow9, Profile::Full, CounterWidth::Eight));
    encoder.begin_message(false);
    let mut accepted = 0;
    while encoder.add_record(&event()) {
        accepted += 1;
    }
    assert_eq!(accepted, (MAX_MSG_SIZE - 24) / 58);
}

/// The seconds and the milliseconds a clock reads each end up in the field that
/// is theirs, cut to its 32 bits.
#[test]
fn clock_readings_are_shown_in_their_own_fields() {
    let mut encoder =
        Encoder::new(7, template(Protocol::Netflow9, Profile::Full, CounterWidth::Eight));
    encoder.begin_message(false);
    assert!(encoder.add_record(&event()));
    let (message, count) = encoder.finalize_read(Some(0x1_0000_0005), 0x2_0000_0009);
    assert_eq!(count, 1);
    assert_eq!(message[4..8], [0, 0, 0, 9], "sysUpTime");
    assert_eq!(message[8..12], [0, 0, 0, 5], "export time");

    encoder.begin_message(false);
    let (message, _) = encoder.finalize_read(None, 70_000);
    assert_eq!(message[4..8], 70_000u32.to_be_bytes());
    assert_eq!(message[8..12], [0; 4], "a clock set before the epoch");

    let mut fixed = IpfixEncoder::new(7);
    fixed.begin_message(false);
    assert!(fixed.add_record(&event()));
    let (message, count) = fixed.finalize_read(Some(0x1_0000_0005));
    assert_eq!(count, 1);
    assert_eq!(message[4..8], [0, 0, 0, 5], "export time");
    fixed.begin_message(false);
    let (message, _) = fixed.finalize_read(None);
    assert_eq!(message[4..8], [0; 4]);
}
