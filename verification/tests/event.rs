//! Events, addresses and kernel settings as text.

use conntrack_exporter::event::{ConntrackEvent, NatEventType};
use conntrack_exporter::net::Ipv4Addr;
use conntrack_exporter::sysctl::{conntrack_sysctl_settings, sysctl_update, SysctlFailure};

#[test]
fn an_event_is_one_line() {
    let event = ConntrackEvent {
        nat_event: NatEventType::Delete,
        protocol: 17,
        src_ip: Ipv4Addr::new(192, 168, 1, 10),
        dst_ip: Ipv4Addr::new(8, 8, 8, 8),
        src_port: 1234,
        dst_port: 53,
        post_nat_src_ip: Ipv4Addr::new(203, 0, 113, 5),
        post_nat_src_port: 40000,
        post_nat_dst_ip: Ipv4Addr::new(8, 8, 8, 8),
        post_nat_dst_port: 53,
        orig_bytes: 700,
        orig_packets: 7,
        reply_bytes: u64::MAX,
        reply_packets: 0,
    };
    assert_eq!(
        event.to_string(),
        "DELETE proto=17 192.168.1.10:1234 -> 8.8.8.8:53 nat=203.0.113.5:40000 \
         orig=700/7 reply=18446744073709551615/0"
    );
}

#[test]
fn session_changes_have_a_name_and_a_code() {
    assert_eq!(NatEventType::Create.to_string(), "CREATE");
    assert_eq!(NatEventType::Delete.to_string(), "DELETE");
    assert_eq!(NatEventType::Create.as_ipfix_value(), 4);
    assert_eq!(NatEventType::Delete.as_ipfix_value(), 5);
    assert_eq!(NatEventType::Create.nat_event_code(), 4);
    assert_eq!(NatEventType::Delete.nat_event_code(), 5);
}

#[test]
fn addresses_keep_their_octets() {
    assert_eq!(Ipv4Addr::new(1, 2, 3, 4).octets(), [1, 2, 3, 4]);
    assert_eq!(Ipv4Addr::unspecified(), Ipv4Addr::new(0, 0, 0, 0));
}

#[test]
fn event_delivery_is_required_and_accounting_is_not() {
    let settings = conntrack_sysctl_settings(false);
    assert_eq!(settings.len(), 2);
    assert_eq!(settings[0].path, "/proc/sys/net/netfilter/nf_conntrack_acct");
    assert_eq!(settings[0].failure(), SysctlFailure::Warn);
    assert_eq!(settings[1].path, "/proc/sys/net/netfilter/nf_conntrack_events");
    assert_eq!(settings[1].purpose, "conntrack event delivery");
    assert_eq!(settings[1].failure(), SysctlFailure::Fatal);
}

#[test]
fn the_settings_can_be_left_alone() {
    assert!(conntrack_sysctl_settings(true).is_empty());
}

#[test]
fn a_setting_is_written_only_where_it_differs() {
    assert_eq!(sysctl_update("1\n", "1"), None);
    assert_eq!(sysctl_update("  1 \t\r\n", "1"), None);
    assert_eq!(sysctl_update("\u{2003}1\u{3000}", "1"), None);
    assert_eq!(sysctl_update("0\n", "1"), Some("1\n".to_string()));
    assert_eq!(sysctl_update("", "1"), Some("1\n".to_string()));
    assert_eq!(sysctl_update("1 1", "1"), Some("1\n".to_string()));
}
