//! Constants that have to agree with the platform's.

use conntrack_exporter::netlink::constants::{
    buffer_size, socklen, AF_NETLINK_FAMILY, DEFAULT_RECV_BUF_SIZE, DEFAULT_SEND_BUF_SIZE,
    IPS_DST_NAT, IPS_NAT_MASK, IPS_SRC_NAT, NFPROTO_IPV4, NFPROTO_IPV6, RECV_SLOT_SIZE,
};
use conntrack_exporter::netlink::socket::{POLLIN, SK_MEMINFO_DROPS, SK_MEMINFO_VARS};

#[test]
fn a_buffer_size_too_large_for_an_int_becomes_the_largest_one_that_fits() {
    assert_eq!(buffer_size(usize::MAX), libc::c_int::MAX);
    assert!(buffer_size(usize::MAX) > 0, "must not wrap negative");
    assert_eq!(buffer_size(libc::c_int::MAX as usize + 1), libc::c_int::MAX);
}

#[test]
fn an_ordinary_buffer_size_is_passed_through() {
    assert_eq!(buffer_size(DEFAULT_RECV_BUF_SIZE), 4 * 1024 * 1024);
    assert_eq!(buffer_size(0), 0);
    assert_eq!(buffer_size(libc::c_int::MAX as usize), libc::c_int::MAX);
}

#[test]
fn address_families_are_those_of_the_platform() {
    assert_eq!(i32::from(NFPROTO_IPV4), libc::AF_INET);
    assert_eq!(i32::from(NFPROTO_IPV6), libc::AF_INET6);
    assert_eq!(i32::from(AF_NETLINK_FAMILY), libc::AF_NETLINK);
}

#[test]
fn poll_flags_are_those_of_the_platform() {
    assert_eq!(POLLIN, libc::POLLIN);
}

#[test]
fn the_nat_mask_covers_both_directions() {
    assert_eq!(IPS_NAT_MASK, IPS_SRC_NAT | IPS_DST_NAT);
    assert_eq!(IPS_SRC_NAT, 1 << 4);
    assert_eq!(IPS_DST_NAT, 1 << 5);
}

#[test]
fn buffers_have_their_documented_sizes() {
    assert_eq!(DEFAULT_RECV_BUF_SIZE, 4 * 1024 * 1024);
    assert_eq!(DEFAULT_SEND_BUF_SIZE, 4 * 1024 * 1024);
    assert_eq!(RECV_SLOT_SIZE, 64 * 1024);
}

#[test]
fn option_lengths_are_those_of_the_types() {
    assert_eq!(socklen::<libc::c_int>(), 4);
    assert_eq!(socklen::<libc::sockaddr_nl>(), 12);
    assert_eq!(socklen::<[u32; SK_MEMINFO_VARS]>(), 36);
    assert!(SK_MEMINFO_DROPS < SK_MEMINFO_VARS);
}
