//! A stand-alone IPFIX encoder for one fixed record: the NAT event record with
//! every field and eight-byte counters.

pub mod constants;
pub mod encoder;
pub mod template;

pub use encoder::IpfixEncoder;
