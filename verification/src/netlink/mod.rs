//! Conntrack events from the kernel.

pub mod constants;
pub mod laws;
pub mod parser;
pub mod reading;
pub mod socket;

pub use parser::parse_conntrack_messages;
