//! Conntrack NAT event export.

pub mod bytes;
pub mod clock;
pub mod config;
pub mod deadline;
pub mod event;
pub mod export;
pub mod ipfix;
pub mod net;
pub mod netlink;
pub mod operations;
pub mod signals;
pub mod startup;
pub mod supervisor;
pub mod sysctl;
pub mod text;
pub mod worker;
pub mod worker_laws;
