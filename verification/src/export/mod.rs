//! Turning events into flow records for a collector.

pub mod elements;
pub mod encoder;
pub mod laws;
pub mod reading;
pub mod record;
pub mod template;

pub use encoder::Encoder;
pub use template::{CounterWidth, Profile, Protocol, Template};
