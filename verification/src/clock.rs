//! Reading the clocks. What they show depends on when they are read, so
//! nothing is stated of it.

use vstd::prelude::*;

verus! {

/// A point on the monotonic clock.
#[verifier::external_type_specification]
#[verifier::external_body]
pub struct ExInstant(std::time::Instant);

/// `std::time::Instant::now`: the present point on the monotonic clock.
#[verifier::external_body]
pub(crate) fn now() -> std::time::Instant {
    std::time::Instant::now()
}

/// `std::time::Instant::elapsed`: the time since `start`, in whole milliseconds.
#[verifier::external_body]
pub(crate) fn elapsed_millis(start: &std::time::Instant) -> u128 {
    start.elapsed().as_millis()
}

/// `std::time::SystemTime::now`: the present, in whole seconds since the Unix
/// epoch, unless the clock is set before it.
#[verifier::external_body]
pub(crate) fn system_seconds() -> Option<u64> {
    std::time::SystemTime::now()
        .duration_since(std::time::UNIX_EPOCH)
        .ok()
        .map(|since| since.as_secs())
}

/// What a header field of 32 bits shows of some milliseconds of uptime: they wrap
/// after ~49.7 days.
pub open spec fn shown_uptime(millis: u128) -> u32 {
    (millis % 0x1_0000_0000) as u32
}

/// What a header field of 32 bits shows of some seconds since the Unix epoch:
/// zero on a clock that is set before it.
pub open spec fn shown_seconds(seconds: Option<u64>) -> u32 {
    match seconds {
        Some(seconds) => (seconds % 0x1_0000_0000) as u32,
        None => 0,
    }
}

/// Milliseconds of uptime, as far as the 32 bits of the header field count.
pub fn uptime_field(millis: u128) -> (field: u32)
    ensures
        field == shown_uptime(millis),
{
    assert(millis as u32 == millis % 0x1_0000_0000) by (bit_vector);
    millis as u32
}

/// Seconds since the Unix epoch, as far as the 32 bits of the header field
/// count, or zero on a clock that is set before it.
pub fn seconds_field(seconds: Option<u64>) -> (field: u32)
    ensures
        field == shown_seconds(seconds),
{
    match seconds {
        Some(seconds) => {
            assert(seconds as u32 == seconds % 0x1_0000_0000) by (bit_vector);
            seconds as u32
        },
        None => 0,
    }
}

/// A header field shows a reading that fits it as it is, and of any other what is
/// left over after whole rounds of 2^32.
pub proof fn law_readings_wrap(seconds: u64, millis: u128)
    ensures
        seconds < 0x1_0000_0000 ==> shown_seconds(Some(seconds)) == seconds,
        millis < 0x1_0000_0000 ==> shown_uptime(millis) == millis,
        (seconds - shown_seconds(Some(seconds))) % 0x1_0000_0000 == 0,
        (millis - shown_uptime(millis)) % 0x1_0000_0000 == 0,
        shown_seconds(None) == 0,
{
}

} // verus!
