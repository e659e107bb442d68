//! Deadlines on the monotonic clock, which is read in nanoseconds since some
//! fixed point.

use vstd::prelude::*;

verus! {

pub const NANOS_PER_MILLI: u128 = 1_000_000;
pub const NANOS_PER_SEC: u128 = 1_000_000_000;

/// How long ago `start` was, and zero if it is still to come.
pub open spec fn elapsed(start_ns: int, now_ns: int) -> int {
    if now_ns > start_ns {
        now_ns - start_ns
    } else {
        0
    }
}

/// Whole milliseconds in a span, as far as `poll()` can wait at a time.
pub open spec fn poll_millis(span_ns: int) -> int {
    let millis = span_ns / (NANOS_PER_MILLI as int);
    if millis <= i32::MAX {
        millis
    } else {
        i32::MAX as int
    }
}

/// Milliseconds from `now` until `deadline`, clamped to a poll() timeout.
pub fn ms_until(deadline_ns: u128, now_ns: u128) -> (millis: i32)
    ensures
        millis == poll_millis(elapsed(now_ns as int, deadline_ns as int)),
        millis >= 0,
{
    let left: u128 = if deadline_ns > now_ns {
        deadline_ns - now_ns
    } else {
        0
    };
    let millis: u128 = left / NANOS_PER_MILLI;
    if millis <= i32::MAX as u128 {
        millis as i32
    } else {
        i32::MAX
    }
}

/// Whether a whole `seconds` have passed since `start`.
pub fn has_passed(start_ns: u128, seconds: u64, now_ns: u128) -> (passed: bool)
    ensures
        passed == (elapsed(start_ns as int, now_ns as int) >= seconds * NANOS_PER_SEC),
{
    let waited: u128 = if now_ns > start_ns {
        now_ns - start_ns
    } else {
        0
    };
    waited >= seconds as u128 * NANOS_PER_SEC
}

/// Milliseconds until `seconds` have passed since `start`, clamped to a poll()
/// timeout.
pub fn ms_until_passed(start_ns: u128, seconds: u64, now_ns: u128) -> (millis: i32)
    ensures
        millis == poll_millis(
            elapsed(elapsed(start_ns as int, now_ns as int), seconds * NANOS_PER_SEC),
        ),
        millis >= 0,
{
    let waited: u128 = if now_ns > start_ns {
        now_ns - start_ns
    } else {
        0
    };
    ms_until(seconds as u128 * NANOS_PER_SEC, waited)
}

/// A wait until a deadline is as long as it takes, in milliseconds that have begun
/// and ended before it, unless that is more than `poll()` can be asked for. A
/// deadline that has passed is not waited for.
pub proof fn law_wait_reaches_the_deadline(now_ns: int, deadline_ns: int)
    ensures
        ({
            let millis = poll_millis(elapsed(now_ns, deadline_ns));
            &&& deadline_ns <= now_ns ==> millis == 0
            &&& deadline_ns > now_ns ==> {
                &&& 0 <= millis <= 2_147_483_647
                &&& millis * 1_000_000 <= deadline_ns - now_ns
                &&& millis < 2_147_483_647 ==> deadline_ns - now_ns < (millis + 1) * 1_000_000
            }
        }),
{
}

/// Seconds have passed since some point once the clock shows a thousand million
/// nanoseconds more for each of them.
pub proof fn law_seconds_pass(start_ns: int, seconds: u64, now_ns: int)
    ensures
        elapsed(start_ns, now_ns) >= seconds * NANOS_PER_SEC <==> seconds == 0 || now_ns - start_ns
            >= seconds * 1_000_000_000,
{
}

/// A wait until seconds have passed since some point ends no later than they have,
/// and less than a millisecond before that, unless it is more than `poll()` can be
/// asked for.
pub proof fn law_wait_until_seconds_pass(start_ns: int, seconds: u64, now_ns: int)
    requires
        start_ns <= now_ns,
    ensures
        ({
            let millis = poll_millis(elapsed(elapsed(start_ns, now_ns), seconds * NANOS_PER_SEC));
            let due_ns = start_ns + seconds * 1_000_000_000;
            &&& due_ns <= now_ns ==> millis == 0
            &&& due_ns > now_ns ==> {
                &&& 0 <= millis <= 2_147_483_647
                &&& now_ns + millis * 1_000_000 <= due_ns
                &&& millis < 2_147_483_647 ==> due_ns < now_ns + (millis + 1) * 1_000_000
            }
        }),
{
}

} // verus!
