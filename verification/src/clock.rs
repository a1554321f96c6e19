//! Moments of a monotonic clock, as nanoseconds since the clock started, and the spans between
//! them.

use vstd::prelude::*;

verus! {

/// Nanoseconds in a second.
pub const NANOS_PER_SECOND: u64 = 1_000_000_000;

/// The nanoseconds from `then` to `now`; none where `then` is not yet past.
pub open spec fn elapsed(now: u64, then: u64) -> int {
    if now > then {
        now - then
    } else {
        0
    }
}

/// Whether no more than `seconds` have passed from `then` to `now`.
pub open spec fn within_span(now: u64, then: u64, seconds: u64) -> bool {
    elapsed(now, then) <= seconds * NANOS_PER_SECOND
}

/// Whether no more than `seconds` have passed from `then` to `now`.
pub fn within(now: u64, then: u64, seconds: u64) -> (yes: bool)
    ensures
        yes == within_span(now, then, seconds),
{
    let passed: u64 = if now > then {
        now - then
    } else {
        0
    };
    assert((seconds as u128) * (NANOS_PER_SECOND as u128) <= u128::MAX) by (nonlinear_arith)
        requires
            seconds <= u64::MAX,
            NANOS_PER_SECOND == 1_000_000_000,
    ;
    passed as u128 <= seconds as u128 * NANOS_PER_SECOND as u128
}

/// The whole seconds left from `now` to `until`, and at least one.
pub open spec fn seconds_left(until: u64, now: u64) -> int {
    let seconds = elapsed(until, now) / (NANOS_PER_SECOND as int);
    if seconds < 1 {
        1
    } else {
        seconds
    }
}

/// How many seconds a client is told to wait until `until`.
pub fn remaining_seconds(until: u64, now: u64) -> (seconds: u64)
    ensures
        seconds == seconds_left(until, now),
{
    let left: u64 = if until > now {
        (until - now) / NANOS_PER_SECOND
    } else {
        0
    };
    if left < 1 {
        1
    } else {
        left
    }
}

} // verus!
