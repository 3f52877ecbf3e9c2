//! What the library relies on of `std::time::Duration`: its length in nanoseconds.

use vstd::prelude::*;
use std::time::Duration;

verus! {

/// The length of a `Duration` in whole nanoseconds, as `Duration::as_nanos` reports it.
pub uninterp spec fn duration_nanos(d: Duration) -> u128;

/// `Duration::as_nanos`: the total number of whole nanoseconds the duration holds,
/// which for any duration is at most `u64::MAX` seconds plus 999,999,999 nanoseconds.
pub assume_specification[ core::time::Duration::as_nanos ](d: &Duration) -> (n: u128)
    ensures
        n == duration_nanos(*d),
        n <= max_duration_nanos(),
;

/// The longest duration there is: `u64::MAX` seconds and 999,999,999 nanoseconds.
pub open spec fn max_duration_nanos() -> int {
    18_446_744_073_709_551_615_999_999_999
}

/// `Duration::as_millis`: the total number of whole milliseconds in the duration.
pub assume_specification[ core::time::Duration::as_millis ](d: &Duration) -> (ms: u128)
    ensures
        ms == duration_nanos(*d) / 1_000_000,
;

/// `Duration::saturating_sub`: `d - other`, or zero when `other` is longer.
pub assume_specification[ core::time::Duration::saturating_sub ](d: Duration, other: Duration) -> (r: Duration)
    ensures
        duration_nanos(r) == if duration_nanos(d) >= duration_nanos(other) {
            duration_nanos(d) - duration_nanos(other)
        } else {
            0int
        },
;

/// `Duration::from_nanos`: a duration of exactly `nanos` nanoseconds.
pub assume_specification[ core::time::Duration::from_nanos ](nanos: u64) -> (d: Duration)
    ensures
        duration_nanos(d) == nanos,
;

/// `Duration::from_micros`: a duration of exactly `micros` microseconds.
pub assume_specification[ core::time::Duration::from_micros ](micros: u64) -> (d: Duration)
    ensures
        duration_nanos(d) == micros * 1_000,
;

/// `Duration::from_millis`: a duration of exactly `millis` milliseconds.
pub assume_specification[ core::time::Duration::from_millis ](millis: u64) -> (d: Duration)
    ensures
        duration_nanos(d) == millis * 1_000_000,
;

/// `Duration::from_secs`: a duration of exactly `secs` seconds.
pub assume_specification[ core::time::Duration::from_secs ](secs: u64) -> (d: Duration)
    ensures
        duration_nanos(d) == secs * 1_000_000_000,
;

/// The low 64 bits of a duration's nanosecond count (what `as_nanos() as u64` gives).
pub open spec fn low_nanos(d: Duration) -> u64 {
    (duration_nanos(d) % 0x1_0000_0000_0000_0000) as u64
}

/// A duration's nanosecond count, capped at `u64::MAX`.
pub open spec fn capped_nanos(d: Duration) -> u64 {
    if duration_nanos(d) > u64::MAX {
        u64::MAX
    } else {
        duration_nanos(d) as u64
    }
}

/// The low 64 bits of the nanosecond count of `d`.
pub fn low_nanos_of(d: Duration) -> (n: u64)
    ensures
        n == low_nanos(d),
{
    (d.as_nanos() % 0x1_0000_0000_0000_0000u128) as u64
}

/// The nanosecond count of `d`, capped at `u64::MAX`.
pub fn capped_nanos_of(d: Duration) -> (n: u64)
    ensures
        n == capped_nanos(d),
{
    let n = d.as_nanos();
    if n > u64::MAX as u128 {
        u64::MAX
    } else {
        n as u64
    }
}

/// Saturating `a + b` on `u64`, as a mathematical function.
pub open spec fn sat_add(a: int, b: int) -> u64 {
    if a + b > u64::MAX {
        u64::MAX
    } else if a + b < 0 {
        0
    } else {
        (a + b) as u64
    }
}

} // verus!
