//! Spans of time, as `std::time::Duration`.
use std::time::Duration;
use vstd::prelude::*;

verus! {

/// How many nanoseconds a span of time is long: what `Duration::as_nanos` counts.
pub uninterp spec fn duration_nanos(d: Duration) -> nat;

/// `Duration::from_micros` is a span of so many microseconds.
pub assume_specification[ Duration::from_micros ](micros: u64) -> (d: Duration)
    ensures
        duration_nanos(d) == micros * 1_000,
;

/// `Duration::from_millis` is a span of so many milliseconds.
pub assume_specification[ Duration::from_millis ](millis: u64) -> (d: Duration)
    ensures
        duration_nanos(d) == millis * 1_000_000,
;

/// `Duration::from_secs` is a span of so many seconds.
pub assume_specification[ Duration::from_secs ](secs: u64) -> (d: Duration)
    ensures
        duration_nanos(d) == secs * 1_000_000_000,
;

} // verus!
