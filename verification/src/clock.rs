//! The wall clock, read through the time crate.

use vstd::prelude::*;

verus! {

/// Relies on time::OffsetDateTime::now_utc, read as unix microseconds.
/// Nothing can be promised of a clock reading; readings before the epoch
/// or beyond the range of u64 are clamped.
#[verifier::external_body]
pub fn now_unix_micros() -> u64 {
    let nanos = time::OffsetDateTime::now_utc().unix_timestamp_nanos();
    let micros = nanos / 1000;
    if micros < 0 {
        0
    } else if micros > u64::MAX as i128 {
        u64::MAX
    } else {
        micros as u64
    }
}

/// Unix milliseconds derived from the same clock reading scheme.
pub fn now_unix_millis() -> u64 {
    now_unix_micros() / 1000
}

/// Unix seconds derived from the same clock reading scheme.
pub fn now_unix_seconds() -> u64 {
    now_unix_micros() / 1_000_000
}

} // verus!
