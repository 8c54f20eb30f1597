//! The system clock, read in one place. What it reads depends on the moment
//! of the call, so nothing is claimed about its values.

use vstd::prelude::*;
use std::time::{Duration, SystemTime};

verus! {

/// `std::time::SystemTime`, carried through opaquely.
#[verifier::external_type_specification]
#[verifier::external_body]
pub struct ExSystemTime(SystemTime);

/// `SystemTime::now()`: the current time. Nothing is claimed about it.
#[verifier::external_body]
fn system_now() -> SystemTime {
    SystemTime::now()
}

/// `t.duration_since(UNIX_EPOCH)`: how long after the Unix epoch `t` is, or
/// none when `t` is earlier. Nothing is claimed about the value.
#[verifier::external_body]
fn since_unix_epoch(t: &SystemTime) -> Option<Duration> {
    t.duration_since(std::time::UNIX_EPOCH).ok()
}

/// `Duration::as_nanos`: the whole duration in nanoseconds. Nothing is
/// claimed about the value: a `Duration` is opaque here.
#[verifier::external_body]
fn duration_nanos(d: &Duration) -> u128 {
    d.as_nanos()
}

/// Nanoseconds since the Unix epoch now, or none when the clock reads
/// earlier than the epoch.
pub(crate) fn unix_time_nanos() -> Option<u128> {
    match since_unix_epoch(&system_now()) {
        Some(d) => Some(duration_nanos(&d)),
        None => None,
    }
}

} // verus!
