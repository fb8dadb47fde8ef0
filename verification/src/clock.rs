//! The system clock, read through std. What it returns depends on the moment of the call,
//! so nothing is promised of the values.
use vstd::prelude::*;
use core::time::Duration;
use std::time::SystemTime;

verus! {

/// `std::time::SystemTime`, carried through opaquely.
#[verifier::external_type_specification]
#[verifier::external_body]
pub struct ExSystemTime(std::time::SystemTime);

/// `SystemTime::now`: the current time of the system clock.
#[verifier::external_body]
pub(crate) fn system_now() -> SystemTime {
    SystemTime::now()
}

/// `SystemTime::duration_since(UNIX_EPOCH)`: the time elapsed since the Unix epoch, or
/// `None` when the clock is set before it.
#[verifier::external_body]
pub(crate) fn since_unix_epoch(t: &SystemTime) -> Option<Duration> {
    t.duration_since(std::time::UNIX_EPOCH).ok()
}

/// `Duration::as_nanos`.
#[verifier::external_body]
pub(crate) fn duration_nanos(d: &Duration) -> u128 {
    d.as_nanos()
}

/// `Duration::as_millis`.
#[verifier::external_body]
pub(crate) fn duration_millis(d: &Duration) -> u128 {
    d.as_millis()
}

/// `Duration::as_secs`.
#[verifier::external_body]
pub(crate) fn duration_secs(d: &Duration) -> u64 {
    d.as_secs()
}

/// The address of a stack slot, read through `std::ptr::from_ref` and `addr`; it only
/// serves to make identifiers differ between calls.
#[verifier::external_body]
pub(crate) fn stack_address(x: &u128) -> u64 {
    std::ptr::from_ref(x).addr() as u64
}

} // verus!
