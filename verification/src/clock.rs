//! A nanosecond clock measured from the moment a tracker was created.

use vstd::prelude::*;

verus! {

/// `std::time::Instant`, carried through opaquely.
#[verifier::external_type_specification]
#[verifier::external_body]
pub struct ExInstant(std::time::Instant);

/// Calls `std::time::Instant::now`. What it returns depends on the time of the
/// call, so nothing is stated of it.
#[verifier::external_body]
fn instant_now() -> (now: std::time::Instant) {
    std::time::Instant::now()
}

/// Calls `std::time::Instant::elapsed`. What it returns depends on the time of
/// the call, so nothing is stated of it.
#[verifier::external_body]
fn instant_elapsed(start: &std::time::Instant) -> (elapsed: std::time::Duration) {
    start.elapsed()
}

/// Calls `std::time::Duration::as_nanos`. `Duration` is opaque here, so
/// nothing is stated of the number of whole nanoseconds it returns.
#[verifier::external_body]
fn duration_as_nanos(d: &std::time::Duration) -> (ns: u128) {
    d.as_nanos()
}

/// A monotonic clock whose readings are whole nanoseconds since its creation.
#[derive(Debug)]
pub struct Clock {
    start: std::time::Instant,
}

impl Clock {
    /// Starts a clock; its reading at this moment is 0.
    pub fn start() -> (clock: Clock) {
        Clock { start: instant_now() }
    }

    /// Nanoseconds elapsed since the clock was started, saturated at
    /// `u64::MAX`. The reading depends on the time of the call.
    pub fn now_nanos(&self) -> (ns: u64) {
        let elapsed = instant_elapsed(&self.start);
        let wide = duration_as_nanos(&elapsed);
        if wide > u64::MAX as u128 {
            u64::MAX
        } else {
            wide as u64
        }
    }
}

} // verus!
