use vstd::prelude::*;
use std::time::Duration;
use std::time::Instant;

verus! {

/// A reading of the monotonic clock (`std::time::Instant`).
#[verifier::external_type_specification]
#[verifier::external_body]
pub struct ExInstant(Instant);

/// Calls `std::time::Instant::now`. The reading depends on when the call is
/// made, so nothing is stated of it.
#[verifier::external_body]
fn instant_now() -> (now: Instant) {
    Instant::now()
}

/// Calls `std::time::Instant::elapsed`: the time since `start`. It depends on
/// when the call is made, so nothing is stated of it.
#[verifier::external_body]
fn instant_elapsed(start: &Instant) -> (d: Duration) {
    start.elapsed()
}

/// Calls `std::time::Duration::as_millis`: the whole milliseconds in `d`.
/// A `Duration` is opaque here, so the result is left unstated.
#[verifier::external_body]
fn duration_as_millis(d: &Duration) -> (ms: u128) {
    d.as_millis()
}

/// A clock that reads the milliseconds since this call, as an `i64`
/// (the millisecond count truncated to 64 bits). It can be called at any time.
pub fn clock_ms() -> (clock: impl Fn() -> i64 + Clone)
    ensures
        clock.requires(()),
{
    let start = instant_now();
    move || -> (ms: i64)
        {
            let elapsed = instant_elapsed(&start);
            let millis = duration_as_millis(&elapsed);
            millis as i64
        }
}

} // verus!
