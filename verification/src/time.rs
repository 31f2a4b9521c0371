//! Trusted access to the process clock, used by cine playback and by the
//! per-view timestamp.

use vstd::prelude::*;

verus! {

#[verifier::external_type_specification]
#[verifier::external_body]
pub struct ExInstant(std::time::Instant);

/// Relies on `std::time::Instant::now`: an opaque monotonic timestamp.
/// Nothing can be promised of a clock reading.
#[verifier::external_body]
pub fn instant_now() -> (r: std::time::Instant) {
    std::time::Instant::now()
}

/// Relies on `std::time::Instant::elapsed` and `Duration::as_millis`: the
/// time since `t` in milliseconds, saturated to `u64`. Nothing can be
/// promised of a clock reading; callers state what holds of every value.
#[verifier::external_body]
pub fn elapsed_millis(t: &std::time::Instant) -> (r: u64) {
    let m = t.elapsed().as_millis();
    if m > u64::MAX as u128 {
        u64::MAX
    } else {
        m as u64
    }
}

} // verus!
