//! The crate's view of the outside world: the random source the Cxkk
//! instruction draws from, and the monotonic clock the pacing logic reads.
//! Verus believes the contracts of these items; their bodies only make the
//! outside call.

use vstd::prelude::*;

verus! {

/// Relies on rand::random: a byte from the thread-local generator. Nothing
/// is promised of its value; callers state what holds of every outcome.
#[verifier::external_body]
pub(crate) fn random_u8() -> u8 {
    rand::random::<u8>()
}

/// std::time::Instant, declared so that a clock can hold one; its value is
/// opaque here.
#[verifier::external_type_specification]
#[verifier::external_body]
pub struct ExInstant(std::time::Instant);

/// Relies on std::time::Instant::now: a reading of the monotonic clock.
/// Nothing is promised of its value.
#[verifier::external_body]
pub(crate) fn instant_now() -> std::time::Instant {
    std::time::Instant::now()
}

/// Relies on std::time::Instant::elapsed: the microseconds since `start`,
/// saturated into a u64. The reading depends on the wall clock, so nothing
/// is promised of its value.
#[verifier::external_body]
pub(crate) fn elapsed_us(start: &std::time::Instant) -> u64 {
    u64::try_from(start.elapsed().as_micros()).unwrap_or(u64::MAX)
}

} // verus!
