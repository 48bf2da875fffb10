//! The library's view of the outside world: the wall clock, fresh order ids
//! and the random jitter draw. Each item here wraps one outside call; the
//! logic that consumes the results is verified against what these contracts
//! state, which is only what holds of every outcome.
use vstd::prelude::*;

use crate::text::spec_is_uuid_shaped;

verus! {

/// The system clock's instant type, opaque to the proofs: a reading is
/// only ever converted to plain milliseconds.
#[verifier::external_type_specification]
#[verifier::external_body]
pub struct ExSystemTime(std::time::SystemTime);

/// Relies on std::time::SystemTime::now for a reading of the system
/// clock. Nothing can be promised of the clock's value, and the
/// documentation promises no panic.
#[verifier::external_body]
pub(crate) fn system_time_now() -> std::time::SystemTime {
    std::time::SystemTime::now()
}

/// Relies on std::time::SystemTime::duration_since, which its
/// documentation promises returns Ok with the elapsed duration when the
/// instant is at or after the epoch and Err otherwise, never panicking;
/// the body converts that result to plain milliseconds, reading an
/// instant before the Unix epoch as zero.
#[verifier::external_body]
pub(crate) fn millis_since_unix_epoch(t: &std::time::SystemTime) -> u64 {
    t.duration_since(std::time::UNIX_EPOCH).map_or(0, |d| d.as_millis() as u64)
}

/// The current wall-clock time in milliseconds since the Unix epoch; a
/// clock set before the epoch reads as zero.
pub fn current_millis() -> u64 {
    let t = system_time_now();
    millis_since_unix_epoch(&t)
}

/// Relies on rand::Rng::gen_range on rand::thread_rng: returns a uniformly
/// drawn value of the inclusive range, and panics only on an empty range,
/// which the precondition rules out.
#[verifier::external_body]
pub(crate) fn random_in_range(lo: u64, hi: u64) -> (r: u64)
    requires
        lo <= hi,
    ensures
        lo <= r <= hi,
{
    rand::Rng::gen_range(&mut rand::thread_rng(), lo..=hi)
}

/// Relies on uuid::Uuid::new_v4 for a freshly drawn random identifier;
/// its Display form converts it to the 36-character hyphenated string of
/// hexadecimal digits with hyphens at the four canonical positions.
/// Nothing is promised of the digits themselves: they are random.
#[verifier::external_body]
pub(crate) fn new_uuid_string() -> (r: String)
    ensures
        r@.len() == 36,
        spec_is_uuid_shaped(r@),
{
    uuid::Uuid::new_v4().to_string()
}

} // verus!
