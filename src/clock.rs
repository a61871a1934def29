//! Wall-clock and random sources.

use vstd::prelude::*;

verus! {

/// Milliseconds in a minute.
pub const MINUTE_MS: i64 = 60_000;

/// Milliseconds in an hour.
pub const HOUR_MS: i64 = 3_600_000;

/// Milliseconds in a day.
pub const DAY_MS: i64 = 86_400_000;

/// Relies on chrono's `Utc::now` and `DateTime::timestamp_millis`: the current
/// time in milliseconds since the Unix epoch. Nothing is known of its value.
#[verifier::external_body]
pub fn now_millis() -> (r: i64) {
    chrono::Utc::now().timestamp_millis()
}

/// Relies on `rand::random::<u64>`: a number drawn from the thread-local
/// generator. Nothing is known of its value.
#[verifier::external_body]
pub fn random_u64() -> (r: u64) {
    rand::random::<u64>()
}

} // verus!
