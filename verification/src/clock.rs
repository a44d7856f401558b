//! Wall-clock access for entry timestamps.

use vstd::prelude::*;

verus! {

/// Relies on `chrono::Utc::now` and `chrono::DateTime::timestamp`: the current
/// wall-clock time as whole non-leap seconds since the Unix epoch. `Utc::now`
/// reads the system clock and aborts if that clock is set before the epoch, so
/// every value it hands back is non-negative. Nothing more can be promised of
/// a clock reading; callers treat the value as an arbitrary timestamp.
#[verifier::external_body]
pub(crate) fn unix_now() -> (r: i64)
    ensures
        0 <= r,
{
    chrono::Utc::now().timestamp()
}

} // verus!
