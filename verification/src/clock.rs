//! The wall clock.
use vstd::prelude::*;

verus! {

/// A bound on the readings the clock can give: the last second of the last day whose
/// number of days since 0001-01-01 still fits in an `i32`. (chrono's own limit, the last
/// day of `NaiveDate`'s year range, comes earlier, so every reading stays below this.)
pub const CLOCK_MAX: i64 = 185_480_451_503_999;

/// Whether `t` is a reading the clock can give: no earlier than the Unix epoch and no
/// later than [`CLOCK_MAX`].
pub open spec fn clock_reading(t: i64) -> bool {
    0 <= t <= CLOCK_MAX
}

/// Calls `chrono::Utc::now()` and its `timestamp()`: the current time in whole seconds
/// since the Unix epoch. Which second it is depends on the machine's clock and is not
/// claimed. What is claimed is a range that chrono's source implies: `Utc::now` takes
/// the (non-negative) seconds since the epoch and builds the date with
/// `DateTime::from_timestamp`, which refuses (and `Utc::now` then panics) when the day
/// number `secs / 86400 + 719163` exceeds `i32::MAX` or the date lies past
/// `NaiveDate`'s last year; `timestamp()` gives those seconds back. So every reading
/// returned is at most [`CLOCK_MAX`]. (chrono also panics if the clock reads before the
/// epoch.)
#[verifier::external_body]
pub(crate) fn now_timestamp() -> (t: i64)
    ensures
        clock_reading(t),
{
    chrono::Utc::now().timestamp()
}

} // verus!
