//! The moment in time that a timestamp names: the seconds between the start
//! of 1970 in UTC and that moment, as the `chrono` crate counts them.
//! Timestamps are ordered by it.

use crate::calendar::{days_in_month, is_leap_year, Timestamp};
use chrono::{FixedOffset, TimeZone};
use vstd::prelude::*;

verus! {

/// The number of days of the year `year`.
pub open spec fn days_in_year(year: int) -> int {
    if is_leap_year(year) {
        366
    } else {
        365
    }
}

/// The number of days from the start of the year 0 to the start of `year`.
pub open spec fn days_before_year(year: int) -> int
    decreases year,
{
    if year <= 0 {
        0
    } else {
        days_before_year(year - 1) + days_in_year(year - 1)
    }
}

/// The number of days from the start of `year` to the start of its month
/// `month`.
pub open spec fn days_before_month(year: int, month: int) -> int
    decreases month,
{
    if month <= 1 {
        0
    } else {
        days_before_month(year, month - 1) + days_in_month(year, month - 1)
    }
}

/// The number of days from the start of the year 0 to the given day.
pub open spec fn day_number(year: int, month: int, day: int) -> int {
    days_before_year(year) + days_before_month(year, month) + day - 1
}

/// The seconds from the start of 1970 in UTC to the moment that `at` names.
/// The first of January 1970 is day 719528 from the start of the year 0.
pub open spec fn epoch_seconds(at: Timestamp) -> int {
    (day_number(at.local.year as int, at.local.month as int, at.local.day as int) - 719528)
        * 86400 + at.local.hour * 3600 + at.local.minute * 60 - at.offset
}

/// `chrono::DateTime::timestamp` on the timestamp, second 0: the seconds,
/// leap seconds not counted, from the start of 1970 in UTC to that moment,
/// which are the days between the two dates, a day being 86400 seconds, and
/// the time of day, less the offset.
#[verifier::external_body]
fn timestamp_of(at: &Timestamp) -> (seconds: i64)
    requires
        at.valid(),
    ensures
        seconds == epoch_seconds(*at),
{
    let zone = FixedOffset::east_opt(at.offset).unwrap();
    let t = at.local;
    zone.with_ymd_and_hms(t.year, t.month, t.day, t.hour, t.minute, 0).unwrap().timestamp()
}

impl Timestamp {
    /// The seconds from the start of 1970 in UTC to the moment that the
    /// timestamp names.
    pub fn seconds_since_epoch(&self) -> (seconds: i64)
        requires
            self.valid(),
        ensures
            seconds == epoch_seconds(*self),
    {
        timestamp_of(self)
    }
}

} // verus!
