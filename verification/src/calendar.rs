//! Dates and times of the civil calendar, timestamps that carry their offset
//! from UTC, and their two text forms. The calendar itself and the local
//! time zone are those of the `chrono` crate, which also reads the system's
//! clock.

use crate::text::{all_digits, decimal_value, digit_char, digit_value, is_digit};
use chrono::{DateTime, Datelike, FixedOffset, Local, NaiveDate, TimeZone, Timelike};
use std::time::SystemTime;
use vstd::prelude::*;

verus! {

/// Whether `year` is a leap year of the proleptic Gregorian calendar.
pub open spec fn is_leap_year(year: int) -> bool {
    year % 4 == 0 && (year % 100 != 0 || year % 400 == 0)
}

/// The number of days of the month `month` (1 to 12) of the year `year`.
pub open spec fn days_in_month(year: int, month: int) -> int {
    if month == 2 {
        if is_leap_year(year) {
            29
        } else {
            28
        }
    } else if month == 4 || month == 6 || month == 9 || month == 11 {
        30
    } else {
        31
    }
}

/// Whether the calendar has a day `day` in the month `month` of `year`.
pub open spec fn date_exists(year: int, month: int, day: int) -> bool {
    1 <= month <= 12 && 1 <= day <= days_in_month(year, month)
}

/// The day after an existing date, as year, month and day.
pub open spec fn next_date(year: int, month: int, day: int) -> (int, int, int) {
    if day < days_in_month(year, month) {
        (year, month, day + 1)
    } else if month < 12 {
        (year, month + 1, 1)
    } else {
        (year + 1, 1, 1)
    }
}

/// A date and a time of day to the minute, with no time zone attached.
#[derive(Clone, Copy, Debug, PartialEq, Eq, Structural)]
pub struct CivilTime {
    pub year: i32,
    pub month: u32,
    pub day: u32,
    pub hour: u32,
    pub minute: u32,
}

/// A local date and time together with the offset of that local time from
/// UTC, in seconds east of Greenwich.
#[derive(Clone, Copy, Debug, PartialEq, Eq, Structural)]
pub struct Timestamp {
    pub local: CivilTime,
    pub offset: i32,
}

/// The fields that a parser has read, where they make a valid timestamp.
pub open spec fn accepted(fields: Option<Timestamp>) -> Option<Timestamp> {
    match fields {
        Some(at) if at.valid() => Some(at),
        _ => None,
    }
}

impl CivilTime {
    /// The date exists, its year has at most four digits, and the time is one
    /// of a day's 1440 minutes.
    pub open spec fn valid(self) -> bool {
        &&& 0 <= self.year <= 9999
        &&& date_exists(self.year as int, self.month as int, self.day as int)
        &&& self.hour < 24
        &&& self.minute < 60
    }

    /// The same time of day on the calendar day that follows. Of the last day
    /// of the year 9999 it is not valid.
    pub open spec fn tomorrow(self) -> CivilTime {
        let next = next_date(self.year as int, self.month as int, self.day as int);
        CivilTime { year: next.0 as i32, month: next.1 as u32, day: next.2 as u32, ..self }
    }

    /// The date of `self` with the time of day of `time`.
    pub open spec fn at_time_of(self, time: CivilTime) -> CivilTime {
        CivilTime { hour: time.hour, minute: time.minute, ..self }
    }

    /// Whether the value is valid.
    pub fn is_valid(&self) -> (valid: bool)
        ensures
            valid == self.valid(),
    {
        0 <= self.year && self.year <= 9999 && calendar_has(self.year, self.month, self.day)
            && self.hour < 24 && self.minute < 60
    }
}

impl Timestamp {
    /// The local time is valid, and the offset is a whole number of minutes
    /// and less than a day.
    pub open spec fn valid(self) -> bool {
        &&& self.local.valid()
        &&& -86400 < self.offset < 86400
        &&& self.offset as int % 60 == 0
    }

    /// Whether the value is valid.
    pub fn is_valid(&self) -> (valid: bool)
        ensures
            valid == self.valid(),
    {
        self.local.is_valid() && -86400 < self.offset && self.offset < 86400 && self.offset % 60
            == 0
    }

    /// The fields that a parser has read, where they make a valid timestamp.
    pub fn checked(fields: Option<Timestamp>) -> (stamp: Option<Timestamp>)
        ensures
            stamp == accepted(fields),
    {
        match fields {
            Some(at) => if at.is_valid() {
                Some(at)
            } else {
                None
            },
            None => None,
        }
    }

    /// The valid timestamp that `text` names in RFC 3339 form.
    pub fn parse_rfc3339(text: &str) -> (stamp: Option<Timestamp>)
        ensures
            stamp == stamp_of(text@),
            stamp matches Some(at) ==> at.valid(),
    {
        Timestamp::checked(rfc3339_fields(text))
    }

    /// The timestamp in RFC 3339 form.
    pub fn to_rfc3339(&self) -> (text: String)
        requires
            self.valid(),
        ensures
            text@ == rfc3339_text(*self),
            stamp_of(text@) == Some(*self),
    {
        proof {
            lemma_stamp_of_its_text(*self);
        }
        rfc3339_of(self)
    }
}

// ---------------------------------------------------------------------------
// Text forms

/// `n`, below 100, as two decimal digits.
pub open spec fn two_digits(n: int) -> Seq<char> {
    seq![digit_char(n / 10), digit_char(n % 10)]
}

/// `n`, below 10000, as four decimal digits.
pub open spec fn four_digits(n: int) -> Seq<char> {
    two_digits(n / 100) + two_digits(n % 100)
}

/// An offset of whole minutes as sign, hours, colon and minutes.
pub open spec fn offset_text(offset: int) -> Seq<char> {
    let size = if offset < 0 {
        -offset
    } else {
        offset
    };
    seq![if offset < 0 { '-' } else { '+' }] + two_digits(size / 3600) + seq![':'] + two_digits(
        (size / 60) % 60,
    )
}

/// The RFC 3339 form of a valid timestamp, such as
/// `2024-01-11T18:00:00+01:00`: 25 characters, the seconds always `00`.
pub open spec fn rfc3339_text(at: Timestamp) -> Seq<char> {
    four_digits(at.local.year as int) + seq!['-'] + two_digits(at.local.month as int) + seq!['-']
        + two_digits(at.local.day as int) + seq!['T'] + two_digits(at.local.hour as int)
        + seq![':'] + two_digits(at.local.minute as int) + seq![':', '0', '0'] + offset_text(
        at.offset as int,
    )
}

/// The form in which a valid date and time is shown and typed, such as
/// `11/01/2024 18:00`: day, month, year, then hour and minute.
pub open spec fn user_text(at: CivilTime) -> Seq<char> {
    two_digits(at.day as int) + seq!['/'] + two_digits(at.month as int) + seq!['/'] + four_digits(
        at.year as int,
    ) + seq![' '] + two_digits(at.hour as int) + seq![':'] + two_digits(at.minute as int)
}

/// Two digits hold digits only and denote the number they were made of.
pub proof fn lemma_two_digits(n: int)
    requires
        0 <= n < 100,
    ensures
        two_digits(n).len() == 2,
        all_digits(two_digits(n)),
        decimal_value(two_digits(n)) == n,
{
    let s = two_digits(n);
    lemma_decimal_value_push(seq![digit_char(n / 10)], digit_char(n % 10));
    lemma_decimal_value_push(Seq::<char>::empty(), digit_char(n / 10));
    assert(Seq::<char>::empty().push(digit_char(n / 10)) == seq![digit_char(n / 10)]);
    assert(seq![digit_char(n / 10)].push(digit_char(n % 10)) == s);
}

/// Four digits hold digits only and denote the number they were made of.
pub proof fn lemma_four_digits(n: int)
    requires
        0 <= n < 10000,
    ensures
        four_digits(n).len() == 4,
        all_digits(four_digits(n)),
        decimal_value(four_digits(n)) == n,
{
    let s = four_digits(n);
    let high = two_digits(n / 100);
    let c2 = digit_char((n % 100) / 10);
    let c3 = digit_char((n % 100) % 10);
    lemma_two_digits(n / 100);
    lemma_decimal_value_push(high, c2);
    lemma_decimal_value_push(high.push(c2), c3);
    assert(high.push(c2).push(c3) == s);
}

/// A digit more at the end: ten times the value, plus the digit.
pub proof fn lemma_decimal_value_push(s: Seq<char>, c: char)
    ensures
        decimal_value(s.push(c)) == decimal_value(s) * 10 + digit_value(c),
{
    assert(s.push(c).drop_last() == s);
}

/// What `chrono::DateTime::parse_from_rfc3339` makes of `text`: the local
/// date and time to the minute and the offset that the text gives, or `None`
/// where it refuses the text.
pub uninterp spec fn rfc3339_parsed(text: Seq<char>) -> Option<Timestamp>;

/// The valid timestamp that `text` is the RFC 3339 form of, if there is one;
/// else what chrono's parser makes of `text`, if that is a valid timestamp.
pub open spec fn stamp_of(text: Seq<char>) -> Option<Timestamp> {
    if exists|at: Timestamp| at.valid() && #[trigger] rfc3339_text(at) == text {
        Some(choose|at: Timestamp| at.valid() && #[trigger] rfc3339_text(at) == text)
    } else {
        match rfc3339_parsed(text) {
            Some(at) if at.valid() => Some(at),
            _ => None,
        }
    }
}

/// Whether `c` can stand in the RFC 3339 form of a valid timestamp.
pub open spec fn is_stamp_char(c: char) -> bool {
    is_digit(c) || c == '-' || c == '+' || c == ':' || c == 'T'
}

/// The timestamp whose RFC 3339 form stands in the 25 characters of `text`.
spec fn read_back(text: Seq<char>) -> Timestamp {
    let hours = decimal_value(text.subrange(20, 22)) as int;
    let minutes = decimal_value(text.subrange(23, 25)) as int;
    let size = hours * 3600 + minutes * 60;
    Timestamp {
        local: CivilTime {
            year: decimal_value(text.subrange(0, 4)) as i32,
            month: decimal_value(text.subrange(5, 7)) as u32,
            day: decimal_value(text.subrange(8, 10)) as u32,
            hour: decimal_value(text.subrange(11, 13)) as u32,
            minute: decimal_value(text.subrange(14, 16)) as u32,
        },
        offset: (if text[19] == '-' {
            -size
        } else {
            size
        }) as i32,
    }
}

/// The RFC 3339 form of a valid timestamp has 25 characters, each of them a
/// digit, `-`, `+`, `:` or `T`.
pub proof fn lemma_rfc3339_text(at: Timestamp)
    requires
        at.valid(),
    ensures
        rfc3339_text(at).len() == 25,
        forall|i: int| 0 <= i < 25 ==> is_stamp_char(#[trigger] rfc3339_text(at)[i]),
{
    lemma_rfc3339_read_back(at);
}

/// A valid timestamp can be read back from its RFC 3339 form.
proof fn lemma_rfc3339_read_back(at: Timestamp)
    requires
        at.valid(),
    ensures
        rfc3339_text(at).len() == 25,
        forall|i: int| 0 <= i < 25 ==> is_stamp_char(#[trigger] rfc3339_text(at)[i]),
        read_back(rfc3339_text(at)) == at,
{
    let text = rfc3339_text(at);
    let size = if at.offset < 0 {
        -(at.offset as int)
    } else {
        at.offset as int
    };
    lemma_four_digits(at.local.year as int);
    lemma_two_digits(at.local.month as int);
    lemma_two_digits(at.local.day as int);
    lemma_two_digits(at.local.hour as int);
    lemma_two_digits(at.local.minute as int);
    lemma_two_digits(size / 3600);
    lemma_two_digits((size / 60) % 60);
    assert(text.len() == 25);
    assert(text.subrange(0, 4) == four_digits(at.local.year as int));
    assert(text.subrange(5, 7) == two_digits(at.local.month as int));
    assert(text.subrange(8, 10) == two_digits(at.local.day as int));
    assert(text.subrange(11, 13) == two_digits(at.local.hour as int));
    assert(text.subrange(14, 16) == two_digits(at.local.minute as int));
    assert(text.subrange(20, 22) == two_digits(size / 3600));
    assert(text.subrange(23, 25) == two_digits((size / 60) % 60));
    assert(text[19] == if at.offset < 0 {
        '-'
    } else {
        '+'
    });
    assert((size / 3600) * 3600 + ((size / 60) % 60) * 60 == size);
    assert forall|i: int| 0 <= i < 25 implies is_stamp_char(#[trigger] text[i]) by {
        if i < 4 {
            assert(text[i] == text.subrange(0, 4)[i]);
        } else if 5 <= i < 7 {
            assert(text[i] == text.subrange(5, 7)[i - 5]);
        } else if 8 <= i < 10 {
            assert(text[i] == text.subrange(8, 10)[i - 8]);
        } else if 11 <= i < 13 {
            assert(text[i] == text.subrange(11, 13)[i - 11]);
        } else if 14 <= i < 16 {
            assert(text[i] == text.subrange(14, 16)[i - 14]);
        } else if 20 <= i < 22 {
            assert(text[i] == text.subrange(20, 22)[i - 20]);
        } else if 23 <= i < 25 {
            assert(text[i] == text.subrange(23, 25)[i - 23]);
        }
    }
}

/// Two valid timestamps with the same RFC 3339 form are the same.
pub proof fn lemma_rfc3339_text_is_one_to_one(first: Timestamp, second: Timestamp)
    requires
        first.valid(),
        second.valid(),
        rfc3339_text(first) == rfc3339_text(second),
    ensures
        first == second,
{
    lemma_rfc3339_read_back(first);
    lemma_rfc3339_read_back(second);
}

/// The RFC 3339 form of a valid timestamp is read as that timestamp.
pub proof fn lemma_stamp_of_its_text(at: Timestamp)
    requires
        at.valid(),
    ensures
        stamp_of(rfc3339_text(at)) == Some(at),
{
    let text = rfc3339_text(at);
    let found = choose|found: Timestamp| found.valid() && #[trigger] rfc3339_text(found) == text;
    lemma_rfc3339_text_is_one_to_one(at, found);
}

// ---------------------------------------------------------------------------
// Calls into chrono

/// `chrono::NaiveDate::from_ymd_opt`: there is such a date exactly where the
/// year is one that chrono can hold and the calendar has the day.
#[verifier::external_body]
pub(crate) fn calendar_has(year: i32, month: u32, day: u32) -> (has: bool)
    ensures
        has == (-262143 <= year <= 262142 && date_exists(year as int, month as int, day as int)),
{
    NaiveDate::from_ymd_opt(year, month, day).is_some()
}

/// `chrono::NaiveDate::succ_opt`: the calendar day that follows the given
/// one, which for a year of four digits always exists. The time of day is
/// carried over.
#[verifier::external_body]
pub(crate) fn day_after(at: &CivilTime) -> (next: Option<CivilTime>)
    requires
        at.valid(),
    ensures
        next == Some(at.tomorrow()),
{
    let next = NaiveDate::from_ymd_opt(at.year, at.month, at.day)?.succ_opt()?;
    Some(CivilTime { year: next.year(), month: next.month(), day: next.day(), ..*at })
}

/// `chrono::DateTime::to_rfc3339` on the timestamp, second 0: the year in
/// four digits, month, day, `T`, hour, minute and `00`, each in two digits,
/// then the offset as sign, hours and minutes.
#[verifier::external_body]
pub(crate) fn rfc3339_of(at: &Timestamp) -> (text: String)
    requires
        at.valid(),
    ensures
        text@ == rfc3339_text(*at),
{
    let zone = FixedOffset::east_opt(at.offset).unwrap();
    let t = at.local;
    zone.with_ymd_and_hms(t.year, t.month, t.day, t.hour, t.minute, 0).unwrap().to_rfc3339()
}

/// `chrono::DateTime::parse_from_rfc3339`, seconds dropped. Of the RFC 3339
/// form of a valid timestamp it gives that timestamp back; what it makes of
/// any other text is only named.
#[verifier::external_body]
pub(crate) fn rfc3339_fields(text: &str) -> (fields: Option<Timestamp>)
    ensures
        fields == rfc3339_parsed(text@),
        forall|at: Timestamp| at.valid() && text@ == #[trigger] rfc3339_text(at) ==> fields == Some(at),
{
    let t = DateTime::parse_from_rfc3339(text).ok()?;
    let local = CivilTime {
        year: t.year(),
        month: t.month(),
        day: t.day(),
        hour: t.hour(),
        minute: t.minute(),
    };
    Some(Timestamp { local, offset: t.offset().local_minus_utc() })
}

/// `chrono::NaiveDateTime::format` with `%d/%m/%Y %H:%M`: day, month, hour
/// and minute in two digits each, the year in four.
#[verifier::external_body]
pub(crate) fn user_text_of(at: &CivilTime) -> (text: String)
    requires
        at.valid(),
    ensures
        text@ == user_text(*at),
{
    let date = NaiveDate::from_ymd_opt(at.year, at.month, at.day).unwrap();
    date.and_hms_opt(at.hour, at.minute, 0).unwrap().format("%d/%m/%Y %H:%M").to_string()
}

/// `chrono::TimeZone::from_local_datetime` on `chrono::Local`: the offset
/// from UTC, in seconds, that this machine's time zone gives the local time,
/// or `None` where the zone has no such local time or has it twice.
#[verifier::external_body]
pub(crate) fn local_offset_at(at: &CivilTime) -> (offset: Option<i32>)
    requires
        at.valid(),
{
    let date = NaiveDate::from_ymd_opt(at.year, at.month, at.day)?;
    let naive = date.and_hms_opt(at.hour, at.minute, 0)?;
    Some(Local.from_local_datetime(&naive).single()?.offset().local_minus_utc())
}

/// `std::time::SystemTime::now`, taken into a `chrono::DateTime<Local>`: the
/// clock's local date and time, seconds dropped, and the local offset from
/// UTC in seconds. A clock that stands before 1970 is read like any other.
#[verifier::external_body]
pub(crate) fn clock_now() -> (now: Timestamp) {
    let t: DateTime<Local> = SystemTime::now().into();
    let local = CivilTime {
        year: t.year(),
        month: t.month(),
        day: t.day(),
        hour: t.hour(),
        minute: t.minute(),
    };
    Timestamp { local, offset: t.offset().local_minus_utc() }
}

} // verus!
