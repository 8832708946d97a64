use chrono::{FixedOffset, NaiveDate, TimeZone};
use rutodo::calendar::{CivilTime, Timestamp};

fn stamp(year: i32, month: u32, day: u32, hour: u32, minute: u32, offset: i32) -> Timestamp {
    Timestamp { local: CivilTime { year, month, day, hour, minute }, offset }
}

fn leap(year: i64) -> bool {
    year % 4 == 0 && (year % 100 != 0 || year % 400 == 0)
}

/// The seconds since 1970 counted day by day.
fn counted(at: &Timestamp) -> i64 {
    let mut days: i64 = 0;
    for year in 0..at.local.year as i64 {
        days += if leap(year) { 366 } else { 365 };
    }
    for month in 1..at.local.month {
        days += match month {
            2 => if leap(at.local.year as i64) { 29 } else { 28 },
            4 | 6 | 9 | 11 => 30,
            _ => 31,
        };
    }
    days += at.local.day as i64 - 1;
    (days - 719528) * 86400 + at.local.hour as i64 * 3600 + at.local.minute as i64 * 60
        - at.offset as i64
}

#[test]
fn the_epoch_is_second_zero() {
    assert_eq!(stamp(1970, 1, 1, 0, 0, 0).seconds_since_epoch(), 0);
    assert_eq!(stamp(1970, 1, 1, 1, 0, 3600).seconds_since_epoch(), 0);
    assert_eq!(stamp(1969, 12, 31, 23, 0, -3600).seconds_since_epoch(), 0);
    assert_eq!(stamp(1970, 1, 2, 0, 1, 0).seconds_since_epoch(), 86460);
}

#[test]
fn known_moments() {
    assert_eq!(stamp(2024, 1, 11, 18, 0, 3600).seconds_since_epoch(), 1704992400);
    assert_eq!(stamp(2000, 3, 1, 0, 0, 0).seconds_since_epoch(), 951868800);
    assert_eq!(stamp(0, 1, 1, 0, 0, 0).seconds_since_epoch(), -62167219200);
    assert_eq!(stamp(9999, 12, 31, 23, 59, 0).seconds_since_epoch(), 253402300740);
}

#[test]
fn seconds_agree_with_chrono() {
    let years = [0, 1, 4, 99, 100, 399, 400, 1582, 1899, 1900, 1969, 1970, 1999, 2000, 2023, 2024, 2100, 9999];
    let offsets = [0, 3600, -3600, 19800, -34200, 50400, -43200, 86340, -86340];
    for year in years {
        for month in 1..=12 {
            for day in [1, 15, 28, 29, 30, 31] {
                if NaiveDate::from_ymd_opt(year, month, day).is_none() {
                    continue;
                }
                for (hour, minute) in [(0, 0), (12, 30), (23, 59)] {
                    for offset in offsets {
                        let zone = FixedOffset::east_opt(offset).unwrap();
                        let theirs = zone
                            .with_ymd_and_hms(year, month, day, hour, minute, 0)
                            .unwrap();
                        let ours = stamp(year, month, day, hour, minute, offset);
                        assert!(ours.is_valid());
                        assert_eq!(ours.seconds_since_epoch(), theirs.timestamp());
                        assert_eq!(ours.seconds_since_epoch(), counted(&ours));
                        assert_eq!(ours.to_rfc3339(), theirs.to_rfc3339());
                        assert_eq!(Timestamp::parse_rfc3339(&theirs.to_rfc3339()), Some(ours));
                    }
                }
            }
        }
    }
}

#[test]
fn validity_agrees_with_chrono() {
    for year in [0, 1900, 2000, 2023, 2024, 9999] {
        for month in 0..=13 {
            for day in 0..=32 {
                let ours = CivilTime { year, month, day, hour: 0, minute: 0 };
                assert_eq!(ours.is_valid(), NaiveDate::from_ymd_opt(year, month, day).is_some());
            }
        }
    }
    assert!(!CivilTime { year: 10000, month: 1, day: 1, hour: 0, minute: 0 }.is_valid());
    assert!(!CivilTime { year: -1, month: 1, day: 1, hour: 0, minute: 0 }.is_valid());
    assert!(!CivilTime { year: 2024, month: 1, day: 1, hour: 24, minute: 0 }.is_valid());
    assert!(!CivilTime { year: 2024, month: 1, day: 1, hour: 0, minute: 60 }.is_valid());
}
