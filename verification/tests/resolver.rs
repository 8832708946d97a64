use rutodo::calendar::{CivilTime, Timestamp};
use rutodo::resolver::{parse_written_out, resolve, DateError};
use rutodo::task::Deadline;

fn at(year: i32, month: u32, day: u32, hour: u32, minute: u32) -> CivilTime {
    CivilTime { year, month, day, hour, minute }
}

#[test]
fn full_form_ignores_the_reference() {
    let first = at(2024, 1, 10, 8, 0);
    let second = at(1999, 12, 31, 23, 59);
    let wanted = Ok(at(2023, 6, 10, 12, 30));
    assert_eq!(resolve("10/06/2023 12:30", &first), wanted);
    assert_eq!(resolve("10/06/2023 12:30", &second), wanted);
}

#[test]
fn today_is_the_reference() {
    let reference = at(2024, 1, 10, 8, 0);
    assert_eq!(resolve("today", &reference), Ok(reference));
}

#[test]
fn today_with_a_time() {
    let reference = at(2024, 1, 10, 8, 0);
    assert_eq!(resolve("today 12:30", &reference), Ok(at(2024, 1, 10, 12, 30)));
}

#[test]
fn tomorrow_keeps_the_time_of_day() {
    let reference = at(2024, 1, 10, 8, 0);
    assert_eq!(resolve("tomorrow", &reference), Ok(at(2024, 1, 11, 8, 0)));
}

#[test]
fn tomorrow_at_a_quarter_past_nine() {
    let reference = at(2024, 1, 10, 8, 0);
    assert_eq!(resolve("tomorrow 09:15", &reference), Ok(at(2024, 1, 11, 9, 15)));
}

#[test]
fn tomorrow_crosses_month_and_year() {
    assert_eq!(resolve("tomorrow", &at(2023, 12, 31, 7, 5)), Ok(at(2024, 1, 1, 7, 5)));
    assert_eq!(resolve("tomorrow", &at(2024, 2, 28, 7, 5)), Ok(at(2024, 2, 29, 7, 5)));
    assert_eq!(resolve("tomorrow", &at(2023, 2, 28, 7, 5)), Ok(at(2023, 3, 1, 7, 5)));
}

#[test]
fn tomorrow_after_the_last_day_of_four_digit_years() {
    assert_eq!(resolve("tomorrow", &at(9999, 12, 31, 7, 5)), Err(DateError::InvalidFormat));
}

#[test]
fn bare_date_takes_the_time_of_the_reference() {
    let reference = at(2024, 1, 10, 8, 45);
    assert_eq!(resolve("06/06/2023", &reference), Ok(at(2023, 6, 6, 8, 45)));
}

#[test]
fn bare_time_takes_the_date_of_the_reference() {
    let reference = at(2024, 1, 10, 8, 45);
    assert_eq!(resolve("12:30", &reference), Ok(at(2024, 1, 10, 12, 30)));
}

#[test]
fn capital_letters_count_as_small_ones() {
    let reference = at(2024, 1, 10, 8, 0);
    assert_eq!(resolve("Tomorrow 18:00", &reference), Ok(at(2024, 1, 11, 18, 0)));
    assert_eq!(resolve("TODAY", &reference), Ok(reference));
}

#[test]
fn empty_token_is_a_missing_value() {
    assert_eq!(resolve("", &at(2024, 1, 10, 8, 0)), Err(DateError::MissingValue));
}

#[test]
fn letters_in_a_number_are_non_numeric() {
    let reference = at(2024, 1, 10, 8, 0);
    assert_eq!(resolve("1a/06/2023 12:30", &reference), Err(DateError::NonNumericComponent));
    assert_eq!(resolve("10/06/2023 12:3x", &reference), Err(DateError::NonNumericComponent));
    assert_eq!(resolve("+1/06/2023", &reference), Err(DateError::NonNumericComponent));
    assert_eq!(resolve("-1:30", &reference), Err(DateError::NonNumericComponent));
}

#[test]
fn too_large_or_empty_numbers_are_unparsable() {
    let reference = at(2024, 1, 10, 8, 0);
    assert_eq!(resolve("99999999999/06/2023", &reference), Err(DateError::UnparsableNumber));
    assert_eq!(resolve("10//2023", &reference), Err(DateError::UnparsableNumber));
    assert_eq!(resolve("12:", &reference), Err(DateError::UnparsableNumber));
    assert_eq!(resolve("/06/2023 12:30", &reference), Err(DateError::UnparsableNumber));
    assert_eq!(resolve("4294967296:00", &reference), Err(DateError::UnparsableNumber));
}

#[test]
fn largest_number_that_still_parses() {
    let reference = at(2024, 1, 10, 8, 0);
    assert_eq!(resolve("4294967295:00", &reference), Err(DateError::InvalidFormat));
}

#[test]
fn dates_that_do_not_exist_have_no_valid_format() {
    let reference = at(2024, 1, 10, 8, 0);
    assert_eq!(resolve("31/04/2023", &reference), Err(DateError::InvalidFormat));
    assert_eq!(resolve("29/02/2023", &reference), Err(DateError::InvalidFormat));
    assert_eq!(resolve("29/02/1900", &reference), Err(DateError::InvalidFormat));
    assert_eq!(resolve("00/01/2023", &reference), Err(DateError::InvalidFormat));
    assert_eq!(resolve("01/13/2023", &reference), Err(DateError::InvalidFormat));
    assert_eq!(resolve("01/01/10000", &reference), Err(DateError::InvalidFormat));
    assert_eq!(resolve("29/02/2024", &reference), Ok(at(2024, 2, 29, 8, 0)));
    assert_eq!(resolve("29/02/2000", &reference), Ok(at(2000, 2, 29, 8, 0)));
}

#[test]
fn times_that_do_not_exist_have_no_valid_format() {
    let reference = at(2024, 1, 10, 8, 0);
    assert_eq!(resolve("24:00", &reference), Err(DateError::InvalidFormat));
    assert_eq!(resolve("12:60", &reference), Err(DateError::InvalidFormat));
    assert_eq!(resolve("23:59", &reference), Ok(at(2024, 1, 10, 23, 59)));
    assert_eq!(resolve("00:00", &reference), Ok(at(2024, 1, 10, 0, 0)));
}

#[test]
fn other_shapes_have_no_valid_format() {
    let reference = at(2024, 1, 10, 8, 0);
    assert_eq!(resolve("next week", &reference), Err(DateError::InvalidFormat));
    assert_eq!(resolve("soon", &reference), Err(DateError::InvalidFormat));
    assert_eq!(resolve("10/06 12:30", &reference), Err(DateError::InvalidFormat));
    assert_eq!(resolve("10/06/2023 12:30 now", &reference), Err(DateError::InvalidFormat));
    assert_eq!(resolve("today  12:30", &reference), Err(DateError::InvalidFormat));
    assert_eq!(resolve("12:30:15", &reference), Err(DateError::InvalidFormat));
}

#[test]
fn date_errors_come_before_time_errors() {
    let reference = at(2024, 1, 10, 8, 0);
    assert_eq!(resolve("31/04/2023 1x:00", &reference), Err(DateError::InvalidFormat));
    assert_eq!(resolve("xx/04/2023 25:00", &reference), Err(DateError::NonNumericComponent));
}

#[test]
fn written_out_form() {
    assert_eq!(parse_written_out("11/01/2024 18:00"), Ok(at(2024, 1, 11, 18, 0)));
    assert_eq!(parse_written_out("today 18:00"), Err(DateError::InvalidFormat));
    assert_eq!(parse_written_out("11/01/2024"), Err(DateError::InvalidFormat));
    assert!(Timestamp::is_valid_date_format("11/01/2024 18:00"));
    assert!(!Timestamp::is_valid_date_format("2024-01-11T18:00:00+01:00"));
    assert!(Timestamp::is_valid_dmy_format("11/01/2024"));
    assert!(!Timestamp::is_valid_dmy_format("32/01/2024"));
    assert!(Timestamp::is_valid_hm_format("18:00"));
    assert!(!Timestamp::is_valid_hm_format("18:61"));
}

#[test]
fn zone_rounds_the_offset_to_the_minute() {
    let local = at(2024, 1, 11, 18, 0);
    assert_eq!(Timestamp::in_zone(&local, Some(3600)), Some(Timestamp { local, offset: 3600 }));
    assert_eq!(Timestamp::in_zone(&local, Some(3629)), Some(Timestamp { local, offset: 3600 }));
    assert_eq!(Timestamp::in_zone(&local, Some(3630)), Some(Timestamp { local, offset: 3660 }));
    assert_eq!(Timestamp::in_zone(&local, Some(-3630)), Some(Timestamp { local, offset: -3660 }));
    assert_eq!(Timestamp::in_zone(&local, Some(86399)), None);
    assert_eq!(Timestamp::in_zone(&local, Some(86400)), None);
    assert_eq!(Timestamp::in_zone(&local, None), None);
    assert_eq!(Timestamp::in_zone(&at(2023, 2, 29, 18, 0), Some(0)), None);
}

#[test]
fn resolving_in_a_zone() {
    let local = at(2024, 1, 11, 18, 0);
    assert_eq!(
        Timestamp::resolve_in_zone(Ok(local), Some(3600)),
        Ok(Timestamp { local, offset: 3600 })
    );
    assert_eq!(Timestamp::resolve_in_zone(Ok(local), None), Err(DateError::InvalidFormat));
    assert_eq!(
        Timestamp::resolve_in_zone(Err(DateError::MissingValue), Some(3600)),
        Err(DateError::MissingValue)
    );
}

#[test]
fn resolving_in_the_local_zone() {
    let reference = Timestamp { local: at(2024, 1, 10, 8, 0), offset: 0 };
    let stamp = Timestamp::parse_formated_string_to_datetime("tomorrow 18:00", &reference);
    match stamp {
        Ok(found) => {
            assert_eq!(found.local, at(2024, 1, 11, 18, 0));
            assert!(found.is_valid());
        }
        Err(e) => assert_eq!(e, DateError::InvalidFormat),
    }
    assert_eq!(
        Timestamp::parse_formated_string_to_datetime("", &reference),
        Err(DateError::MissingValue)
    );
}

#[test]
fn the_clock_gives_a_valid_moment() {
    match Timestamp::date_now() {
        Some(now) => assert!(now.is_valid()),
        None => panic!("the clock gave no valid moment"),
    }
}

#[test]
fn shown_forms() {
    let stamp = Timestamp { local: at(2024, 1, 11, 18, 0), offset: 3600 };
    assert_eq!(stamp.date_user_formating(), "11/01/2024 18:00");
    assert_eq!(stamp.date_dmy(), "11/01/2024");
    let early = Timestamp { local: at(7, 3, 4, 5, 6), offset: 0 };
    assert_eq!(early.date_user_formating(), "04/03/0007 05:06");
}

#[test]
fn written_out_form_in_the_local_zone() {
    match Timestamp::parse_string_to_datetime_local("11/01/2024 18:00") {
        Ok(found) => {
            assert_eq!(found.local, at(2024, 1, 11, 18, 0));
            assert!(found.is_valid());
        }
        Err(e) => assert_eq!(e, DateError::InvalidFormat),
    }
    assert_eq!(
        Timestamp::parse_string_to_datetime_local("11/01/2024"),
        Err(DateError::InvalidFormat)
    );
    assert_eq!(
        Timestamp::parse_string_to_datetime_local("1x/01/2024 18:00"),
        Err(DateError::NonNumericComponent)
    );
}

#[test]
fn deadlines() {
    let reference = Timestamp { local: at(2024, 1, 10, 8, 0), offset: 3600 };
    match Deadline::against("tomorrow 18:00", &reference) {
        Ok(deadline) => assert_eq!(deadline.date.local, at(2024, 1, 11, 18, 0)),
        Err(e) => assert_eq!(e, DateError::InvalidFormat),
    }
    assert_eq!(Deadline::against("", &reference), Err(DateError::MissingValue));
    match Deadline::new("10/06/2023 12:30") {
        Ok(deadline) => assert_eq!(deadline.date.local, at(2023, 6, 10, 12, 30)),
        Err(e) => assert_eq!(e, DateError::InvalidFormat),
    }
    assert_eq!(Deadline::new("10/0x/2023 12:30"), Err(DateError::NonNumericComponent));
}

#[test]
fn dates_and_times_are_written_in_full_width() {
    let reference = at(2024, 1, 10, 8, 0);
    assert_eq!(resolve("6/6/2023", &reference), Err(DateError::InvalidFormat));
    assert_eq!(resolve("06/06/2023", &reference), Ok(at(2023, 6, 6, 8, 0)));
    assert_eq!(resolve("06/6/2023", &reference), Err(DateError::InvalidFormat));
    assert_eq!(resolve("06/06/23", &reference), Err(DateError::InvalidFormat));
    assert_eq!(resolve("006/06/2023", &reference), Err(DateError::InvalidFormat));
    assert_eq!(resolve("06/06/02023", &reference), Err(DateError::InvalidFormat));
    assert_eq!(resolve("6/6/2023 12:30", &reference), Err(DateError::InvalidFormat));
    assert_eq!(resolve("06/06/2023 9:05", &reference), Err(DateError::InvalidFormat));
    assert_eq!(resolve("9:05", &reference), Err(DateError::InvalidFormat));
    assert_eq!(resolve("09:5", &reference), Err(DateError::InvalidFormat));
    assert_eq!(resolve("009:05", &reference), Err(DateError::InvalidFormat));
    assert_eq!(resolve("today 9:05", &reference), Err(DateError::InvalidFormat));
    assert_eq!(resolve("09:05", &reference), Ok(at(2024, 1, 10, 9, 5)));
    assert_eq!(resolve("01/01/0007 00:00", &reference), Ok(at(7, 1, 1, 0, 0)));
    assert!(!Timestamp::is_valid_dmy_format("6/6/2023"));
    assert!(Timestamp::is_valid_dmy_format("06/06/2023"));
    assert!(!Timestamp::is_valid_hm_format("9:05"));
    assert!(!Timestamp::is_valid_date_format("6/6/2023 12:30"));
}
