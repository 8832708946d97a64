//! Resolving what a user types for a date and a time against a reference
//! moment: `DD/MM/YYYY HH:MM`, `today`, `tomorrow`, either of them followed by
//! `HH:MM`, a bare `DD/MM/YYYY`, or a bare `HH:MM`. What the text leaves out
//! is taken from the reference.

use crate::calendar::{
    calendar_has, clock_now, date_exists, day_after, four_digits, lemma_four_digits,
    lemma_two_digits, local_offset_at, two_digits, user_text, user_text_of, CivilTime, Timestamp,
};
use crate::text::{
    all_digits, chars_of, decimal_value, find_first, is_all_digits, lower, lowered, parse_decimal,
    lemma_split_step, lemma_split_whole, same_chars, slice, split, split_on, string_of, to_lowered,
};
use vstd::prelude::*;

verus! {

/// Why a text names no date and time.
#[derive(Clone, Copy, Debug, PartialEq, Eq, Structural)]
pub enum DateError {
    /// The text is empty.
    MissingValue,
    /// A part that should be a number holds something else than digits.
    NonNumericComponent,
    /// A part holds digits only but is empty or too large a number.
    UnparsableNumber,
    /// The text has none of the accepted shapes, or names a date or a time of
    /// day that does not exist.
    InvalidFormat,
}

/// The number that one part of a date or of a time stands for.
pub open spec fn component(part: Seq<char>) -> Result<u32, DateError> {
    if !all_digits(part) {
        Err(DateError::NonNumericComponent)
    } else if part.len() == 0 || decimal_value(part) > u32::MAX {
        Err(DateError::UnparsableNumber)
    } else {
        Ok(decimal_value(part) as u32)
    }
}

/// The first error among the given parts, read from the left.
pub open spec fn first_error(parts: Seq<Seq<char>>) -> Option<DateError>
    decreases parts.len(),
{
    if parts.len() == 0 {
        None
    } else {
        match component(parts[0]) {
            Err(e) => Some(e),
            Ok(_) => first_error(parts.drop_first()),
        }
    }
}

/// The date `DD/MM/YYYY` that `word` names, at the time of day of `base`:
/// three numbers with `/` between them, the day and the month in two digits
/// each and the year in four, whether the word stands alone or before a time
/// of day. A part that is no number is an error of its own; numbers of other
/// widths, and a date that the calendar does not have, have no valid format.
pub open spec fn dated(word: Seq<char>, base: CivilTime) -> Result<CivilTime, DateError> {
    let parts = split_on(word, '/');
    if parts.len() != 3 {
        Err(DateError::InvalidFormat)
    } else if first_error(parts) is Some {
        Err(first_error(parts)->0)
    } else if !(parts[0].len() == 2 && parts[1].len() == 2 && parts[2].len() == 4) {
        Err(DateError::InvalidFormat)
    } else {
        let day = component(parts[0])->Ok_0;
        let month = component(parts[1])->Ok_0;
        let year = component(parts[2])->Ok_0;
        if year <= 9999 && date_exists(year as int, month as int, day as int) {
            Ok(CivilTime { year: year as i32, month, day, ..base })
        } else {
            Err(DateError::InvalidFormat)
        }
    }
}

/// The time of day `HH:MM` that `word` names, on the date of `base`: two
/// numbers of two digits each with `:` between them. A part that is no
/// number is an error of its own; numbers of other widths, and a time that
/// the day does not have, have no valid format.
pub open spec fn timed(word: Seq<char>, base: CivilTime) -> Result<CivilTime, DateError> {
    let parts = split_on(word, ':');
    if parts.len() != 2 {
        Err(DateError::InvalidFormat)
    } else if first_error(parts) is Some {
        Err(first_error(parts)->0)
    } else if !(parts[0].len() == 2 && parts[1].len() == 2) {
        Err(DateError::InvalidFormat)
    } else {
        let hour = component(parts[0])->Ok_0;
        let minute = component(parts[1])->Ok_0;
        if hour < 24 && minute < 60 {
            Ok(CivilTime { hour, minute, ..base })
        } else {
            Err(DateError::InvalidFormat)
        }
    }
}

/// The day that `word` names, at the time of day of `reference`: the
/// reference's own day for `today`, the next one for `tomorrow`, else the date
/// written out.
pub open spec fn day_of(word: Seq<char>, reference: CivilTime) -> Result<CivilTime, DateError> {
    if word == "today"@ {
        Ok(reference)
    } else if word == "tomorrow"@ {
        if reference.tomorrow().valid() {
            Ok(reference.tomorrow())
        } else {
            Err(DateError::InvalidFormat)
        }
    } else {
        dated(word, reference)
    }
}

/// The date and time that `token` names when read against `reference`.
/// Capital letters count as their lower-case forms. One word is a day, if it
/// is `today`, `tomorrow` or holds a `/`, or a time of day, if it holds a
/// `:`; two words, with one space between them, are a day and a time of day.
/// Dates and times of day are written in full width, `DD/MM/YYYY` and
/// `HH:MM`: `6/6/2023` and `9:05` have no valid format.
pub open spec fn resolved(token: Seq<char>, reference: CivilTime) -> Result<CivilTime, DateError> {
    let words = split_on(lowered(token), ' ');
    if token.len() == 0 {
        Err(DateError::MissingValue)
    } else if words.len() == 1 {
        let word = words[0];
        if word == "today"@ || word == "tomorrow"@ || word.contains('/') {
            day_of(word, reference)
        } else if word.contains(':') {
            timed(word, reference)
        } else {
            Err(DateError::InvalidFormat)
        }
    } else if words.len() == 2 {
        match day_of(words[0], reference) {
            Ok(day) => timed(words[1], day),
            Err(e) => Err(e),
        }
    } else {
        Err(DateError::InvalidFormat)
    }
}

/// The number that one part of a date or of a time stands for.
fn parse_component(part: &Vec<char>) -> (number: Result<u32, DateError>)
    ensures
        number == component(part@),
{
    if !is_all_digits(part) {
        return Err(DateError::NonNumericComponent);
    }
    if part.len() == 0 {
        return Err(DateError::UnparsableNumber);
    }
    match parse_decimal(part, 0xffff_ffff) {
        Some(value) => Ok(value as u32),
        None => Err(DateError::UnparsableNumber),
    }
}

/// The date that `word` names, at the time of day of `base`.
fn parse_date(word: &Vec<char>, base: &CivilTime) -> (date: Result<CivilTime, DateError>)
    ensures
        date == dated(word@, *base),
{
    let parts = split(word, '/');
    if parts.len() != 3 {
        return Err(DateError::InvalidFormat);
    }
    let ghost texts = split_on(word@, '/');
    proof {
        assert(texts[0] == parts[0]@ && texts[1] == parts[1]@ && texts[2] == parts[2]@);
        reveal_with_fuel(first_error, 4);
        assert(texts.drop_first()[0] == texts[1]);
        assert(texts.drop_first().drop_first()[0] == texts[2]);
        assert(texts.drop_first().drop_first().drop_first().len() == 0);
    }
    let day = parse_component(&parts[0])?;
    let month = parse_component(&parts[1])?;
    let year = parse_component(&parts[2])?;
    if !(parts[0].len() == 2 && parts[1].len() == 2 && parts[2].len() == 4) {
        return Err(DateError::InvalidFormat);
    }
    if year <= 9999 && calendar_has(year as i32, month, day) {
        Ok(CivilTime { year: year as i32, month, day, hour: base.hour, minute: base.minute })
    } else {
        Err(DateError::InvalidFormat)
    }
}

/// The time of day that `word` names, on the date of `base`.
fn parse_time(word: &Vec<char>, base: &CivilTime) -> (time: Result<CivilTime, DateError>)
    ensures
        time == timed(word@, *base),
{
    let parts = split(word, ':');
    if parts.len() != 2 {
        return Err(DateError::InvalidFormat);
    }
    let ghost texts = split_on(word@, ':');
    proof {
        assert(texts[0] == parts[0]@ && texts[1] == parts[1]@);
        reveal_with_fuel(first_error, 3);
        assert(texts.drop_first()[0] == texts[1]);
        assert(texts.drop_first().drop_first().len() == 0);
    }
    let hour = parse_component(&parts[0])?;
    let minute = parse_component(&parts[1])?;
    if !(parts[0].len() == 2 && parts[1].len() == 2) {
        return Err(DateError::InvalidFormat);
    }
    if hour < 24 && minute < 60 {
        Ok(CivilTime { year: base.year, month: base.month, day: base.day, hour, minute })
    } else {
        Err(DateError::InvalidFormat)
    }
}

/// The day that `word` names, at the time of day of `reference`.
fn parse_day(word: &Vec<char>, reference: &CivilTime) -> (day: Result<CivilTime, DateError>)
    requires
        reference.valid(),
    ensures
        day == day_of(word@, *reference),
{
    if same_chars(word, &chars_of("today")) {
        Ok(*reference)
    } else if same_chars(word, &chars_of("tomorrow")) {
        match day_after(reference) {
            Some(next) => if next.is_valid() {
                Ok(next)
            } else {
                Err(DateError::InvalidFormat)
            },
            None => Err(DateError::InvalidFormat),
        }
    } else {
        parse_date(word, reference)
    }
}

/// Resolves `token` against `reference`: the date and time that the token
/// names, with what it leaves out taken from the reference.
pub fn resolve(token: &str, reference: &CivilTime) -> (moment: Result<CivilTime, DateError>)
    requires
        reference.valid(),
    ensures
        moment == resolved(token@, *reference),
        moment matches Ok(t) ==> t.valid(),
{
    let chars = chars_of(token);
    if chars.len() == 0 {
        return Err(DateError::MissingValue);
    }
    let low = to_lowered(&chars);
    let words = split(&low, ' ');
    let ghost texts = split_on(lowered(token@), ' ');
    if words.len() == 1 {
        let word = &words[0];
        assert(texts[0] == word@);
        proof {
            word@.index_of_first_ensures('/');
            word@.index_of_first_ensures(':');
        }
        if same_chars(word, &chars_of("today")) || same_chars(word, &chars_of("tomorrow"))
            || find_first(word, '/').is_some() {
            parse_day(word, reference)
        } else if find_first(word, ':').is_some() {
            parse_time(word, reference)
        } else {
            Err(DateError::InvalidFormat)
        }
    } else if words.len() == 2 {
        assert(texts[0] == words[0]@ && texts[1] == words[1]@);
        let day = parse_day(&words[0], reference)?;
        parse_time(&words[1], &day)
    } else {
        Err(DateError::InvalidFormat)
    }
}

// ---------------------------------------------------------------------------
// The written-out form, and the local time zone

/// The moment that `text` names where it is a date and a time written out,
/// `DD/MM/YYYY HH:MM`, with one space between the two.
pub open spec fn written_out(text: Seq<char>) -> Result<CivilTime, DateError> {
    let words = split_on(text, ' ');
    if words.len() != 2 {
        Err(DateError::InvalidFormat)
    } else {
        match dated(words[0], start_of_epoch()) {
            Ok(day) => timed(words[1], day),
            Err(e) => Err(e),
        }
    }
}

/// Midnight before the first of January 1970.
pub open spec fn start_of_epoch() -> CivilTime {
    CivilTime { year: 1970, month: 1, day: 1, hour: 0, minute: 0 }
}

/// `offset`, in seconds, rounded to a whole number of minutes, halves away
/// from zero.
pub open spec fn whole_minutes(offset: int) -> int {
    if offset >= 0 {
        (offset + 30) / 60 * 60
    } else {
        -((-offset + 30) / 60 * 60)
    }
}

/// The timestamp of the local time `local` where the zone gives it the offset
/// `offset`, rounded to the minute: `None` where the zone gives no offset,
/// and where the local time or the rounded offset is not valid.
pub open spec fn zoned(local: CivilTime, offset: Option<i32>) -> Option<Timestamp> {
    match offset {
        Some(seconds) if local.valid() && -86400 < whole_minutes(seconds as int) < 86400 => Some(
            Timestamp { local, offset: whole_minutes(seconds as int) as i32 },
        ),
        _ => None,
    }
}

/// What becomes of a resolved moment once the zone has given its offset, or
/// none: an error stays, and a moment to which the zone gives no offset has
/// no valid format.
pub open spec fn resolved_in_zone(
    moment: Result<CivilTime, DateError>,
    offset: Option<i32>,
) -> Result<Timestamp, DateError> {
    match moment {
        Err(e) => Err(e),
        Ok(local) => match zoned(local, offset) {
            Some(stamp) => Ok(stamp),
            None => Err(DateError::InvalidFormat),
        },
    }
}

/// Midnight before the first of January 1970.
pub fn epoch_start() -> (start: CivilTime)
    ensures
        start == start_of_epoch(),
{
    CivilTime { year: 1970, month: 1, day: 1, hour: 0, minute: 0 }
}

/// The moment that `text` names where it is a date and a time written out.
pub fn parse_written_out(text: &str) -> (moment: Result<CivilTime, DateError>)
    ensures
        moment == written_out(text@),
        moment matches Ok(t) ==> t.valid(),
{
    let chars = chars_of(text);
    let words = split(&chars, ' ');
    if words.len() != 2 {
        return Err(DateError::InvalidFormat);
    }
    let ghost texts = split_on(text@, ' ');
    assert(texts[0] == words[0]@ && texts[1] == words[1]@);
    let day = parse_date(&words[0], &epoch_start())?;
    parse_time(&words[1], &day)
}

impl Timestamp {
    /// The timestamp of the local time `local` at the offset, in seconds,
    /// that the zone gives it.
    pub fn in_zone(local: &CivilTime, offset: Option<i32>) -> (stamp: Option<Timestamp>)
        ensures
            stamp == zoned(*local, offset),
            stamp matches Some(t) ==> t.valid() && t.local == *local,
    {
        match offset {
            Some(seconds) => {
                if !local.is_valid() || seconds <= -86400 || seconds >= 86400 {
                    return None;
                }
                let rounded: i32 = if seconds >= 0 {
                    (seconds + 30) / 60 * 60
                } else {
                    -((-seconds + 30) / 60 * 60)
                };
                if rounded <= -86400 || rounded >= 86400 {
                    None
                } else {
                    Some(Timestamp { local: *local, offset: rounded })
                }
            },
            None => None,
        }
    }

    /// What becomes of a resolved moment once the zone has given its offset,
    /// or none.
    pub fn resolve_in_zone(moment: Result<CivilTime, DateError>, offset: Option<i32>) -> (stamp:
        Result<Timestamp, DateError>)
        ensures
            stamp == resolved_in_zone(moment, offset),
            stamp matches Ok(t) ==> t.valid(),
    {
        match moment {
            Err(e) => Err(e),
            Ok(local) => match Timestamp::in_zone(&local, offset) {
                Some(stamp) => Ok(stamp),
                None => Err(DateError::InvalidFormat),
            },
        }
    }

    /// The clock's present time to the minute, in this machine's time zone;
    /// `None` where the clock's year has more than four digits.
    pub fn date_now() -> (now: Option<Timestamp>)
        ensures
            now matches Some(t) ==> t.valid(),
    {
        let raw = clock_now();
        Timestamp::in_zone(&raw.local, Some(raw.offset))
    }

    /// Resolves `date` against the local time of `date_from`, and gives the
    /// moment the offset that this machine's time zone has for it. An error
    /// of the resolver comes back as it is; a moment that the zone does not
    /// have exactly once has no valid format.
    pub fn parse_formated_string_to_datetime(date: &str, date_from: &Timestamp) -> (stamp: Result<
        Timestamp,
        DateError,
    >)
        requires
            date_from.valid(),
        ensures
            match resolved(date@, date_from.local) {
                Err(e) => stamp == Err::<Timestamp, DateError>(e),
                Ok(moment) => stamp == Err::<Timestamp, DateError>(DateError::InvalidFormat) || (
                stamp matches Ok(t) && t.valid() && t.local == moment),
            },
    {
        match resolve(date, &date_from.local) {
            Err(e) => Err(e),
            Ok(moment) => {
                let offset = local_offset_at(&moment);
                Timestamp::resolve_in_zone(Ok(moment), offset)
            },
        }
    }

    /// Whether `date_string` is a date and a time written out,
    /// `DD/MM/YYYY HH:MM`.
    pub fn is_valid_date_format(date_string: &str) -> (valid: bool)
        ensures
            valid == (written_out(date_string@) is Ok),
    {
        parse_written_out(date_string).is_ok()
    }

    /// Whether `date_string` is a date written out, `DD/MM/YYYY`.
    pub fn is_valid_dmy_format(date_string: &str) -> (valid: bool)
        ensures
            valid == (dated(date_string@, start_of_epoch()) is Ok),
    {
        parse_date(&chars_of(date_string), &epoch_start()).is_ok()
    }

    /// Whether `date_string` is a time of day written out, `HH:MM`.
    pub fn is_valid_hm_format(date_string: &str) -> (valid: bool)
        ensures
            valid == (timed(date_string@, start_of_epoch()) is Ok),
    {
        parse_time(&chars_of(date_string), &epoch_start()).is_ok()
    }

    /// The timestamp that a date and a time written out name in this
    /// machine's time zone. An error of the form comes back as it is; a
    /// moment that the zone does not have exactly once has no valid format.
    pub fn parse_string_to_datetime_local(date_string: &str) -> (stamp: Result<
        Timestamp,
        DateError,
    >)
        ensures
            match written_out(date_string@) {
                Err(e) => stamp == Err::<Timestamp, DateError>(e),
                Ok(moment) => stamp == Err::<Timestamp, DateError>(DateError::InvalidFormat) || (
                stamp matches Ok(t) && t.valid() && t.local == moment),
            },
    {
        match parse_written_out(date_string) {
            Err(e) => Err(e),
            Ok(moment) => {
                let offset = local_offset_at(&moment);
                Timestamp::resolve_in_zone(Ok(moment), offset)
            },
        }
    }

    /// The local date and time as it is shown to the user, `DD/MM/YYYY HH:MM`.
    pub fn date_user_formating(&self) -> (text: String)
        requires
            self.valid(),
        ensures
            text@ == user_text(self.local),
    {
        user_text_of(&self.local)
    }

    /// The local date as it is shown to the user, `DD/MM/YYYY`.
    pub fn date_dmy(&self) -> (text: String)
        requires
            self.valid(),
        ensures
            text@ == user_text(self.local).take(10),
    {
        let whole = chars_of(user_text_of(&self.local).as_str());
        proof {
            lemma_two_digits(self.local.day as int);
            lemma_two_digits(self.local.month as int);
            lemma_four_digits(self.local.year as int);
            lemma_two_digits(self.local.hour as int);
            lemma_two_digits(self.local.minute as int);
        }
        string_of(&slice(&whole, 0, 10))
    }
}

// ---------------------------------------------------------------------------
// What holds of every reference

/// A sequence without capital letters is its own lower-case form.
pub proof fn lemma_lowered_plain(s: Seq<char>)
    requires
        forall|i: int| 0 <= i < s.len() ==> !('A' <= #[trigger] s[i] && s[i] <= 'Z'),
    ensures
        lowered(s) == s,
{
}

/// `today` is the reference itself: its date, at its time of day.
pub proof fn lemma_today_is_the_reference(reference: CivilTime)
    ensures
        resolved("today"@, reference) == Ok::<CivilTime, DateError>(reference),
{
    reveal_strlit("today");
    let word = "today"@;
    lemma_lowered_plain(word);
    assert(!word.contains(' '));
    lemma_split_whole(word, ' ');
}

/// `tomorrow` is the day after the reference's, at its time of day.
pub proof fn lemma_tomorrow_is_the_next_day(reference: CivilTime)
    requires
        reference.tomorrow().valid(),
    ensures
        resolved("tomorrow"@, reference) == Ok::<CivilTime, DateError>(reference.tomorrow()),
{
    reveal_strlit("tomorrow");
    reveal_strlit("today");
    let word = "tomorrow"@;
    lemma_lowered_plain(word);
    assert(!word.contains(' '));
    lemma_split_whole(word, ' ');
}

/// A time of day written as two digits, a colon and two digits is that time
/// of day, on the date of `base`.
pub proof fn lemma_time_written_out(hour: u32, minute: u32, base: CivilTime)
    requires
        hour < 24,
        minute < 60,
    ensures
        timed(two_digits(hour as int) + seq![':'] + two_digits(minute as int), base) == Ok::<
            CivilTime,
            DateError,
        >(CivilTime { hour, minute, ..base }),
{
    let hh = two_digits(hour as int);
    let mm = two_digits(minute as int);
    lemma_two_digits(hour as int);
    lemma_two_digits(minute as int);
    assert(!hh.contains(':'));
    assert(!mm.contains(':'));
    lemma_split_step(hh, ':', mm);
    lemma_split_whole(mm, ':');
    let parts = split_on(hh + seq![':'] + mm, ':');
    assert(parts == seq![hh, mm]);
    reveal_with_fuel(first_error, 3);
    assert(parts.drop_first()[0] == mm);
    assert(parts.drop_first().drop_first().len() == 0);
}

/// A date written as day, month and year, in two, two and four digits with
/// `/` between them, is that date, at the time of day of `base`.
pub proof fn lemma_date_written_out(date: CivilTime, base: CivilTime)
    requires
        date.valid(),
    ensures
        dated(
            two_digits(date.day as int) + seq!['/'] + two_digits(date.month as int) + seq!['/']
                + four_digits(date.year as int),
            base,
        ) == Ok::<CivilTime, DateError>(date.at_time_of(base)),
{
    let dd = two_digits(date.day as int);
    let mm = two_digits(date.month as int);
    let yyyy = four_digits(date.year as int);
    lemma_two_digits(date.day as int);
    lemma_two_digits(date.month as int);
    lemma_four_digits(date.year as int);
    assert(!dd.contains('/'));
    assert(!mm.contains('/'));
    assert(!yyyy.contains('/'));
    lemma_split_whole(yyyy, '/');
    lemma_split_step(mm, '/', yyyy);
    lemma_split_step(dd, '/', mm + seq!['/'] + yyyy);
    let word = dd + seq!['/'] + mm + seq!['/'] + yyyy;
    assert(word == dd + seq!['/'] + (mm + seq!['/'] + yyyy));
    let parts = split_on(word, '/');
    assert(parts == seq![dd, mm, yyyy]);
    reveal_with_fuel(first_error, 4);
    assert(parts.drop_first()[0] == mm);
    assert(parts.drop_first().drop_first()[0] == yyyy);
    assert(parts.drop_first().drop_first().drop_first().len() == 0);
}

/// A day word, a space and a time of day written out: the day that the word
/// names, at that time of day.
pub proof fn lemma_day_and_time(word: Seq<char>, hour: u32, minute: u32, reference: CivilTime)
    requires
        hour < 24,
        minute < 60,
        lowered(word) == word,
        !word.contains(' '),
    ensures
        resolved(
            word + seq![' '] + two_digits(hour as int) + seq![':'] + two_digits(minute as int),
            reference,
        ) == match day_of(word, reference) {
            Ok(day) => Ok::<CivilTime, DateError>(CivilTime { hour, minute, ..day }),
            Err(e) => Err(e),
        },
{
    let time = two_digits(hour as int) + seq![':'] + two_digits(minute as int);
    let token = word + seq![' '] + two_digits(hour as int) + seq![':'] + two_digits(minute as int);
    lemma_two_digits(hour as int);
    lemma_two_digits(minute as int);
    assert(token == word + seq![' '] + time);
    assert(lowered(token) == token) by {
        assert forall|i: int| 0 <= i < token.len() implies lower(token[i]) == token[i] by {
            if i < word.len() {
                assert(lowered(word)[i] == word[i]);
            }
        }
    }
    assert(!time.contains(' '));
    lemma_split_step(word, ' ', time);
    lemma_split_whole(time, ' ');
    assert(split_on(token, ' ') == seq![word, time]);
    match day_of(word, reference) {
        Ok(day) => {
            lemma_time_written_out(hour, minute, day);
        },
        Err(_) => {},
    }
}

/// A date and a time written out in full name that moment against every
/// reference.
pub proof fn lemma_full_form_names_itself(moment: CivilTime, reference: CivilTime)
    requires
        moment.valid(),
    ensures
        resolved(user_text(moment), reference) == Ok::<CivilTime, DateError>(moment),
{
    let word = two_digits(moment.day as int) + seq!['/'] + two_digits(moment.month as int)
        + seq!['/'] + four_digits(moment.year as int);
    lemma_two_digits(moment.day as int);
    lemma_two_digits(moment.month as int);
    lemma_four_digits(moment.year as int);
    assert(!word.contains(' '));
    lemma_lowered_plain(word);
    reveal_strlit("today");
    reveal_strlit("tomorrow");
    lemma_date_written_out(moment, reference);
    lemma_day_and_time(word, moment.hour, moment.minute, reference);
    assert(user_text(moment) == word + seq![' '] + two_digits(moment.hour as int) + seq![':']
        + two_digits(moment.minute as int));
}

/// A token of two words whose first is neither `today` nor `tomorrow` is read
/// alike against every reference.
pub proof fn lemma_date_and_time_ignore_the_reference(
    token: Seq<char>,
    first: CivilTime,
    second: CivilTime,
)
    requires
        split_on(lowered(token), ' ').len() == 2,
        split_on(lowered(token), ' ')[0] != "today"@,
        split_on(lowered(token), ' ')[0] != "tomorrow"@,
    ensures
        resolved(token, first) == resolved(token, second),
{
}

/// `tomorrow` with a time of day is the day after the reference's, at that
/// time of day.
pub proof fn lemma_tomorrow_at(hour: u32, minute: u32, reference: CivilTime)
    requires
        hour < 24,
        minute < 60,
        reference.tomorrow().valid(),
    ensures
        resolved(
            "tomorrow"@ + seq![' '] + two_digits(hour as int) + seq![':'] + two_digits(
                minute as int,
            ),
            reference,
        ) == Ok::<CivilTime, DateError>(CivilTime { hour, minute, ..reference.tomorrow() }),
{
    reveal_strlit("tomorrow");
    reveal_strlit("today");
    let word = "tomorrow"@;
    lemma_lowered_plain(word);
    assert(!word.contains(' '));
    lemma_day_and_time(word, hour, minute, reference);
}

/// `tomorrow 09:15` is the day after the reference's, at a quarter past nine.
pub proof fn lemma_tomorrow_at_a_quarter_past_nine(reference: CivilTime)
    requires
        reference.tomorrow().valid(),
    ensures
        resolved("tomorrow 09:15"@, reference) == Ok::<CivilTime, DateError>(
            CivilTime { hour: 9, minute: 15, ..reference.tomorrow() },
        ),
{
    reveal_strlit("tomorrow 09:15");
    reveal_strlit("tomorrow");
    lemma_tomorrow_at(9, 15, reference);
    assert("tomorrow 09:15"@ == "tomorrow"@ + seq![' '] + two_digits(9) + seq![':'] + two_digits(
        15,
    ));
}

} // verus!
