//! The backing file: one task to a line, each of the shape
//! `Task { thing: "<description>", status: <status>, label: <label>, deadline: <timestamp> }`.
//! The description stands between double quotes as it is, whatever it holds.

use crate::calendar::{accepted, local_offset_at, rfc3339_text, stamp_of, Timestamp};
use crate::field_map::FieldMap;
use crate::resolver::{parse_written_out, written_out, zoned};
use crate::roundtrip::verbatim;
use crate::task::{Deadline, Task, TaskStatus, TaskView};
use crate::text::{
    append_str, chars_of, find_first, find_last, has_prefix, has_suffix, lowered, nonempty,
    same_chars, slice, split, split_on, string_of, to_lowered, trim, trimmed, views_of,
};
use vstd::prelude::*;

verus! {

/// Why a line is not the record of a task.
#[derive(Clone, Copy, Debug, PartialEq, Eq, Structural)]
pub enum DecodeError {
    /// The line does not start with `Task { ` and end with ` }`.
    MissingMarker,
    /// What follows the marker is not `thing: ` and a description between
    /// double quotes.
    MissingThing,
    /// A part after the description has no colon, or no comma before it.
    MalformedField,
    /// The description, the status, the label or the deadline is not there.
    MissingField,
    /// The status is none of the five.
    UnknownStatus,
    /// A moment is not a valid timestamp.
    InvalidTimestamp,
}

// ---------------------------------------------------------------------------
// What a record says

/// The line that holds `task`.
pub open spec fn record_text(task: TaskView) -> Seq<char> {
    "Task { thing: "@ + seq!['"'] + task.thing + seq!['"'] + ", status: "@
        + task.status.record_text() + ", label: "@ + task.label + ", deadline: "@ + rfc3339_text(
        task.deadline.date,
    ) + " }"@
}

/// The file that holds `tasks`: their lines in order, each ended by a line
/// feed. It is empty where there is no task.
pub open spec fn file_text(tasks: Seq<Task>) -> Seq<char>
    decreases tasks.len(),
{
    if tasks.len() == 0 {
        Seq::empty()
    } else {
        record_text(tasks[0]@) + seq!['\n'] + file_text(tasks.drop_first())
    }
}

/// The lines of a file that hold anything: what stands between its line
/// feeds, but for what is empty.
pub open spec fn lines_of(file: Seq<char>) -> Seq<Seq<char>> {
    nonempty(split_on(file, '\n'))
}

/// Whether every task of `tasks` is well formed.
pub open spec fn all_wf(tasks: Seq<Task>) -> bool {
    forall|i: int| 0 <= i < tasks.len() ==> (#[trigger] tasks[i]).wf()
}

/// What stands between the brackets of `text`, where it is a name, an
/// opening bracket, something, and a closing bracket at its end.
pub open spec fn bracketed(text: Seq<char>) -> Option<Seq<char>> {
    match text.index_of_first('(') {
        Some(open) if 0 <= open < text.len() && text.last() == ')' => Some(
            text.subrange(open + 1, text.len() - 1),
        ),
        _ => None,
    }
}

/// The status that `text` names, where what stands between its brackets was
/// read as the timestamp `stamp`: `Completed` or `Todo`, or `Postponed`,
/// `Expired` or `Aborted` with that timestamp. Capital letters in the names
/// count as their lower-case forms.
pub open spec fn status_given(text: Seq<char>, stamp: Option<Timestamp>) -> Result<
    TaskStatus,
    DecodeError,
> {
    if lowered(text) == "completed"@ {
        Ok(TaskStatus::Completed)
    } else if lowered(text) == "todo"@ {
        Ok(TaskStatus::Todo)
    } else {
        match text.index_of_first('(') {
            Some(open) if 0 <= open < text.len() && text.last() == ')' => {
                let name = lowered(text.take(open));
                if name == "postponed"@ || name == "expired"@ || name == "aborted"@ {
                    match stamp {
                        Some(at) => Ok(
                            if name == "postponed"@ {
                                TaskStatus::Postponed(at)
                            } else if name == "expired"@ {
                                TaskStatus::Expired(at)
                            } else {
                                TaskStatus::Aborted(at)
                            },
                        ),
                        None => Err(DecodeError::InvalidTimestamp),
                    }
                } else {
                    Err(DecodeError::UnknownStatus)
                }
            },
            _ => Err(DecodeError::UnknownStatus),
        }
    }
}

/// The status that `text` names: `Completed` or `Todo`, or `Postponed`,
/// `Expired` or `Aborted` followed by a timestamp in brackets.
pub open spec fn status_of(text: Seq<char>) -> Result<TaskStatus, DecodeError> {
    status_given(
        text,
        match bracketed(text) {
            Some(inner) => stamp_of(inner),
            None => None,
        },
    )
}

/// The deadline that `text` names, where the text was read as the timestamp
/// `stamp`: that timestamp, or else a date and a time written out,
/// `DD/MM/YYYY HH:MM`, at the offset `offset` that the local time zone gives
/// that moment.
pub open spec fn deadline_given(
    text: Seq<char>,
    stamp: Option<Timestamp>,
    offset: Option<i32>,
) -> Option<Timestamp> {
    match stamp {
        Some(at) => Some(at),
        None => match written_out(text) {
            Ok(local) => zoned(local, offset),
            Err(_) => None,
        },
    }
}

/// The deadline that `text` names: a timestamp in RFC 3339 form, or else a
/// date and a time written out, `DD/MM/YYYY HH:MM`, at the offset `offset`
/// that the local time zone gives that moment.
pub open spec fn deadline_of(text: Seq<char>, offset: Option<i32>) -> Option<Timestamp> {
    deadline_given(text, stamp_of(text), offset)
}

/// The task that the fields of a record make. It fails where one of the four
/// fields is not there, where the status is none of the five, and where the
/// moment of the status or the deadline is no valid timestamp; the
/// description and the label are taken as they are.
pub open spec fn task_of_fields(fields: Map<Seq<char>, Seq<char>>, offset: Option<i32>) -> Result<
    TaskView,
    DecodeError,
> {
    if !(fields.dom().contains("deadline"@) && fields.dom().contains("thing"@)
        && fields.dom().contains("status"@) && fields.dom().contains("label"@)) {
        Err(DecodeError::MissingField)
    } else {
        match status_of(fields["status"@]) {
            Err(e) => Err(e),
            Ok(status) => match deadline_of(fields["deadline"@], offset) {
                None => Err(DecodeError::InvalidTimestamp),
                Some(date) => Ok(
                    TaskView {
                        thing: fields["thing"@],
                        status,
                        deadline: Deadline { date },
                        label: fields["label"@],
                    },
                ),
            },
        }
    }
}

/// `fields` with the fields added that `pieces` hold, from the first to the
/// last: of each piece, what stands before its first colon is the name and
/// what stands after it the value, both without the spaces around them.
pub open spec fn with_fields(
    fields: Map<Seq<char>, Seq<char>>,
    pieces: Seq<Seq<char>>,
) -> Result<Map<Seq<char>, Seq<char>>, DecodeError>
    decreases pieces.len(),
{
    if pieces.len() == 0 {
        Ok(fields)
    } else {
        match pieces[0].index_of_first(':') {
            Some(colon) if 0 <= colon < pieces[0].len() => with_fields(
                fields.insert(trimmed(pieces[0].take(colon)), trimmed(pieces[0].skip(colon + 1))),
                pieces.drop_first(),
            ),
            _ => Err(DecodeError::MalformedField),
        }
    }
}

/// Where the description's closing quote stands in the body of a record: at
/// the last double quote, after which no free text follows.
pub open spec fn closing_quote(body: Seq<char>) -> Option<int> {
    match body.index_of_last('"') {
        Some(close) if ("thing: "@ + seq!['"']).is_prefix_of(body) && 8 <= close < body.len() => {
            Some(close)
        },
        _ => None,
    }
}

/// The fields of the record `line`, by name. The description reaches from
/// the quote after `thing: ` to the last quote of the line; what follows is
/// cut at the commas into the other fields.
pub open spec fn fields_of(line: Seq<char>) -> Result<Map<Seq<char>, Seq<char>>, DecodeError> {
    if !(line.len() >= 9 && "Task { "@.is_prefix_of(line) && " }"@.is_suffix_of(line)) {
        Err(DecodeError::MissingMarker)
    } else {
        let body = line.subrange(7, line.len() - 2);
        match closing_quote(body) {
            None => Err(DecodeError::MissingThing),
            Some(close) => {
                let thing = body.subrange(8, close);
                let rest = body.skip(close + 1);
                let first = Map::<Seq<char>, Seq<char>>::empty().insert("thing"@, thing);
                if rest.len() == 0 {
                    Ok(first)
                } else if rest[0] != ',' {
                    Err(DecodeError::MalformedField)
                } else {
                    with_fields(first, split_on(rest.skip(1), ','))
                }
            },
        }
    }
}

/// The task that the record `line` holds.
pub open spec fn decoded(line: Seq<char>, offset: Option<i32>) -> Result<TaskView, DecodeError> {
    match fields_of(line) {
        Ok(fields) => task_of_fields(fields, offset),
        Err(e) => Err(e),
    }
}

/// What a result says of a task, the task taken by its view.
pub open spec fn outcome(result: Result<Task, DecodeError>) -> Result<TaskView, DecodeError> {
    match result {
        Ok(task) => Ok(task@),
        Err(e) => Err(e),
    }
}

// ---------------------------------------------------------------------------
// Reading

/// The status that `text` names, where `parsed` is what the parser of
/// timestamps made of what stands between its brackets.
pub fn status_with(text: &str, parsed: Option<Timestamp>) -> (status: Result<
    TaskStatus,
    DecodeError,
>)
    ensures
        status == status_given(text@, accepted(parsed)),
        status matches Ok(s) ==> s.valid(),
{
    let chars = chars_of(text);
    let low = to_lowered(&chars);
    if same_chars(&low, &chars_of("completed")) {
        return Ok(TaskStatus::Completed);
    }
    if same_chars(&low, &chars_of("todo")) {
        return Ok(TaskStatus::Todo);
    }
    match find_first(&chars, '(') {
        Some(open) => {
            proof {
                chars@.index_of_first_ensures('(');
            }
            if chars[chars.len() - 1] != ')' {
                return Err(DecodeError::UnknownStatus);
            }
            let name = to_lowered(&slice(&chars, 0, open));
            let postponed = same_chars(&name, &chars_of("postponed"));
            let expired = same_chars(&name, &chars_of("expired"));
            let aborted = same_chars(&name, &chars_of("aborted"));
            if !(postponed || expired || aborted) {
                return Err(DecodeError::UnknownStatus);
            }
            match Timestamp::checked(parsed) {
                Some(at) => if postponed {
                    Ok(TaskStatus::Postponed(at))
                } else if expired {
                    Ok(TaskStatus::Expired(at))
                } else {
                    Ok(TaskStatus::Aborted(at))
                },
                None => Err(DecodeError::InvalidTimestamp),
            }
        },
        None => Err(DecodeError::UnknownStatus),
    }
}

/// What stands between the brackets of `text`.
pub fn between_brackets(text: &str) -> (inner: Option<String>)
    ensures
        match inner {
            Some(found) => bracketed(text@) == Some(found@),
            None => bracketed(text@) is None,
        },
{
    let chars = chars_of(text);
    proof {
        chars@.index_of_first_ensures('(');
    }
    match find_first(&chars, '(') {
        Some(open) => {
            if chars[chars.len() - 1] != ')' {
                return None;
            }
            Some(string_of(&slice(&chars, open + 1, chars.len() - 1)))
        },
        None => None,
    }
}

/// The status that `text` names.
pub fn parse_status(text: &str) -> (status: Result<TaskStatus, DecodeError>)
    ensures
        status == status_of(text@),
        status matches Ok(s) ==> s.valid(),
{
    let parsed = match between_brackets(text) {
        Some(inner) => Timestamp::parse_rfc3339(inner.as_str()),
        None => None,
    };
    status_with(text, parsed)
}

/// The deadline that `text` names, where `parsed` is what the parser of
/// timestamps made of the text, and the local time zone gives the moment
/// written out the offset `offset`.
pub fn deadline_with(text: &str, parsed: Option<Timestamp>, offset: Option<i32>) -> (date: Option<
    Timestamp,
>)
    ensures
        date == deadline_given(text@, accepted(parsed), offset),
        date matches Some(at) ==> at.valid(),
{
    match Timestamp::checked(parsed) {
        Some(at) => Some(at),
        None => match parse_written_out(text) {
            Ok(local) => Timestamp::in_zone(&local, offset),
            Err(_) => None,
        },
    }
}

/// The deadline that `text` names, where the local time zone gives the
/// moment written out the offset `offset`.
pub fn parse_deadline(text: &str, offset: Option<i32>) -> (date: Option<Timestamp>)
    ensures
        date == deadline_of(text@, offset),
        date matches Some(at) ==> at.valid(),
{
    deadline_with(text, Timestamp::parse_rfc3339(text), offset)
}

/// The four names of a record's fields are four different texts.
pub proof fn lemma_names_differ()
    ensures
        "deadline"@ != "thing"@,
        "deadline"@ != "status"@,
        "deadline"@ != "label"@,
        "thing"@ != "status"@,
        "thing"@ != "label"@,
        "status"@ != "label"@,
{
    reveal_strlit("deadline");
    reveal_strlit("thing");
    reveal_strlit("status");
    reveal_strlit("label");
    assert("deadline"@.len() == 8 && "status"@.len() == 6 && "thing"@.len() == 5);
    assert("thing"@[0] != "label"@[0]);
}

/// The task that the fields of a record make, where the local time zone
/// gives a deadline written out the offset `offset`. The four fields are
/// taken out of `fields`.
pub fn parse_task_fields(fields: &mut FieldMap, offset: Option<i32>) -> (task: Result<
    Task,
    DecodeError,
>)
    ensures
        outcome(task) == task_of_fields(old(fields)@, offset),
        task matches Ok(t) ==> t.wf(),
        final(fields)@ == old(fields)@.remove("deadline"@).remove("thing"@).remove(
            "status"@,
        ).remove("label"@),
{
    proof {
        lemma_names_differ();
    }
    let deadline = fields.remove("deadline");
    let thing = fields.remove("thing");
    let status = fields.remove("status");
    let label = fields.remove("label");
    match (deadline, thing, status, label) {
        (Some(deadline), Some(thing), Some(status), Some(label)) => {
            let status = parse_status(status.as_str())?;
            match parse_deadline(deadline.as_str(), offset) {
                None => Err(DecodeError::InvalidTimestamp),
                Some(date) => {
                    match Task::from_parts(
                        thing.as_str(),
                        status,
                        Deadline { date },
                        label.as_str(),
                    ) {
                        Some(task) => Ok(task),
                        None => Err(DecodeError::InvalidTimestamp),
                    }
                },
            }
        },
        _ => Err(DecodeError::MissingField),
    }
}

/// The task that the fields of a record make. A deadline written out as
/// `DD/MM/YYYY HH:MM` gets the offset that this machine's time zone has for
/// it; whatever the zone says, the task is the one that the fields make for
/// some offset. The four fields are taken out of `fields`.
pub fn parse_task_from_file(instance_fields: &mut FieldMap) -> (task: Result<Task, DecodeError>)
    ensures
        exists|offset: Option<i32>|
            outcome(task) == #[trigger] task_of_fields(old(instance_fields)@, offset),
        task matches Ok(t) ==> t.wf(),
        final(instance_fields)@ == old(instance_fields)@.remove("deadline"@).remove(
            "thing"@,
        ).remove("status"@).remove("label"@),
{
    let mut offset: Option<i32> = None;
    match instance_fields.remove("deadline") {
        Some(text) => {
            let ghost before = instance_fields@;
            instance_fields.insert("deadline", text.as_str());
            assert(instance_fields@ == old(instance_fields)@);
            if Timestamp::parse_rfc3339(text.as_str()).is_none() {
                match parse_written_out(text.as_str()) {
                    Ok(local) => {
                        offset = local_offset_at(&local);
                    },
                    Err(_) => {},
                }
            }
        },
        None => {
            assert(instance_fields@ == old(instance_fields)@);
        },
    }
    parse_task_fields(instance_fields, offset)
}

/// Adds to `fields` the fields that `pieces` hold.
fn add_fields(fields: &mut FieldMap, pieces: &Vec<Vec<char>>) -> (done: Result<(), DecodeError>)
    ensures
        match done {
            Ok(_) => with_fields(old(fields)@, views_of(pieces@)) == Ok::<_, DecodeError>(
                final(fields)@,
            ),
            Err(e) => with_fields(old(fields)@, views_of(pieces@)) == Err::<
                Map<Seq<char>, Seq<char>>,
                DecodeError,
            >(e),
        },
{
    let mut i: usize = 0;
    assert(views_of(pieces@).skip(0) == views_of(pieces@));
    while i < pieces.len()
        invariant
            i <= pieces@.len(),
            with_fields(old(fields)@, views_of(pieces@)) == with_fields(
                fields@,
                views_of(pieces@).skip(i as int),
            ),
        decreases pieces.len() - i,
    {
        let piece = &pieces[i];
        let ghost left = views_of(pieces@).skip(i as int);
        assert(left[0] == piece@);
        assert(left.drop_first() == views_of(pieces@).skip(i + 1));
        proof {
            piece@.index_of_first_ensures(':');
        }
        match find_first(piece, ':') {
            Some(colon) => {
                let end = piece.len();
                assert(colon < end);
                let name = trim(&slice(piece, 0, colon));
                let value = trim(&slice(piece, colon + 1, end));
                fields.insert_chars(name, value);
            },
            None => {
                return Err(DecodeError::MalformedField);
            },
        }
        i += 1;
    }
    Ok(())
}

/// The fields of the record `line`, by name.
pub fn fields_from_line(line: &str) -> (fields: Result<FieldMap, DecodeError>)
    ensures
        match fields {
            Ok(f) => fields_of(line@) == Ok::<_, DecodeError>(f@),
            Err(e) => fields_of(line@) == Err::<Map<Seq<char>, Seq<char>>, DecodeError>(e),
        },
{
    let chars = chars_of(line);
    proof {
        reveal_strlit("Task { ");
        reveal_strlit(" }");
        reveal_strlit("thing: ");
        reveal_strlit("thing");
    }
    if !(chars.len() >= 9 && has_prefix(&chars, &chars_of("Task { ")) && has_suffix(
        &chars,
        &chars_of(" }"),
    )) {
        return Err(DecodeError::MissingMarker);
    }
    let body = slice(&chars, 7, chars.len() - 2);
    let mut opening = chars_of("thing: ");
    opening.push('"');
    assert(opening@ == "thing: "@ + seq!['"']);
    proof {
        body@.index_of_last_ensures('"');
    }
    let close = match find_last(&body, '"') {
        Some(close) => close,
        None => {
            return Err(DecodeError::MissingThing);
        },
    };
    if !has_prefix(&body, &opening) || close < 8 {
        return Err(DecodeError::MissingThing);
    }
    let thing = slice(&body, 8, close);
    let rest = slice(&body, close + 1, body.len());
    let mut fields = FieldMap::new();
    fields.insert_chars(chars_of("thing"), thing);
    if rest.len() == 0 {
        return Ok(fields);
    }
    if rest[0] != ',' {
        return Err(DecodeError::MalformedField);
    }
    let pieces = split(&slice(&rest, 1, rest.len()), ',');
    match add_fields(&mut fields, &pieces) {
        Ok(_) => Ok(fields),
        Err(e) => Err(e),
    }
}

/// The task that the record `line` holds, where the local time zone gives a
/// deadline written out the offset `offset`.
pub fn decode_line_in_zone(line: &str, offset: Option<i32>) -> (task: Result<Task, DecodeError>)
    ensures
        outcome(task) == decoded(line@, offset),
        task matches Ok(t) ==> t.wf(),
{
    match fields_from_line(line) {
        Ok(mut fields) => parse_task_fields(&mut fields, offset),
        Err(e) => Err(e),
    }
}

/// The task that the record `line` holds. Whatever this machine's time zone
/// says of a deadline written out, the task is the one that the line holds
/// for some offset.
pub fn decode_line(line: &str) -> (task: Result<Task, DecodeError>)
    ensures
        exists|offset: Option<i32>| outcome(task) == #[trigger] decoded(line@, offset),
        task matches Ok(t) ==> t.wf(),
{
    match fields_from_line(line) {
        Ok(mut fields) => {
            let ghost held = fields@;
            let task = parse_task_from_file(&mut fields);
            proof {
                let offset = choose|offset: Option<i32>|
                    outcome(task) == #[trigger] task_of_fields(held, offset);
                assert(outcome(task) == decoded(line@, offset));
            }
            task
        },
        Err(e) => {
            assert(outcome(Err::<Task, DecodeError>(e)) == decoded(line@, None));
            Err(e)
        },
    }
}

// ---------------------------------------------------------------------------
// Writing, and reading a whole file

/// Whether every task of `tasks` is well formed.
pub fn all_well_formed(tasks: &Vec<Task>) -> (well: bool)
    ensures
        well == all_wf(tasks@),
{
    let mut i: usize = 0;
    while i < tasks.len()
        invariant
            i <= tasks@.len(),
            forall|k: int| 0 <= k < i ==> (#[trigger] tasks@[k]).wf(),
        decreases tasks.len() - i,
    {
        if !tasks[i].is_well_formed() {
            return false;
        }
        i += 1;
    }
    true
}

/// The line that holds `task`. Read again, it gives `task` back, where the
/// label holds no comma and no double quote and has no space at its ends.
pub fn record_of(task: &Task) -> (line: String)
    requires
        task.wf(),
    ensures
        line@ == record_text(task@),
        verbatim(task@.label) ==> forall|offset: Option<i32>|
            #[trigger] decoded(line@, offset) == Ok::<TaskView, DecodeError>(task@),
{
    let mut out: Vec<char> = Vec::new();
    append_str(&mut out, "Task { thing: ");
    out.push('"');
    append_str(&mut out, task.thing().as_str());
    out.push('"');
    append_str(&mut out, ", status: ");
    append_str(&mut out, task.status().to_record_text().as_str());
    append_str(&mut out, ", label: ");
    append_str(&mut out, task.label().as_str());
    append_str(&mut out, ", deadline: ");
    append_str(&mut out, task.deadline().date.to_rfc3339().as_str());
    append_str(&mut out, " }");
    proof {
        assert(out@ == record_text(task@));
        if verbatim(task@.label) {
            assert forall|offset: Option<i32>|
                #[trigger] decoded(out@, offset) == Ok::<TaskView, DecodeError>(task@) by {
                crate::roundtrip::lemma_record_is_read_back(task@, offset);
            }
        }
    }
    string_of(&out)
}

/// The text of the file that holds `tasks`; empty where there is none.
pub fn save_tasks(tasks: &Vec<Task>) -> (file: String)
    requires
        all_wf(tasks@),
    ensures
        file@ == file_text(tasks@),
        tasks@.len() == 0 ==> file@.len() == 0,
{
    let mut out: Vec<char> = Vec::new();
    let mut i: usize = 0;
    assert(tasks@.skip(0) == tasks@);
    while i < tasks.len()
        invariant
            i <= tasks@.len(),
            all_wf(tasks@),
            file_text(tasks@) == out@ + file_text(tasks@.skip(i as int)),
        decreases tasks.len() - i,
    {
        let ghost left = tasks@.skip(i as int);
        assert(left[0] == tasks@[i as int]);
        assert(left.drop_first() == tasks@.skip(i + 1));
        let line = record_of(&tasks[i]);
        append_str(&mut out, line.as_str());
        out.push('\n');
        i += 1;
    }
    string_of(&out)
}

/// Whether the line holds `task`, for some offset that the local time zone
/// may give a deadline written out.
pub open spec fn holds(line: Seq<char>, task: TaskView) -> bool {
    exists|offset: Option<i32>|
        #[trigger] decoded(line, offset) == Ok::<TaskView, DecodeError>(task)
}

/// Whether the line holds no task, for the reason `error` and for some
/// offset that the local time zone may give.
pub open spec fn refused(line: Seq<char>, error: DecodeError) -> bool {
    exists|offset: Option<i32>|
        #[trigger] decoded(line, offset) == Err::<TaskView, DecodeError>(error)
}

/// Whether `tasks` are what the lines `lines` hold, one task to a line.
pub open spec fn held_by(lines: Seq<Seq<char>>, tasks: Seq<Task>) -> bool {
    &&& tasks.len() == lines.len()
    &&& forall|i: int| 0 <= i < lines.len() ==> holds(#[trigger] lines[i], tasks[i]@)
}

/// Whether the line at `at` is the first of `lines` that holds no task, for
/// the reason `error`, after `before` tasks.
pub open spec fn fails_at(lines: Seq<Seq<char>>, at: int, error: DecodeError) -> bool {
    &&& 0 <= at < lines.len()
    &&& refused(lines[at], error)
    &&& exists|before: Seq<Task>| held_by(lines.take(at), before)
}

/// The tasks that the text of a file holds, one to each line that is not
/// empty. The first line that holds no task fails the whole file, for that
/// line's reason.
pub fn get_saved_tasks(file: &str) -> (tasks: Result<Vec<Task>, DecodeError>)
    ensures
        match tasks {
            Ok(found) => held_by(lines_of(file@), found@) && all_wf(found@),
            Err(error) => exists|at: int| fails_at(lines_of(file@), at, error),
        },
{
    let pieces = split(&chars_of(file), '\n');
    let mut found: Vec<Task> = Vec::new();
    let ghost mut read: Seq<Seq<char>> = Seq::empty();
    let mut i: usize = 0;
    assert(views_of(pieces@).skip(0) == views_of(pieces@));
    while i < pieces.len()
        invariant
            i <= pieces@.len(),
            views_of(pieces@) == split_on(file@, '\n'),
            lines_of(file@) == read + nonempty(views_of(pieces@).skip(i as int)),
            held_by(read, found@),
            all_wf(found@),
        decreases pieces.len() - i,
    {
        let piece = &pieces[i];
        let ghost left = views_of(pieces@).skip(i as int);
        assert(left[0] == piece@);
        assert(left.drop_first() == views_of(pieces@).skip(i + 1));
        if piece.len() > 0 {
            let line = string_of(piece);
            let task = decode_line(line.as_str());
            match task {
                Ok(task) => {
                    let ghost lines = read;
                    found.push(task);
                    proof {
                        read = read.push(piece@);
                        assert(read + nonempty(left.drop_first()) == lines + nonempty(
                            left,
                        ));
                        assert forall|k: int| 0 <= k < read.len() implies holds(
                            #[trigger] read[k],
                            found@[k]@,
                        ) by {
                            if k < lines.len() {
                                assert(holds(lines[k], found@[k]@));
                            }
                        }
                    }
                },
                Err(error) => {
                    proof {
                        let lines = lines_of(file@);
                        let at = read.len() as int;
                        assert(lines[at] == piece@);
                        assert(lines.take(at) == read);
                        assert(fails_at(lines, at, error));
                    }
                    return Err(error);
                },
            }
        }
        i += 1;
    }
    proof {
        assert(views_of(pieces@).skip(i as int).len() == 0);
        assert(lines_of(file@) == read);
    }
    Ok(found)
}

} // verus!
