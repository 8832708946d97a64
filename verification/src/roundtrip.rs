//! What is written is read back: the record of a task holds that task, and
//! the file of a row of tasks holds their records, line by line.

use crate::calendar::{
    is_stamp_char, lemma_rfc3339_text, lemma_stamp_of_its_text, rfc3339_text, stamp_of, Timestamp,
};
use crate::task::{is_label, TaskStatus, TaskView};
use crate::task::Task;
use crate::tasks_file_manager::{
    all_wf, closing_quote, decoded, fields_of, file_text, held_by, holds, lines_of, record_text,
    status_of, with_fields, DecodeError,
};
use crate::text::{
    nonempty, lemma_first_index, lemma_last_index, lemma_split_step, lemma_split_whole,
    lemma_trimmed_after_space, lowered, split_on, trimmed,
};
use vstd::prelude::*;

verus! {

/// Whether `c` stands nowhere in `s`.
pub open spec fn free_of(s: Seq<char>, c: char) -> bool {
    forall|i: int| 0 <= i < s.len() ==> s[i] != c
}

/// Whether a record gives `s` back as it is: `s` holds no double quote and
/// no comma, and neither starts nor ends with a space.
pub open spec fn verbatim(s: Seq<char>) -> bool {
    &&& free_of(s, '"')
    &&& free_of(s, ',')
    &&& s.len() > 0 ==> s[0] != ' ' && s.last() != ' '
}

/// Whether `s` is not empty, holds no double quote, comma or line feed, and
/// neither starts nor ends with a space.
pub open spec fn plain(s: Seq<char>) -> bool {
    &&& s.len() > 0
    &&& free_of(s, '"')
    &&& free_of(s, ',')
    &&& free_of(s, '\n')
    &&& s[0] != ' '
    &&& s.last() != ' '
}

/// What stands nowhere in two sequences stands nowhere in the two in a row.
pub proof fn lemma_free_of_both(a: Seq<char>, b: Seq<char>, c: char)
    requires
        free_of(a, c),
        free_of(b, c),
    ensures
        free_of(a + b, c),
        !(a + b).contains(c),
{
}

/// The RFC 3339 form of a valid timestamp is plain, and holds no bracket.
pub proof fn lemma_stamp_text_is_plain(at: Timestamp)
    requires
        at.valid(),
    ensures
        plain(rfc3339_text(at)),
        free_of(rfc3339_text(at), '('),
        free_of(rfc3339_text(at), ')'),
        rfc3339_text(at).len() == 25,
{
    lemma_rfc3339_text(at);
    let text = rfc3339_text(at);
    assert(is_stamp_char(text[0]));
    assert(is_stamp_char(text[24]));
}

/// The text of a valid status in a record is plain.
pub proof fn lemma_status_text_is_plain(status: TaskStatus)
    requires
        status.valid(),
    ensures
        plain(status.record_text()),
{
    reveal_strlit("Completed");
    reveal_strlit("Todo");
    reveal_strlit("Postponed(");
    reveal_strlit("Expired(");
    reveal_strlit("Aborted(");
    reveal_strlit(")");
    match status {
        TaskStatus::Postponed(at) | TaskStatus::Expired(at) | TaskStatus::Aborted(at) => {
            lemma_stamp_text_is_plain(at);
        },
        _ => {},
    }
}

/// A label of `Task` and a number is plain, and a record gives it back as it
/// is.
pub proof fn lemma_label_is_plain(label: Seq<char>)
    requires
        is_label(label),
    ensures
        plain(label),
        verbatim(label),
{
    reveal_strlit("Task ");
    let digits = label.skip(5);
    let head = label.take(5);
    assert(label.last() == digits.last());
    assert(label[0] == head[0]);
    assert forall|i: int| 0 <= i < label.len() implies label[i] != '"' && label[i] != ','
        && label[i] != '\n' by {
        if i < 5 {
            assert(label[i] == head[i]);
        } else {
            assert(label[i] == digits[i - 5]);
        }
    }
}

/// The text of a valid status in a record names that status.
pub proof fn lemma_status_of_its_text(status: TaskStatus)
    requires
        status.valid(),
    ensures
        status_of(status.record_text()) == Ok::<TaskStatus, DecodeError>(status),
{
    match status {
        TaskStatus::Completed => lemma_plain_status_of_its_text(),
        TaskStatus::Todo => lemma_plain_status_of_its_text(),
        TaskStatus::Postponed(at) => lemma_postponed_of_its_text(at),
        TaskStatus::Expired(at) => lemma_expired_of_its_text(at),
        TaskStatus::Aborted(at) => lemma_aborted_of_its_text(at),
    }
}

proof fn lemma_plain_status_of_its_text()
    ensures
        status_of("Completed"@) == Ok::<TaskStatus, DecodeError>(TaskStatus::Completed),
        status_of("Todo"@) == Ok::<TaskStatus, DecodeError>(TaskStatus::Todo),
{
    reveal_strlit("Completed");
    reveal_strlit("Todo");
    reveal_strlit("completed");
    reveal_strlit("todo");
    assert(lowered("Completed"@) == "completed"@);
    assert(lowered("Todo"@) == "todo"@);
}

proof fn lemma_postponed_of_its_text(at: Timestamp)
    requires
        at.valid(),
    ensures
        status_of(TaskStatus::Postponed(at).record_text()) == Ok::<TaskStatus, DecodeError>(
            TaskStatus::Postponed(at),
        ),
{
    reveal_strlit("completed");
    reveal_strlit("todo");
    reveal_strlit("postponed");
    reveal_strlit("Postponed(");
    reveal_strlit(")");
    let name = seq!['P', 'o', 's', 't', 'p', 'o', 'n', 'e', 'd'];
    let text = TaskStatus::Postponed(at).record_text();
    lemma_named_status(name, at);
    assert(text == name + seq!['('] + rfc3339_text(at) + seq![')']);
    assert(lowered(name) == "postponed"@);
    assert(lowered(text).len() == text.len());
}

proof fn lemma_expired_of_its_text(at: Timestamp)
    requires
        at.valid(),
    ensures
        status_of(TaskStatus::Expired(at).record_text()) == Ok::<TaskStatus, DecodeError>(
            TaskStatus::Expired(at),
        ),
{
    reveal_strlit("completed");
    reveal_strlit("todo");
    reveal_strlit("postponed");
    reveal_strlit("expired");
    reveal_strlit("Expired(");
    reveal_strlit(")");
    let name = seq!['E', 'x', 'p', 'i', 'r', 'e', 'd'];
    let text = TaskStatus::Expired(at).record_text();
    lemma_named_status(name, at);
    assert(text == name + seq!['('] + rfc3339_text(at) + seq![')']);
    assert(lowered(name) == "expired"@);
    assert(lowered(text).len() == text.len());
}

proof fn lemma_aborted_of_its_text(at: Timestamp)
    requires
        at.valid(),
    ensures
        status_of(TaskStatus::Aborted(at).record_text()) == Ok::<TaskStatus, DecodeError>(
            TaskStatus::Aborted(at),
        ),
{
    reveal_strlit("completed");
    reveal_strlit("todo");
    reveal_strlit("postponed");
    reveal_strlit("expired");
    reveal_strlit("aborted");
    reveal_strlit("Aborted(");
    reveal_strlit(")");
    let name = seq!['A', 'b', 'o', 'r', 't', 'e', 'd'];
    let text = TaskStatus::Aborted(at).record_text();
    lemma_named_status(name, at);
    assert(text == name + seq!['('] + rfc3339_text(at) + seq![')']);
    assert(lowered(name) == "aborted"@);
    assert("aborted"@[0] != "expired"@[0]);
    assert(lowered(text).len() == text.len());
}

/// How a name, a bracket, a timestamp and a closing bracket in a row come
/// apart again.
proof fn lemma_named_status(name: Seq<char>, at: Timestamp)
    requires
        at.valid(),
        free_of(name, '('),
        name.len() <= 9,
    ensures
        ({
            let text = name + seq!['('] + rfc3339_text(at) + seq![')'];
            &&& text.index_of_first('(') == Some(name.len() as int)
            &&& text.last() == ')'
            &&& text.take(name.len() as int) == name
            &&& text.subrange(name.len() as int + 1, text.len() - 1) == rfc3339_text(at)
            &&& stamp_of(rfc3339_text(at)) == Some(at)
            &&& text.len() > 9
        }),
{
    let text = name + seq!['('] + rfc3339_text(at) + seq![')'];
    lemma_rfc3339_text(at);
    lemma_stamp_of_its_text(at);
    assert(text[name.len() as int] == '(');
    assert forall|k: int| 0 <= k < name.len() implies text[k] != '(' by {
        assert(text[k] == name[k]);
    }
    lemma_first_index(text, '(', name.len() as int);
}

/// A space, a name, a colon, a space and a value in a row come apart, at
/// the first colon, into the name and the value.
proof fn lemma_piece(name: Seq<char>, value: Seq<char>)
    requires
        name.len() > 0,
        free_of(name, ':'),
        name[0] != ' ',
        name.last() != ' ',
        verbatim(value),
    ensures
        ({
            let piece = seq![' '] + name + seq![':', ' '] + value;
            &&& piece.index_of_first(':') == Some(name.len() as int + 1)
            &&& trimmed(piece.take(name.len() as int + 1)) == name
            &&& trimmed(piece.skip(name.len() as int + 2)) == value
            &&& free_of(piece, ',') <==> free_of(name, ',')
        }),
{
    let piece = seq![' '] + name + seq![':', ' '] + value;
    let colon: int = name.len() as int + 1;
    assert(piece[colon] == ':');
    assert forall|k: int| 0 <= k < colon implies piece[k] != ':' by {
        if k > 0 {
            assert(piece[k] == name[k - 1]);
        }
    }
    lemma_first_index(piece, ':', colon);
    assert(piece.take(colon) == seq![' '] + name);
    lemma_trimmed_after_space(name);
    assert(piece.skip(colon + 1) == seq![' '] + value);
    lemma_trimmed_after_space(value);
    if free_of(name, ',') {
        assert forall|k: int| 0 <= k < piece.len() implies piece[k] != ',' by {
            if 1 <= k < colon {
                assert(piece[k] == name[k - 1]);
            } else if k >= colon + 2 {
                assert(piece[k] == value[k - colon - 2]);
            }
        }
    }
    if free_of(piece, ',') {
        assert forall|k: int| 0 <= k < name.len() implies name[k] != ',' by {
            assert(piece[k + 1] == name[k]);
        }
    }
}

/// What follows the description in a record comes apart into the status, the
/// label and the deadline.
proof fn lemma_tail_fields(
    first: Map<Seq<char>, Seq<char>>,
    status: Seq<char>,
    label: Seq<char>,
    deadline: Seq<char>,
)
    requires
        verbatim(status),
        verbatim(label),
        verbatim(deadline),
    ensures
        with_fields(
            first,
            split_on(
                " status: "@ + status + ", label: "@ + label + ", deadline: "@ + deadline,
                ',',
            ),
        ) == Ok::<Map<Seq<char>, Seq<char>>, DecodeError>(
            first.insert("status"@, status).insert("label"@, label).insert("deadline"@, deadline),
        ),
{
    reveal_strlit(" status: ");
    reveal_strlit(", label: ");
    reveal_strlit(", deadline: ");
    reveal_strlit("status");
    reveal_strlit("label");
    reveal_strlit("deadline");
    let tail = " status: "@ + status + ", label: "@ + label + ", deadline: "@ + deadline;
    let head = seq![' '] + "status"@ + seq![':', ' '] + status;
    let middle = seq![' '] + "label"@ + seq![':', ' '] + label;
    let last = seq![' '] + "deadline"@ + seq![':', ' '] + deadline;
    lemma_piece("status"@, status);
    lemma_piece("label"@, label);
    lemma_piece("deadline"@, deadline);
    assert(tail == head + seq![','] + (middle + seq![','] + last));
    lemma_split_whole(last, ',');
    lemma_split_step(middle, ',', last);
    lemma_split_step(head, ',', middle + seq![','] + last);
    let pieces = split_on(tail, ',');
    assert(pieces == seq![head, middle, last]);
    reveal_with_fuel(with_fields, 4);
    assert(pieces.drop_first()[0] == middle);
    assert(pieces.drop_first().drop_first()[0] == last);
    assert(pieces.drop_first().drop_first().drop_first().len() == 0);
}

/// What follows the description in the record of a well-formed task.
pub open spec fn tail_text(task: TaskView) -> Seq<char> {
    " status: "@ + task.status.record_text() + ", label: "@ + task.label + ", deadline: "@
        + rfc3339_text(task.deadline.date)
}

/// What follows the description in the record of a well-formed task holds
/// no double quote.
proof fn lemma_tail_has_no_quote(task: TaskView)
    requires
        task.wf(),
        verbatim(task.label),
    ensures
        free_of(tail_text(task), '"'),
{
    reveal_strlit(" status: ");
    reveal_strlit(", label: ");
    reveal_strlit(", deadline: ");
    lemma_status_text_is_plain(task.status);
    lemma_stamp_text_is_plain(task.deadline.date);
    let a = " status: "@ + task.status.record_text();
    lemma_free_of_both(" status: "@, task.status.record_text(), '"');
    let b = a + ", label: "@;
    lemma_free_of_both(a, ", label: "@, '"');
    let c = b + task.label;
    lemma_free_of_both(b, task.label, '"');
    let d = c + ", deadline: "@;
    lemma_free_of_both(c, ", deadline: "@, '"');
    lemma_free_of_both(d, rfc3339_text(task.deadline.date), '"');
}

/// `thing: `, a description between double quotes, a comma and a tail
/// without double quotes in a row: the description ends at the last quote.
proof fn lemma_closing_quote(thing: Seq<char>, tail: Seq<char>)
    requires
        free_of(tail, '"'),
    ensures
        ({
            let body = "thing: "@ + seq!['"'] + thing + seq!['"'] + seq![','] + tail;
            &&& closing_quote(body) == Some(8 + thing.len() as int)
            &&& body.subrange(8, 8 + thing.len() as int) == thing
            &&& body.skip(9 + thing.len() as int) == seq![','] + tail
        }),
{
    reveal_strlit("thing: ");
    let opening = "thing: "@ + seq!['"'];
    let body = opening + thing + seq!['"'] + seq![','] + tail;
    let close: int = 8 + thing.len() as int;
    assert(body[close] == '"');
    assert forall|k: int| close < k < body.len() implies body[k] != '"' by {
        if k > close + 1 {
            assert(body[k] == tail[k - close - 2]);
        }
    }
    lemma_last_index(body, '"', close);
    assert(opening.is_prefix_of(body)) by {
        assert(body.subrange(0, 8) == opening);
    }
}

/// The record of a task is `Task { `, a body and ` }` in a row.
proof fn lemma_record_body(task: TaskView)
    ensures
        ({
            let line = record_text(task);
            let body = "thing: "@ + seq!['"'] + task.thing + seq!['"'] + seq![','] + tail_text(
                task,
            );
            &&& line.len() >= 9
            &&& "Task { "@.is_prefix_of(line)
            &&& " }"@.is_suffix_of(line)
            &&& line.subrange(7, line.len() - 2) == body
        }),
{
    reveal_strlit("Task { thing: ");
    reveal_strlit("Task { ");
    reveal_strlit("thing: ");
    reveal_strlit(", status: ");
    reveal_strlit(" status: ");
    reveal_strlit(" }");
    let line = record_text(task);
    let body = "thing: "@ + seq!['"'] + task.thing + seq!['"'] + seq![','] + tail_text(task);
    assert(line == "Task { "@ + body + " }"@);
    assert(line.subrange(7, line.len() - 2) == body);
    assert(line.subrange(line.len() - 2, line.len() as int) == " }"@);
    assert(line.subrange(0, 7) == "Task { "@);
}

/// The record of a well-formed task whose label a record gives back as it is
/// comes apart into its four fields.
pub proof fn lemma_fields_of_record(task: TaskView)
    requires
        task.wf(),
        verbatim(task.label),
    ensures
        fields_of(record_text(task)) == Ok::<Map<Seq<char>, Seq<char>>, DecodeError>(
            Map::<Seq<char>, Seq<char>>::empty().insert("thing"@, task.thing).insert(
                "status"@,
                task.status.record_text(),
            ).insert("label"@, task.label).insert(
                "deadline"@,
                rfc3339_text(task.deadline.date),
            ),
        ),
{
    let tail = tail_text(task);
    lemma_record_body(task);
    lemma_tail_has_no_quote(task);
    lemma_closing_quote(task.thing, tail);
    lemma_status_text_is_plain(task.status);
    lemma_stamp_text_is_plain(task.deadline.date);
    lemma_tail_fields(
        Map::<Seq<char>, Seq<char>>::empty().insert("thing"@, task.thing),
        task.status.record_text(),
        task.label,
        rfc3339_text(task.deadline.date),
    );
    let line = record_text(task);
    let body = line.subrange(7, line.len() - 2);
    let close: int = 8 + task.thing.len() as int;
    let rest = body.skip(close + 1);
    assert(rest == seq![','] + tail);
    assert(rest.skip(1) == tail);
    assert(rest[0] == ',');
}

/// Reading inverts writing: the record of a well-formed task holds exactly
/// that task, whatever the description holds and whatever the local time
/// zone says. The label is given back as it is where it holds no comma and
/// no double quote and has no space at its ends, as every label of `Task`
/// and a number does.
pub proof fn lemma_record_is_read_back(task: TaskView, offset: Option<i32>)
    requires
        task.wf(),
        verbatim(task.label),
    ensures
        decoded(record_text(task), offset) == Ok::<TaskView, DecodeError>(task),
{
    lemma_fields_of_record(task);
    crate::tasks_file_manager::lemma_names_differ();
    lemma_status_of_its_text(task.status);
    lemma_stamp_of_its_text(task.deadline.date);
    let fields = fields_of(record_text(task))->Ok_0;
    assert(fields["thing"@] == task.thing);
    assert(fields["status"@] == task.status.record_text());
    assert(fields["label"@] == task.label);
    assert(fields["deadline"@] == rfc3339_text(task.deadline.date));
}

/// Reading inverts writing for every well-formed task whose label is `Task`
/// and a positive number, as the labels of all tasks that are added here
/// are.
pub proof fn lemma_labelled_record_is_read_back(task: TaskView, offset: Option<i32>)
    requires
        task.wf(),
        is_label(task.label),
    ensures
        decoded(record_text(task), offset) == Ok::<TaskView, DecodeError>(task),
{
    lemma_label_is_plain(task.label);
    lemma_record_is_read_back(task, offset);
}

/// The record of a well-formed task whose description holds no line feed
/// holds none, and is not empty.
pub proof fn lemma_record_is_one_line(task: TaskView)
    requires
        task.wf(),
        free_of(task.thing, '\n'),
        free_of(task.label, '\n'),
    ensures
        free_of(record_text(task), '\n'),
        record_text(task).len() > 0,
{
    reveal_strlit("Task { thing: ");
    reveal_strlit(", status: ");
    reveal_strlit(", label: ");
    reveal_strlit(", deadline: ");
    reveal_strlit(" }");
    lemma_status_text_is_plain(task.status);
    lemma_stamp_text_is_plain(task.deadline.date);
    let quote = seq!['"'];
    let a = "Task { thing: "@ + quote;
    lemma_free_of_both("Task { thing: "@, quote, '\n');
    let b = a + task.thing;
    lemma_free_of_both(a, task.thing, '\n');
    let c = b + quote;
    lemma_free_of_both(b, quote, '\n');
    let d = c + ", status: "@;
    lemma_free_of_both(c, ", status: "@, '\n');
    let e = d + task.status.record_text();
    lemma_free_of_both(d, task.status.record_text(), '\n');
    let f = e + ", label: "@;
    lemma_free_of_both(e, ", label: "@, '\n');
    let g = f + task.label;
    lemma_free_of_both(f, task.label, '\n');
    let h = g + ", deadline: "@;
    lemma_free_of_both(g, ", deadline: "@, '\n');
    let i = h + rfc3339_text(task.deadline.date);
    lemma_free_of_both(h, rfc3339_text(task.deadline.date), '\n');
    lemma_free_of_both(i, " }"@, '\n');
}

/// The records of `tasks`, in order.
pub open spec fn records_of(tasks: Seq<Task>) -> Seq<Seq<char>> {
    Seq::new(tasks.len(), |i: int| record_text(tasks[i]@))
}

/// Whether no description and no label among `tasks` holds a line feed, and
/// a record gives each label back as it is.
pub open spec fn one_line_each(tasks: Seq<Task>) -> bool {
    forall|i: int|
        0 <= i < tasks.len() ==> free_of((#[trigger] tasks[i])@.thing, '\n') && free_of(
            tasks[i]@.label,
            '\n',
        ) && verbatim(tasks[i]@.label)
}

/// The lines of the file of well-formed tasks, none of whose descriptions
/// holds a line feed, are the records of those tasks.
pub proof fn lemma_lines_of_file(tasks: Seq<Task>)
    requires
        all_wf(tasks),
        one_line_each(tasks),
    ensures
        lines_of(file_text(tasks)) == records_of(tasks),
    decreases tasks.len(),
{
    if tasks.len() == 0 {
        let none = Seq::<char>::empty();
        lemma_split_whole(none, '\n');
        assert(nonempty(seq![none]) == Seq::<Seq<char>>::empty()) by {
            reveal_with_fuel(nonempty, 2);
            assert(seq![none].drop_first().len() == 0);
        }
        assert(records_of(tasks) == Seq::<Seq<char>>::empty());
    } else {
        let line = record_text(tasks[0]@);
        let rest = tasks.drop_first();
        assert(tasks[0].wf());
        lemma_record_is_one_line(tasks[0]@);
        assert(all_wf(rest)) by {
            assert forall|i: int| 0 <= i < rest.len() implies (#[trigger] rest[i]).wf() by {
                assert(rest[i] == tasks[i + 1]);
            }
        }
        assert(one_line_each(rest)) by {
            assert forall|i: int| 0 <= i < rest.len() implies free_of(
                (#[trigger] rest[i])@.thing,
                '\n',
            ) && free_of(rest[i]@.label, '\n') && verbatim(rest[i]@.label) by {
                assert(rest[i] == tasks[i + 1]);
            }
        }
        lemma_lines_of_file(rest);
        lemma_free_of_both(line, Seq::<char>::empty(), '\n');
        assert(line + Seq::<char>::empty() == line);
        lemma_split_step(line, '\n', file_text(rest));
        let pieces = split_on(file_text(tasks), '\n');
        assert(pieces == seq![line] + split_on(file_text(rest), '\n'));
        assert(pieces[0] == line);
        assert(pieces.drop_first() == split_on(file_text(rest), '\n'));
        assert(records_of(tasks) == seq![line] + records_of(rest)) by {
            assert forall|i: int| 0 <= i < tasks.len() implies records_of(tasks)[i] == (seq![line]
                + records_of(rest))[i] by {
                if i > 0 {
                    assert(rest[i - 1] == tasks[i]);
                }
            }
        }
    }
}

/// The file that is written for well-formed tasks, none of whose
/// descriptions holds a line feed, holds exactly those tasks, line by line.
pub proof fn lemma_file_is_read_back(tasks: Seq<Task>)
    requires
        all_wf(tasks),
        one_line_each(tasks),
    ensures
        held_by(lines_of(file_text(tasks)), tasks),
{
    lemma_lines_of_file(tasks);
    let lines = lines_of(file_text(tasks));
    assert forall|i: int| 0 <= i < lines.len() implies holds(#[trigger] lines[i], tasks[i]@) by {
        assert(tasks[i].wf());
        lemma_record_is_read_back(tasks[i]@, None);
    }
}

/// Whatever a line holds, a task that is read from it is well formed.
pub proof fn lemma_what_is_read_is_well_formed(line: Seq<char>, offset: Option<i32>)
    ensures
        decoded(line, offset) matches Ok(task) ==> task.wf(),
{
    if let Ok(fields) = fields_of(line) {
        let status = fields["status"@];
        if let Some(open) = status.index_of_first('(') {
            if 0 <= open < status.len() {
                lemma_stamp_is_valid(status.subrange(open + 1, status.len() - 1));
            }
        }
        lemma_stamp_is_valid(fields["deadline"@]);
    }
}

/// A timestamp that is read from a text is valid.
pub proof fn lemma_stamp_is_valid(text: Seq<char>)
    ensures
        stamp_of(text) matches Some(at) ==> at.valid(),
{
}

} // verus!
