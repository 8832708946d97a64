//! The one line that each error shows to the user.

use crate::cli_manager::ShowError;
use crate::resolver::DateError;
use crate::store::TaskError;
use crate::tasks_file_manager::DecodeError;
use crate::text::{append_str, chars_of, string_of};
use crate::utils::ImportError;
use vstd::prelude::*;

verus! {

/// The formats in which a date can be written.
pub open spec fn formats_text() -> Seq<char> {
    " Formats: 10/06/2023 12:30 | 10/06/2023 | tomorrow 12:30 | today 12:30 | tomorrow | today | 12:30"@
}

/// What is wrong with a date.
pub open spec fn date_fault_text(error: DateError) -> Seq<char> {
    match error {
        DateError::MissingValue => "A date is missing."@,
        DateError::NonNumericComponent => "A part of the date is not a number."@,
        DateError::UnparsableNumber => "A number of the date is empty or too large."@,
        DateError::InvalidFormat => "The date is in no valid format."@,
    }
}

/// The line for an error of a date: what is wrong, and the formats that are
/// accepted.
pub open spec fn date_error_text(error: DateError) -> Seq<char> {
    date_fault_text(error) + formats_text()
}

/// The line for a record that holds no task.
pub open spec fn decode_error_text(error: DecodeError) -> Seq<char> {
    match error {
        DecodeError::MissingMarker => "A line of the tasks file does not start with 'Task { ' and end with ' }'"@,
        DecodeError::MissingThing => "A line of the tasks file has no description between double quotes after 'thing: '"@,
        DecodeError::MalformedField => "A line of the tasks file has a field without a name, a colon and a value"@,
        DecodeError::MissingField => "A line of the tasks file lacks one of thing, status, label and deadline"@,
        DecodeError::UnknownStatus => "A status is none of Completed, Todo, Postponed(date), Expired(date) and Aborted(date)"@,
        DecodeError::InvalidTimestamp => "A date is no valid RFC 3339 timestamp such as 2023-06-10T12:30:00+02:00"@,
    }
}

/// The line for a change that was not made.
pub open spec fn task_error_text(error: TaskError) -> Seq<char> {
    match error {
        TaskError::Parse(e) => date_error_text(e),
        TaskError::NotFound => "Could not find a task with this label"@,
        TaskError::ImmutableState => "Cannot edit a task whose status is Aborted or Expired"@,
        TaskError::EmptyDescription => "Task thing cannot be empty"@,
        TaskError::UnknownField => "No such field to edit: use thing or status"@,
        TaskError::UnknownStatus => "No such status available: use completed, todo, aborted or postponed and a date"@,
        TaskError::LabelsExhausted => "Every task number is in use"@,
    }
}

/// The line for a request to show tasks that cannot be met.
pub open spec fn show_error_text(error: ShowError) -> Seq<char> {
    match error {
        ShowError::MissingArguments => "This switch requires additional arguments"@,
        ShowError::UnexpectedArguments => "This switch does not take any additional arguments"@,
        ShowError::UnknownSwitch => "No such switch: use --thing, --status, --deadline or --date"@,
        ShowError::Date(e) => date_error_text(e),
    }
}

/// The line for tasks that were not taken in.
pub open spec fn import_error_text(error: ImportError) -> Seq<char> {
    match error {
        ImportError::Decode(e) => decode_error_text(e),
        ImportError::LabelsExhausted => "Every task number is in use"@,
    }
}

/// Whether `text` is one line: not empty, and without a line feed.
pub open spec fn one_line(text: Seq<char>) -> bool {
    text.len() > 0 && !text.contains('\n')
}

/// The line for an error of a date is one line, and names the formats.
pub proof fn lemma_date_error_text_is_one_line(error: DateError)
    ensures
        one_line(date_error_text(error)),
{
    reveal_strlit("A date is missing.");
    reveal_strlit("A part of the date is not a number.");
    reveal_strlit("A number of the date is empty or too large.");
    reveal_strlit("The date is in no valid format.");
    reveal_strlit(" Formats: 10/06/2023 12:30 | 10/06/2023 | tomorrow 12:30 | today 12:30 | tomorrow | today | 12:30");
    let fault = date_fault_text(error);
    let text = date_error_text(error);
    assert forall|i: int| 0 <= i < text.len() implies text[i] != '\n' by {
        if i < fault.len() {
            assert(text[i] == fault[i]);
        } else {
            assert(text[i] == formats_text()[i - fault.len()]);
        }
    }
}

/// The line for a record that holds no task is one line.
pub proof fn lemma_decode_error_text_is_one_line(error: DecodeError)
    ensures
        one_line(decode_error_text(error)),
{
    reveal_strlit("A line of the tasks file does not start with 'Task { ' and end with ' }'");
    reveal_strlit("A line of the tasks file has no description between double quotes after 'thing: '");
    reveal_strlit("A line of the tasks file has a field without a name, a colon and a value");
    reveal_strlit("A line of the tasks file lacks one of thing, status, label and deadline");
    reveal_strlit("A status is none of Completed, Todo, Postponed(date), Expired(date) and Aborted(date)");
    reveal_strlit("A date is no valid RFC 3339 timestamp such as 2023-06-10T12:30:00+02:00");
}

/// The line for a change that was not made is one line.
pub proof fn lemma_task_error_text_is_one_line(error: TaskError)
    ensures
        one_line(task_error_text(error)),
{
    reveal_strlit("Could not find a task with this label");
    reveal_strlit("Cannot edit a task whose status is Aborted or Expired");
    reveal_strlit("Task thing cannot be empty");
    reveal_strlit("No such field to edit: use thing or status");
    reveal_strlit("No such status available: use completed, todo, aborted or postponed and a date");
    reveal_strlit("Every task number is in use");
    if let TaskError::Parse(e) = error {
        lemma_date_error_text_is_one_line(e);
    }
}

/// The line for a request to show tasks that cannot be met is one line.
pub proof fn lemma_show_error_text_is_one_line(error: ShowError)
    ensures
        one_line(show_error_text(error)),
{
    reveal_strlit("This switch requires additional arguments");
    reveal_strlit("This switch does not take any additional arguments");
    reveal_strlit("No such switch: use --thing, --status, --deadline or --date");
    if let ShowError::Date(e) = error {
        lemma_date_error_text_is_one_line(e);
    }
}

/// The line for tasks that were not taken in is one line.
pub proof fn lemma_import_error_text_is_one_line(error: ImportError)
    ensures
        one_line(import_error_text(error)),
{
    reveal_strlit("Every task number is in use");
    if let ImportError::Decode(e) = error {
        lemma_decode_error_text_is_one_line(e);
    }
}

impl DateError {
    /// The line that shows the error to the user, with the formats that are
    /// accepted.
    pub fn message(&self) -> (text: String)
        ensures
            text@ == date_error_text(*self),
            one_line(text@),
    {
        let fault = match self {
            DateError::MissingValue => "A date is missing.",
            DateError::NonNumericComponent => "A part of the date is not a number.",
            DateError::UnparsableNumber => "A number of the date is empty or too large.",
            DateError::InvalidFormat => "The date is in no valid format.",
        };
        let mut line = chars_of(fault);
        append_str(
            &mut line,
            " Formats: 10/06/2023 12:30 | 10/06/2023 | tomorrow 12:30 | today 12:30 | tomorrow | today | 12:30",
        );
        proof {
            lemma_date_error_text_is_one_line(*self);
        }
        string_of(&line)
    }
}

impl DecodeError {
    /// The line that shows the error to the user.
    pub fn message(&self) -> (text: String)
        ensures
            text@ == decode_error_text(*self),
            one_line(text@),
    {
        let line = match self {
            DecodeError::MissingMarker => "A line of the tasks file does not start with 'Task { ' and end with ' }'",
            DecodeError::MissingThing => "A line of the tasks file has no description between double quotes after 'thing: '",
            DecodeError::MalformedField => "A line of the tasks file has a field without a name, a colon and a value",
            DecodeError::MissingField => "A line of the tasks file lacks one of thing, status, label and deadline",
            DecodeError::UnknownStatus => "A status is none of Completed, Todo, Postponed(date), Expired(date) and Aborted(date)",
            DecodeError::InvalidTimestamp => "A date is no valid RFC 3339 timestamp such as 2023-06-10T12:30:00+02:00",
        };
        proof {
            lemma_decode_error_text_is_one_line(*self);
        }
        string_of(&chars_of(line))
    }
}

impl TaskError {
    /// The line that shows the error to the user.
    pub fn message(&self) -> (text: String)
        ensures
            text@ == task_error_text(*self),
            one_line(text@),
    {
        proof {
            lemma_task_error_text_is_one_line(*self);
        }
        let line = match self {
            TaskError::Parse(e) => {
                return e.message();
            },
            TaskError::NotFound => "Could not find a task with this label",
            TaskError::ImmutableState => "Cannot edit a task whose status is Aborted or Expired",
            TaskError::EmptyDescription => "Task thing cannot be empty",
            TaskError::UnknownField => "No such field to edit: use thing or status",
            TaskError::UnknownStatus => "No such status available: use completed, todo, aborted or postponed and a date",
            TaskError::LabelsExhausted => "Every task number is in use",
        };
        string_of(&chars_of(line))
    }
}

impl ShowError {
    /// The line that shows the error to the user.
    pub fn message(&self) -> (text: String)
        ensures
            text@ == show_error_text(*self),
            one_line(text@),
    {
        proof {
            lemma_show_error_text_is_one_line(*self);
        }
        let line = match self {
            ShowError::MissingArguments => "This switch requires additional arguments",
            ShowError::UnexpectedArguments => "This switch does not take any additional arguments",
            ShowError::UnknownSwitch => "No such switch: use --thing, --status, --deadline or --date",
            ShowError::Date(e) => {
                return e.message();
            },
        };
        string_of(&chars_of(line))
    }
}

impl ImportError {
    /// The line that shows the error to the user.
    pub fn message(&self) -> (text: String)
        ensures
            text@ == import_error_text(*self),
            one_line(text@),
    {
        proof {
            lemma_import_error_text_is_one_line(*self);
        }
        match self {
            ImportError::Decode(e) => e.message(),
            ImportError::LabelsExhausted => string_of(&chars_of("Every task number is in use")),
        }
    }
}

} // verus!
