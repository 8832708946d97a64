//! Tasks: a description, a status, a deadline and a label. A task that is
//! added gets the label `Task <N>`; a task that is read keeps the label that
//! its record gives it.

use crate::calendar::{rfc3339_of, rfc3339_text, user_text, CivilTime, Timestamp};
use crate::resolver::{epoch_start, resolve, resolved, DateError};
use crate::text::{
    all_digits, append_str, chars_of, decimal_text, decimal_value, is_all_digits,
    lemma_decimal_text, parse_decimal, push_decimal, slice, string_of,
};
use vstd::prelude::*;

verus! {

/// The label of the task numbered `number`: `Task`, a space, and the number
/// in its shortest decimal form.
pub open spec fn label_text(number: nat) -> Seq<char> {
    "Task "@ + decimal_text(number)
}

/// Whether `label` is the label of a task: `Task`, a space, and a positive
/// number below 2^64 in its shortest decimal form.
pub open spec fn is_label(label: Seq<char>) -> bool {
    &&& label.len() > 5
    &&& label.take(5) == "Task "@
    &&& all_digits(label.skip(5))
    &&& label[5] != '0'
    &&& decimal_value(label.skip(5)) <= u64::MAX
}

/// The number that a label carries.
pub open spec fn label_number(label: Seq<char>) -> nat {
    decimal_value(label.skip(5))
}

/// A positive number's label is a label, and carries that number.
pub proof fn lemma_label_of_number(number: nat)
    requires
        1 <= number <= u64::MAX,
    ensures
        is_label(label_text(number)),
        label_number(label_text(number)) == number,
{
    reveal_strlit("Task ");
    lemma_decimal_text(number);
    let label = label_text(number);
    assert(label.skip(5) == decimal_text(number));
    assert(label.take(5) == "Task "@);
    assert(label[5] == decimal_text(number)[0]);
}

/// The state of a task. A postponed task carries the moment it was put off
/// to, an expired one the moment it expired, an aborted one the moment it was
/// given up. A task starts as `Todo`; it expires only where its record says
/// so, never by the passing of its deadline.
#[derive(Clone, Copy, Debug, PartialEq, Eq, Structural)]
pub enum TaskStatus {
    Completed,
    Todo,
    Postponed(Timestamp),
    Expired(Timestamp),
    Aborted(Timestamp),
}

impl TaskStatus {
    /// The moment that the status carries, if it carries one, is valid.
    pub open spec fn valid(self) -> bool {
        match self {
            TaskStatus::Postponed(at) | TaskStatus::Expired(at) | TaskStatus::Aborted(at) => {
                at.valid()
            },
            _ => true,
        }
    }

    /// Whether a task in this status can no longer be edited: it has expired
    /// or was aborted.
    pub open spec fn closed(self) -> bool {
        self is Expired || self is Aborted
    }

    /// The status as a record holds it: its name, and in brackets the moment
    /// it carries, in RFC 3339 form.
    pub open spec fn record_text(self) -> Seq<char> {
        match self {
            TaskStatus::Completed => "Completed"@,
            TaskStatus::Todo => "Todo"@,
            TaskStatus::Postponed(at) => "Postponed("@ + rfc3339_text(at) + ")"@,
            TaskStatus::Expired(at) => "Expired("@ + rfc3339_text(at) + ")"@,
            TaskStatus::Aborted(at) => "Aborted("@ + rfc3339_text(at) + ")"@,
        }
    }

    /// The status as it is shown: its name, and in brackets the moment it
    /// carries, as `DD/MM/YYYY HH:MM`.
    pub open spec fn shown_text(self) -> Seq<char> {
        match self {
            TaskStatus::Completed => "Completed"@,
            TaskStatus::Todo => "Todo"@,
            TaskStatus::Postponed(at) => "Postponed("@ + user_text(at.local) + ")"@,
            TaskStatus::Expired(at) => "Expired("@ + user_text(at.local) + ")"@,
            TaskStatus::Aborted(at) => "Aborted("@ + user_text(at.local) + ")"@,
        }
    }

    /// Whether a task in this status can no longer be edited.
    pub fn is_closed(&self) -> (closed: bool)
        ensures
            closed == self.closed(),
    {
        match self {
            TaskStatus::Expired(_) | TaskStatus::Aborted(_) => true,
            _ => false,
        }
    }

    /// The status as a record holds it.
    pub fn to_record_text(&self) -> (text: String)
        requires
            self.valid(),
        ensures
            text@ == self.record_text(),
    {
        let mut out: Vec<char> = Vec::new();
        match self {
            TaskStatus::Completed => append_str(&mut out, "Completed"),
            TaskStatus::Todo => append_str(&mut out, "Todo"),
            TaskStatus::Postponed(at) => {
                append_str(&mut out, "Postponed(");
                append_str(&mut out, rfc3339_of(at).as_str());
                append_str(&mut out, ")");
            },
            TaskStatus::Expired(at) => {
                append_str(&mut out, "Expired(");
                append_str(&mut out, rfc3339_of(at).as_str());
                append_str(&mut out, ")");
            },
            TaskStatus::Aborted(at) => {
                append_str(&mut out, "Aborted(");
                append_str(&mut out, rfc3339_of(at).as_str());
                append_str(&mut out, ")");
            },
        }
        string_of(&out)
    }

    /// The status as it is shown.
    pub fn to_string(&self) -> (text: String)
        requires
            self.valid(),
        ensures
            text@ == self.shown_text(),
    {
        let mut out: Vec<char> = Vec::new();
        match self {
            TaskStatus::Completed => append_str(&mut out, "Completed"),
            TaskStatus::Todo => append_str(&mut out, "Todo"),
            TaskStatus::Postponed(at) => {
                append_str(&mut out, "Postponed(");
                append_str(&mut out, at.date_user_formating().as_str());
                append_str(&mut out, ")");
            },
            TaskStatus::Expired(at) => {
                append_str(&mut out, "Expired(");
                append_str(&mut out, at.date_user_formating().as_str());
                append_str(&mut out, ")");
            },
            TaskStatus::Aborted(at) => {
                append_str(&mut out, "Aborted(");
                append_str(&mut out, at.date_user_formating().as_str());
                append_str(&mut out, ")");
            },
        }
        string_of(&out)
    }
}

/// The moment by which a task is to be done.
#[derive(Clone, Copy, Debug, PartialEq, Eq, Structural)]
pub struct Deadline {
    pub date: Timestamp,
}

impl Deadline {
    /// The deadline that `input` names when read against `reference`, in
    /// this machine's time zone.
    pub fn against(input: &str, reference: &Timestamp) -> (deadline: Result<Deadline, DateError>)
        requires
            reference.valid(),
        ensures
            match resolved(input@, reference.local) {
                Err(e) => deadline == Err::<Deadline, DateError>(e),
                Ok(moment) => deadline == Err::<Deadline, DateError>(DateError::InvalidFormat) || (
                deadline matches Ok(d) && d.date.valid() && d.date.local == moment),
            },
    {
        match Timestamp::parse_formated_string_to_datetime(input, reference) {
            Ok(date) => Ok(Deadline { date }),
            Err(e) => Err(e),
        }
    }

    /// The deadline that `input` names when read against the present moment.
    /// Whatever the clock and the time zone say, a deadline that comes back
    /// is what the input resolves to against some valid reference, and so is
    /// an error other than that of an invalid format; and an error that the
    /// input gives against every reference is the one that comes back.
    pub fn new(input: &str) -> (deadline: Result<Deadline, DateError>)
        ensures
            read_against_a_clock(input@, deadline),
    {
        match Timestamp::date_now() {
            Some(now) => {
                let deadline = Deadline::against(input, &now);
                proof {
                    assert(resolved(input@, now.local) == resolved(input@, now.local));
                    assert forall|e: DateError| #[trigger]
                        always_fails_with(input@, e) implies deadline == Err::<
                        Deadline,
                        DateError,
                    >(e) by {
                        assert(resolved(input@, now.local) == Err::<CivilTime, DateError>(e));
                    }
                }
                deadline
            },
            None => {
                let start = epoch_start();
                let ghost first = Timestamp { local: start, offset: 0 };
                assert(first.valid());
                match resolve(input, &start) {
                    Err(e) => {
                        proof {
                            assert(resolved(input@, first.local) == Err::<CivilTime, DateError>(
                                e,
                            ));
                            assert forall|other: DateError| #[trigger]
                                always_fails_with(input@, other) implies other == e by {
                                assert(resolved(input@, first.local) == Err::<
                                    CivilTime,
                                    DateError,
                                >(other));
                            }
                        }
                        Err(e)
                    },
                    Ok(_) => {
                        proof {
                            assert forall|other: DateError| #[trigger]
                                always_fails_with(input@, other) implies false by {
                                assert(resolved(input@, first.local) == Err::<
                                    CivilTime,
                                    DateError,
                                >(other));
                            }
                        }
                        Err(DateError::InvalidFormat)
                    },
                }
            },
        }
    }
}

/// Whether `input` resolves to the error `error` against every valid
/// reference.
pub open spec fn always_fails_with(input: Seq<char>, error: DateError) -> bool {
    forall|now: Timestamp|
        now.valid() ==> #[trigger] resolved(input, now.local) == Err::<CivilTime, DateError>(error)
}

/// Whether `deadline` can be what `input` names when read against a clock: a
/// deadline is valid and has the local time that the input resolves to
/// against some valid reference; an error is that of an invalid format, or
/// the error that the input resolves to against some valid reference; and an
/// error that the input resolves to against every valid reference, such as
/// the missing value of an empty input, is the error that comes back.
pub open spec fn read_against_a_clock(
    input: Seq<char>,
    deadline: Result<Deadline, DateError>,
) -> bool {
    &&& match deadline {
        Ok(d) => d.date.valid() && exists|now: Timestamp|
            now.valid() && #[trigger] resolved(input, now.local) == Ok::<CivilTime, DateError>(
                d.date.local,
            ),
        Err(e) => e == DateError::InvalidFormat || exists|now: Timestamp|
            now.valid() && #[trigger] resolved(input, now.local) == Err::<CivilTime, DateError>(e),
    }
    &&& forall|e: DateError| #[trigger]
        always_fails_with(input, e) ==> deadline == Err::<Deadline, DateError>(e)
}

/// One tracked item.
#[derive(Clone, Debug, PartialEq, Eq)]
pub struct Task {
    thing: String,
    status: TaskStatus,
    deadline: Deadline,
    label: String,
}

/// What a task holds, its texts as sequences of characters.
pub struct TaskView {
    pub thing: Seq<char>,
    pub status: TaskStatus,
    pub deadline: Deadline,
    pub label: Seq<char>,
}

impl TaskView {
    /// The moments are valid. The label is whatever text the task was given:
    /// the tasks that are added here get `Task` and a number, a task that is
    /// read from a record keeps the label of the record.
    pub open spec fn wf(self) -> bool {
        &&& self.status.valid()
        &&& self.deadline.date.valid()
    }

    /// The task as it is shown: the label, then the description, the status
    /// and the deadline, a line each.
    pub open spec fn shown_text(self) -> Seq<char> {
        self.label + "\nThing: "@ + self.thing + "\nStatus: "@ + self.status.shown_text()
            + "\nDeadline: "@ + user_text(self.deadline.date.local) + "\n"@
    }
}

impl View for Task {
    type V = TaskView;

    closed spec fn view(&self) -> TaskView {
        TaskView {
            thing: self.thing@,
            status: self.status,
            deadline: self.deadline,
            label: self.label@,
        }
    }
}

/// The label of the task numbered `number`.
pub fn label_of(number: u64) -> (label: String)
    ensures
        label@ == label_text(number as nat),
{
    let mut out: Vec<char> = Vec::new();
    append_str(&mut out, "Task ");
    push_decimal(&mut out, number);
    string_of(&out)
}

/// The number that `label` carries, where `label` is a label.
pub fn number_of_label(label: &str) -> (number: Option<u64>)
    ensures
        number == if is_label(label@) {
            Some(label_number(label@) as u64)
        } else {
            None::<u64>
        },
{
    let chars = chars_of(label);
    if chars.len() <= 5 {
        return None;
    }
    let head = slice(&chars, 0, 5);
    let digits = slice(&chars, 5, chars.len());
    let word = chars_of("Task ");
    proof {
        assert(label@.take(5) == head@);
        assert(label@.skip(5) == digits@);
        assert(digits@[0] == label@[5]);
    }
    if !crate::text::same_chars(&head, &word) || !is_all_digits(&digits) || digits[0] == '0' {
        return None;
    }
    parse_decimal(&digits, u64::MAX)
}

impl Task {
    /// The moments are valid.
    pub open spec fn wf(&self) -> bool {
        self@.wf()
    }

    /// A task in the status `Todo`, where `number` is positive and the
    /// deadline valid.
    pub fn new(thing: &str, deadline: Deadline, number: u64) -> (task: Option<Task>)
        ensures
            task matches Some(t) ==> t.wf(),
            match task {
                Some(t) => number >= 1 && deadline.date.valid() && t@ == (TaskView {
                    thing: thing@,
                    status: TaskStatus::Todo,
                    deadline,
                    label: label_text(number as nat),
                }),
                None => !(number >= 1 && deadline.date.valid()),
            },
    {
        if number >= 1 && deadline.date.is_valid() {
            Some(
                Task {
                    thing: string_of(&chars_of(thing)),
                    status: TaskStatus::Todo,
                    deadline,
                    label: label_of(number),
                },
            )
        } else {
            None
        }
    }

    /// A task of the given parts, where the moments are valid.
    pub fn from_parts(thing: &str, status: TaskStatus, deadline: Deadline, label: &str) -> (task:
        Option<Task>)
        ensures
            task matches Some(t) ==> t.wf(),
            match task {
                Some(t) => t@ == (TaskView { thing: thing@, status, deadline, label: label@ }),
                None => !(TaskView { thing: thing@, status, deadline, label: label@ }).wf(),
            },
    {
        let status_valid = match status {
            TaskStatus::Postponed(at) | TaskStatus::Expired(at) | TaskStatus::Aborted(at) => {
                at.is_valid()
            },
            _ => true,
        };
        if status_valid && deadline.date.is_valid() {
            Some(
                Task {
                    thing: string_of(&chars_of(thing)),
                    status,
                    deadline,
                    label: string_of(&chars_of(label)),
                },
            )
        } else {
            None
        }
    }

    /// Whether the task is well formed.
    pub fn is_well_formed(&self) -> (well: bool)
        ensures
            well == self.wf(),
    {
        let status = match self.status {
            TaskStatus::Postponed(at) | TaskStatus::Expired(at) | TaskStatus::Aborted(at) => {
                at.is_valid()
            },
            _ => true,
        };
        status && self.deadline.date.is_valid()
    }

    /// The description.
    pub fn thing(&self) -> (thing: &String)
        ensures
            thing@ == self@.thing,
    {
        &self.thing
    }

    /// The status.
    pub fn status(&self) -> (status: TaskStatus)
        ensures
            status == self@.status,
    {
        self.status
    }

    /// The deadline.
    pub fn deadline(&self) -> (deadline: Deadline)
        ensures
            deadline == self@.deadline,
    {
        self.deadline
    }

    /// The label.
    pub fn label(&self) -> (label: &String)
        ensures
            label@ == self@.label,
    {
        &self.label
    }

    /// Whether the label is `label`.
    pub fn has_label(&self, label: &str) -> (has: bool)
        ensures
            has == (self@.label == label@),
    {
        crate::text::same_chars(&chars_of(self.label.as_str()), &chars_of(label))
    }

    /// The number that the label carries, where the label is `Task` and a
    /// positive number.
    pub fn number(&self) -> (number: Option<u64>)
        ensures
            number == if is_label(self@.label) {
                Some(label_number(self@.label) as u64)
            } else {
                None::<u64>
            },
    {
        number_of_label(self.label.as_str())
    }

    /// Puts `thing` in the place of the description.
    pub fn set_thing(&mut self, thing: &str)
        ensures
            final(self)@ == (TaskView { thing: thing@, ..old(self)@ }),
    {
        self.thing = string_of(&chars_of(thing));
    }

    /// Puts `status` in the place of the status.
    pub fn set_status(&mut self, status: TaskStatus)
        ensures
            final(self)@ == (TaskView { status, ..old(self)@ }),
    {
        self.status = status;
    }

    /// The task as it is shown.
    pub fn to_string(&self) -> (text: String)
        requires
            self.wf(),
        ensures
            text@ == self@.shown_text(),
    {
        let mut out: Vec<char> = chars_of(self.label.as_str());
        append_str(&mut out, "\nThing: ");
        append_str(&mut out, self.thing.as_str());
        append_str(&mut out, "\nStatus: ");
        append_str(&mut out, self.status.to_string().as_str());
        append_str(&mut out, "\nDeadline: ");
        append_str(&mut out, self.deadline.date.date_user_formating().as_str());
        append_str(&mut out, "\n");
        string_of(&out)
    }
}

/// An empty input is a missing value against every reference, so that is
/// the error that reading it against a clock gives.
pub proof fn lemma_empty_input_is_a_missing_value(deadline: Result<Deadline, DateError>)
    requires
        read_against_a_clock(Seq::empty(), deadline),
    ensures
        deadline == Err::<Deadline, DateError>(DateError::MissingValue),
{
    assert(always_fails_with(Seq::empty(), DateError::MissingValue));
}

} // verus!
