//! Editing a task: a new description, or a new status. A task that has
//! expired or was aborted stays as it is.

use crate::calendar::{local_offset_at, CivilTime, Timestamp};
use crate::resolver::{resolve, resolved, zoned, DateError};
use crate::store::{first_labelled, labels_differ, none_labelled, TaskError};
use crate::task::{Task, TaskStatus, TaskView};
use crate::tasks_file_manager::{all_wf, file_text, save_tasks};
use crate::text::{
    append_str, chars_of, has_prefix, lowered, same_chars, slice, string_of, strip_dashes,
    to_lowered, without_dashes,
};
use vstd::prelude::*;

verus! {

/// The editing of a task.
pub struct EditTaskConfig;

/// What of a task can be edited.
#[derive(Clone, Copy, Debug, PartialEq, Eq, Structural)]
pub enum Field {
    Thing,
    Status,
}

/// The status that a user asks for. A task is postponed to a local moment,
/// which the time zone has yet to place; it is aborted at the present
/// moment, which the clock has yet to give.
#[derive(Clone, Copy, Debug, PartialEq, Eq, Structural)]
pub enum StatusRequest {
    Completed,
    Todo,
    Postponed(CivilTime),
    Aborted,
}

/// The field that `switch` names: `thing` or `status`, with or without
/// dashes before it, in capital or small letters.
pub open spec fn field_named(switch: Seq<char>) -> Option<Field> {
    let name = lowered(without_dashes(switch));
    if name == "thing"@ {
        Some(Field::Thing)
    } else if name == "status"@ {
        Some(Field::Status)
    } else {
        None
    }
}

/// The moment against which a new date for `task` is read: the moment it is
/// postponed to, where it is postponed, else its deadline.
pub open spec fn reference_of(task: TaskView) -> CivilTime {
    match task.status {
        TaskStatus::Postponed(at) => at.local,
        _ => task.deadline.date.local,
    }
}

/// The status that `token` asks for `task`: `completed`, `todo`, `aborted`,
/// or `postponed`, a space and a date that is read against the task's
/// reference. Capital letters count as their lower-case forms. `expired` is
/// no status to ask for: a task is expired only where its record says so, and
/// nothing here lets a task expire by itself.
pub open spec fn requested(token: Seq<char>, task: TaskView) -> Result<StatusRequest, TaskError> {
    let low = lowered(token);
    if low == "completed"@ {
        Ok(StatusRequest::Completed)
    } else if low == "todo"@ {
        Ok(StatusRequest::Todo)
    } else if "postponed "@.is_prefix_of(low) {
        match resolved(low.skip(10), reference_of(task)) {
            Ok(moment) => Ok(StatusRequest::Postponed(moment)),
            Err(e) => Err(TaskError::Parse(e)),
        }
    } else if low == "aborted"@ {
        Ok(StatusRequest::Aborted)
    } else {
        Err(TaskError::UnknownStatus)
    }
}

/// `task` in the status that `request` asks for, where the time zone gives
/// the moment it is postponed to the offset `offset`, and the clock says
/// `now`. A moment that the zone cannot place, and a clock without a valid
/// time, leave no valid date.
pub open spec fn applied(
    task: TaskView,
    request: StatusRequest,
    offset: Option<i32>,
    now: Option<Timestamp>,
) -> Result<TaskView, TaskError> {
    match request {
        StatusRequest::Completed => Ok(TaskView { status: TaskStatus::Completed, ..task }),
        StatusRequest::Todo => Ok(TaskView { status: TaskStatus::Todo, ..task }),
        StatusRequest::Postponed(moment) => match zoned(moment, offset) {
            Some(at) => Ok(TaskView { status: TaskStatus::Postponed(at), ..task }),
            None => Err(TaskError::Parse(DateError::InvalidFormat)),
        },
        StatusRequest::Aborted => match now {
            Some(at) if at.valid() => Ok(TaskView { status: TaskStatus::Aborted(at), ..task }),
            _ => Err(TaskError::Parse(DateError::InvalidFormat)),
        },
    }
}

/// `task` after the edit of `field` to `value`. A task that has expired or
/// was aborted is in an immutable state, whatever the edit.
pub open spec fn edited(
    task: TaskView,
    field: Option<Field>,
    value: Seq<char>,
    offset: Option<i32>,
    now: Option<Timestamp>,
) -> Result<TaskView, TaskError> {
    if task.status.closed() {
        Err(TaskError::ImmutableState)
    } else {
        match field {
            None => Err(TaskError::UnknownField),
            Some(Field::Thing) => Ok(TaskView { thing: value, ..task }),
            Some(Field::Status) => match requested(value, task) {
                Ok(request) => applied(task, request, offset, now),
                Err(e) => Err(e),
            },
        }
    }
}

/// Whether the edit of `field` of `task` to `value` has a moment for the local
/// time zone to place: the task is still open, and its status is asked to be
/// `postponed` to a date that can be read.
pub open spec fn asks_the_zone(task: TaskView, field: Option<Field>, value: Seq<char>) -> bool {
    !task.status.closed() && field == Some(Field::Status) && (requested(value, task) matches Ok(
        StatusRequest::Postponed(_),
    ))
}

/// Whether the edit of `field` of `task` to `value` needs the present moment:
/// the task is still open, and its status is asked to be `aborted`.
pub open spec fn asks_the_clock(task: TaskView, field: Option<Field>, value: Seq<char>) -> bool {
    !task.status.closed() && field == Some(Field::Status) && requested(value, task) == Ok::<
        StatusRequest,
        TaskError,
    >(StatusRequest::Aborted)
}

/// Whether `after` and `made` are what the edit makes of `before`: the edit
/// done, or an error and the task as it was.
pub open spec fn edit_of(
    before: Task,
    outcome: Result<TaskView, TaskError>,
    after: Task,
    made: Result<(), TaskError>,
) -> bool {
    match outcome {
        Ok(task) => made is Ok && after@ == task,
        Err(e) => made == Err::<(), TaskError>(e) && after == before,
    }
}

/// Whether `after` and `saved` are what an edit makes of the collection
/// `before`: no task with the label, and nothing changed; or the first task
/// with the label edited in its place and the file text of the collection
/// handed back; or the error of the edit, and nothing changed.
pub open spec fn edit_made(
    before: Seq<Task>,
    number: Seq<char>,
    switch: Seq<char>,
    value: Seq<char>,
    offset: Option<i32>,
    now: Option<Timestamp>,
    after: Seq<Task>,
    saved: Result<String, TaskError>,
) -> bool {
    let label = "Task "@ + number;
    if none_labelled(before, label) {
        saved == Err::<String, TaskError>(TaskError::NotFound) && after == before
    } else {
        exists|at: int|
            first_labelled(before, label, at) && match edited(
                before[at]@,
                field_named(switch),
                value,
                offset,
                now,
            ) {
                Err(e) => saved == Err::<String, TaskError>(e) && after == before,
                Ok(task) => {
                    &&& after.len() == before.len()
                    &&& after[at]@ == task
                    &&& forall|k: int| 0 <= k < before.len() && k != at ==> after[k] == before[k]
                    &&& saved matches Ok(file) && file@ == file_text(after)
                },
            }
    }
}

impl EditTaskConfig {
    /// The field that `switch` names.
    pub fn field_of(switch: &str) -> (field: Option<Field>)
        ensures
            field == field_named(switch@),
    {
        let name = to_lowered(&strip_dashes(&chars_of(switch)));
        if same_chars(&name, &chars_of("thing")) {
            Some(Field::Thing)
        } else if same_chars(&name, &chars_of("status")) {
            Some(Field::Status)
        } else {
            None
        }
    }

    /// The moment against which a new date for `task` is read.
    pub fn reference(task: &Task) -> (reference: CivilTime)
        requires
            task.wf(),
        ensures
            reference == reference_of(task@),
            reference.valid(),
    {
        match task.status() {
            TaskStatus::Postponed(at) => at.local,
            _ => task.deadline().date.local,
        }
    }

    /// The status that `new_value` asks for `task`.
    pub fn status_request(new_value: &str, task: &Task) -> (request: Result<StatusRequest, TaskError>)
        requires
            task.wf(),
        ensures
            request == requested(new_value@, task@),
            request matches Ok(StatusRequest::Postponed(moment)) ==> moment.valid(),
    {
        let low = to_lowered(&chars_of(new_value));
        if same_chars(&low, &chars_of("completed")) {
            return Ok(StatusRequest::Completed);
        }
        if same_chars(&low, &chars_of("todo")) {
            return Ok(StatusRequest::Todo);
        }
        proof {
            reveal_strlit("postponed ");
        }
        if has_prefix(&low, &chars_of("postponed ")) {
            let date = string_of(&slice(&low, 10, low.len()));
            return match resolve(date.as_str(), &EditTaskConfig::reference(task)) {
                Ok(moment) => Ok(StatusRequest::Postponed(moment)),
                Err(e) => Err(TaskError::Parse(e)),
            };
        }
        if same_chars(&low, &chars_of("aborted")) {
            return Ok(StatusRequest::Aborted);
        }
        Err(TaskError::UnknownStatus)
    }

    /// Puts `task` in the status that `request` asks for, where the time
    /// zone gives the moment it is postponed to the offset `offset`, and the
    /// clock says `now`.
    pub fn apply_request(
        task: &mut Task,
        request: StatusRequest,
        offset: Option<i32>,
        now: Option<Timestamp>,
    ) -> (made: Result<(), TaskError>)
        requires
            old(task).wf(),
        ensures
            edit_of(*old(task), applied(old(task)@, request, offset, now), *final(task), made),
            final(task).wf(),
    {
        let status = match request {
            StatusRequest::Completed => TaskStatus::Completed,
            StatusRequest::Todo => TaskStatus::Todo,
            StatusRequest::Postponed(moment) => match Timestamp::in_zone(&moment, offset) {
                Some(at) => TaskStatus::Postponed(at),
                None => {
                    return Err(TaskError::Parse(DateError::InvalidFormat));
                },
            },
            StatusRequest::Aborted => match Timestamp::checked(now) {
                Some(at) => TaskStatus::Aborted(at),
                None => {
                    return Err(TaskError::Parse(DateError::InvalidFormat));
                },
            },
        };
        task.set_status(status);
        Ok(())
    }

    /// Puts `new_value` in the place of the description of `task`, unless
    /// the task has expired or was aborted.
    pub fn edit_thing(task: &mut Task, new_value: &str) -> (made: Result<(), TaskError>)
        requires
            old(task).wf(),
        ensures
            edit_of(
                *old(task),
                edited(old(task)@, Some(Field::Thing), new_value@, None, None),
                *final(task),
                made,
            ),
            old(task)@.status.closed() ==> made == Err::<(), TaskError>(TaskError::ImmutableState)
                && *final(task) == *old(task),
            final(task).wf(),
    {
        if task.status().is_closed() {
            return Err(TaskError::ImmutableState);
        }
        task.set_thing(new_value);
        Ok(())
    }

    /// Gives `task` the status that `new_value` asks for, unless the task has
    /// expired or was aborted, where the time zone gives the moment it is
    /// postponed to the offset `offset`, and the clock says `now`.
    pub fn edit_status_in_zone(
        task: &mut Task,
        new_value: &str,
        offset: Option<i32>,
        now: Option<Timestamp>,
    ) -> (made: Result<(), TaskError>)
        requires
            old(task).wf(),
        ensures
            edit_of(
                *old(task),
                edited(old(task)@, Some(Field::Status), new_value@, offset, now),
                *final(task),
                made,
            ),
            old(task)@.status.closed() ==> made == Err::<(), TaskError>(TaskError::ImmutableState)
                && *final(task) == *old(task),
            final(task).wf(),
    {
        if task.status().is_closed() {
            return Err(TaskError::ImmutableState);
        }
        match EditTaskConfig::status_request(new_value, task) {
            Ok(request) => EditTaskConfig::apply_request(task, request, offset, now),
            Err(e) => Err(e),
        }
    }

    /// What the time zone and the clock say for the edit of `field` of
    /// `task` to `value`: the offset of the moment that the task is
    /// postponed to, or the present moment where it is aborted. The zone is
    /// asked only where the edit has a moment to place, and the clock only
    /// where the task is to be aborted: every other edit gets neither an
    /// offset nor a present moment. A present moment that comes back is
    /// valid.
    pub fn surroundings(task: &Task, field: Option<Field>, value: &str) -> (found: (
        Option<i32>,
        Option<Timestamp>,
    ))
        requires
            task.wf(),
        ensures
            !asks_the_zone(task@, field, value@) ==> found.0 is None,
            !asks_the_clock(task@, field, value@) ==> found.1 is None,
            found.1 matches Some(now) ==> now.valid(),
    {
        if task.status().is_closed() {
            return (None, None);
        }
        match field {
            Some(Field::Status) => match EditTaskConfig::status_request(value, task) {
                Ok(StatusRequest::Postponed(moment)) => (local_offset_at(&moment), None),
                Ok(StatusRequest::Aborted) => (None, Timestamp::date_now()),
                _ => (None, None),
            },
            _ => (None, None),
        }
    }

    /// Gives `task` the status that `new_value` asks for, unless the task has
    /// expired or was aborted. Whatever this machine's time zone and clock
    /// say, the outcome is that of the edit for some offset and some present
    /// moment.
    pub fn edit_status(task: &mut Task, new_value: &str) -> (made: Result<(), TaskError>)
        requires
            old(task).wf(),
        ensures
            exists|offset: Option<i32>, now: Option<Timestamp>|
                edit_of(
                    *old(task),
                    #[trigger] edited(old(task)@, Some(Field::Status), new_value@, offset, now),
                    *final(task),
                    made,
                ),
            old(task)@.status.closed() ==> made == Err::<(), TaskError>(TaskError::ImmutableState)
                && *final(task) == *old(task),
            final(task).wf(),
    {
        let found = EditTaskConfig::surroundings(task, Some(Field::Status), new_value);
        let made = EditTaskConfig::edit_status_in_zone(task, new_value, found.0, found.1);
        assert(edit_of(
            *old(task),
            edited(old(task)@, Some(Field::Status), new_value@, found.0, found.1),
            *task,
            made,
        ));
        made
    }
}

impl Task {
    /// Edits the field that `switch_field` names of the first task whose
    /// label carries `task_label_number`, to `new_value`, where the time zone
    /// gives a moment that the task is postponed to the offset `offset`, and
    /// the clock says `now`.
    pub fn edit_task_in_zone(
        tasks: &mut Vec<Task>,
        task_label_number: &str,
        switch_field: &str,
        new_value: &str,
        offset: Option<i32>,
        now: Option<Timestamp>,
    ) -> (saved: Result<String, TaskError>)
        requires
            all_wf(old(tasks)@),
        ensures
            edit_made(
                old(tasks)@,
                task_label_number@,
                switch_field@,
                new_value@,
                offset,
                now,
                final(tasks)@,
                saved,
            ),
            all_wf(final(tasks)@),
            labels_differ(old(tasks)@) ==> labels_differ(final(tasks)@),
    {
        let mut label = chars_of("Task ");
        append_str(&mut label, task_label_number);
        let label = string_of(&label);
        let at = match Task::position_of(tasks, label.as_str()) {
            Some(at) => at,
            None => {
                return Err(TaskError::NotFound);
            },
        };
        assert(!none_labelled(tasks@, label@)) by {
            assert(tasks@[at as int]@.label == label@);
        }
        let field = EditTaskConfig::field_of(switch_field);
        assert(tasks@[at as int].wf());
        let mut task = tasks.remove(at);
        let made = if task.status().is_closed() {
            Err(TaskError::ImmutableState)
        } else {
            match field {
                None => Err(TaskError::UnknownField),
                Some(Field::Thing) => EditTaskConfig::edit_thing(&mut task, new_value),
                Some(Field::Status) => EditTaskConfig::edit_status_in_zone(
                    &mut task,
                    new_value,
                    offset,
                    now,
                ),
            }
        };
        let ghost changed = task;
        let ghost outcome = edited(
            old(tasks)@[at as int]@,
            field_named(switch_field@),
            new_value@,
            offset,
            now,
        );
        assert(edit_of(old(tasks)@[at as int], outcome, changed, made));
        tasks.insert(at, task);
        assert(tasks@ == old(tasks)@.update(at as int, changed));
        assert(all_wf(tasks@)) by {
            assert forall|k: int| 0 <= k < tasks@.len() implies (#[trigger] tasks@[k]).wf() by {
                if k != at {
                    assert(tasks@[k] == old(tasks)@[k]);
                    assert(old(tasks)@[k].wf());
                }
            }
        }
        assert(labels_differ(old(tasks)@) ==> labels_differ(tasks@)) by {
            assert(changed@.label == old(tasks)@[at as int]@.label);
            if labels_differ(old(tasks)@) {
                assert forall|a: int, b: int| 0 <= a < b < tasks@.len() implies tasks@[a]@.label
                    != tasks@[b]@.label by {
                    assert(tasks@[a]@.label == old(tasks)@[a]@.label);
                    assert(tasks@[b]@.label == old(tasks)@[b]@.label);
                }
            }
        }
        match made {
            Ok(_) => {
                let saved = Ok(save_tasks(tasks));
                assert(first_labelled(old(tasks)@, label@, at as int));
                saved
            },
            Err(e) => {
                assert(tasks@ == old(tasks)@);
                assert(first_labelled(old(tasks)@, label@, at as int));
                Err(e)
            },
        }
    }

    /// Edits the field that `switch_field` names of the first task whose
    /// label carries `task_label_number`, to `new_value`. Whatever this
    /// machine's time zone and clock say, the outcome is that of the edit for
    /// some offset and some present moment.
    pub fn edit_task(
        tasks: &mut Vec<Task>,
        task_label_number: &str,
        switch_field: &str,
        new_value: &str,
    ) -> (saved: Result<String, TaskError>)
        requires
            all_wf(old(tasks)@),
        ensures
            exists|offset: Option<i32>, now: Option<Timestamp>| #[trigger]
                edit_made(
                    old(tasks)@,
                    task_label_number@,
                    switch_field@,
                    new_value@,
                    offset,
                    now,
                    final(tasks)@,
                    saved,
                ),
            all_wf(final(tasks)@),
            labels_differ(old(tasks)@) ==> labels_differ(final(tasks)@),
    {
        let mut label = chars_of("Task ");
        append_str(&mut label, task_label_number);
        let label = string_of(&label);
        let found = match Task::position_of(tasks, label.as_str()) {
            Some(at) => {
                assert(tasks@[at as int].wf());
                EditTaskConfig::surroundings(
                    &tasks[at],
                    EditTaskConfig::field_of(switch_field),
                    new_value,
                )
            },
            None => (None, None),
        };
        Task::edit_task_in_zone(
            tasks,
            task_label_number,
            switch_field,
            new_value,
            found.0,
            found.1,
        )
    }
}

/// A task that has expired or was aborted is in an immutable state for every
/// edit, whatever the field and the value.
pub proof fn lemma_closed_task_is_immutable(
    task: TaskView,
    field: Option<Field>,
    value: Seq<char>,
    offset: Option<i32>,
    now: Option<Timestamp>,
)
    requires
        task.status is Aborted || task.status is Expired,
    ensures
        edited(task, field, value, offset, now) == Err::<TaskView, TaskError>(
            TaskError::ImmutableState,
        ),
{
}

/// An edit that aims at a task that has expired or was aborted fails with
/// the immutable state, and leaves the collection as it was.
pub proof fn lemma_closed_task_stays(
    before: Seq<Task>,
    number: Seq<char>,
    switch: Seq<char>,
    value: Seq<char>,
    offset: Option<i32>,
    now: Option<Timestamp>,
    after: Seq<Task>,
    saved: Result<String, TaskError>,
    at: int,
)
    requires
        edit_made(before, number, switch, value, offset, now, after, saved),
        first_labelled(before, "Task "@ + number, at),
        before[at]@.status is Aborted || before[at]@.status is Expired,
    ensures
        saved == Err::<String, TaskError>(TaskError::ImmutableState),
        after == before,
{
    let label = "Task "@ + number;
    assert(!none_labelled(before, label)) by {
        assert(before[at]@.label == label);
    }
    let found = choose|found: int|
        first_labelled(before, label, found) && match edited(
            before[found]@,
            field_named(switch),
            value,
            offset,
            now,
        ) {
            Err(e) => saved == Err::<String, TaskError>(e) && after == before,
            Ok(task) => {
                &&& after.len() == before.len()
                &&& after[found]@ == task
                &&& forall|k: int| 0 <= k < before.len() && k != found ==> after[k] == before[k]
                &&& saved matches Ok(file) && file@ == file_text(after)
            },
        };
    if found < at {
        assert(before.take(at)[found] == before[found]);
    }
    if at < found {
        assert(before.take(found)[at] == before[at]);
    }
}

} // verus!
