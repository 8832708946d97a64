//! The collection of tasks and what is done to it: a task is added under the
//! smallest free label, edited where it is still open, or deleted. Each
//! change hands back the text of the file that then holds the collection.

use crate::labels::{all_used, is_least_unused, next_id};
use crate::resolver::DateError;
use crate::task::{
    is_label, label_number, label_text, lemma_label_of_number, read_against_a_clock, Deadline,
    Task, TaskStatus, TaskView,
};
use crate::tasks_file_manager::{all_wf, file_text, save_tasks};
use crate::text::{chars_of, same_chars, string_of};
use vstd::prelude::*;

verus! {

/// Why a change to the collection was not made.
#[derive(Clone, Copy, Debug, PartialEq, Eq, Structural)]
pub enum TaskError {
    /// A date or a time could not be read.
    Parse(DateError),
    /// No task has the label.
    NotFound,
    /// The task has expired or was aborted, and can no longer be edited.
    ImmutableState,
    /// A task needs a description.
    EmptyDescription,
    /// A task has no field of that name to edit.
    UnknownField,
    /// There is no status of that name to give a task.
    UnknownStatus,
    /// Every label number is in use.
    LabelsExhausted,
}

/// The numbers that the labels of `tasks` carry, in the order of the tasks.
/// A label that is not `Task` and a positive number carries none.
pub open spec fn numbers_in_use(tasks: Seq<Task>) -> Seq<u64>
    decreases tasks.len(),
{
    if tasks.len() == 0 {
        Seq::empty()
    } else if is_label(tasks.last()@.label) {
        numbers_in_use(tasks.drop_last()).push(label_number(tasks.last()@.label) as u64)
    } else {
        numbers_in_use(tasks.drop_last())
    }
}

/// The number that the label of a task carries is in use.
pub proof fn lemma_number_is_in_use(tasks: Seq<Task>, at: int)
    requires
        0 <= at < tasks.len(),
        is_label(tasks[at]@.label),
    ensures
        numbers_in_use(tasks).contains(label_number(tasks[at]@.label) as u64),
    decreases tasks.len(),
{
    let head = numbers_in_use(tasks.drop_last());
    let number = label_number(tasks[at]@.label) as u64;
    if at == tasks.len() - 1 {
        assert(numbers_in_use(tasks)[head.len() as int] == number);
    } else {
        assert(tasks.drop_last()[at] == tasks[at]);
        lemma_number_is_in_use(tasks.drop_last(), at);
        let found = choose|found: int| 0 <= found < head.len() && head[found] == number;
        assert(numbers_in_use(tasks)[found] == number);
    }
}

/// Whether no two tasks of `tasks` have the same label.
pub open spec fn labels_differ(tasks: Seq<Task>) -> bool {
    forall|i: int, j: int| 0 <= i < j < tasks.len() ==> tasks[i]@.label != tasks[j]@.label
}

/// Whether no task of `tasks` has the label `label`.
pub open spec fn none_labelled(tasks: Seq<Task>, label: Seq<char>) -> bool {
    forall|i: int| 0 <= i < tasks.len() ==> (#[trigger] tasks[i])@.label != label
}

/// Whether the task at `at` is the first of `tasks` with the label `label`.
pub open spec fn first_labelled(tasks: Seq<Task>, label: Seq<char>, at: int) -> bool {
    &&& 0 <= at < tasks.len()
    &&& tasks[at]@.label == label
    &&& none_labelled(tasks.take(at), label)
}

/// `tasks` without those that have the label `label`.
pub open spec fn without_label(tasks: Seq<Task>, label: Seq<char>) -> Seq<Task>
    decreases tasks.len(),
{
    if tasks.len() == 0 {
        Seq::empty()
    } else if tasks[0]@.label == label {
        without_label(tasks.drop_first(), label)
    } else {
        seq![tasks[0]] + without_label(tasks.drop_first(), label)
    }
}

/// A label whose number no task of `tasks` carries differs from the labels
/// of all of them.
pub proof fn lemma_fresh_label_differs(tasks: Seq<Task>, number: u64)
    requires
        number >= 1,
        !numbers_in_use(tasks).contains(number),
    ensures
        none_labelled(tasks, label_text(number as nat)),
{
    lemma_label_of_number(number as nat);
    assert forall|i: int| 0 <= i < tasks.len() implies (#[trigger] tasks[i])@.label != label_text(
        number as nat,
    ) by {
        if tasks[i]@.label == label_text(number as nat) {
            lemma_number_is_in_use(tasks, i);
        }
    }
}

/// A collection of different labels stays one when a task with yet another
/// label is added at its end.
pub proof fn lemma_labels_differ_after_push(before: Seq<Task>, after: Seq<Task>)
    requires
        labels_differ(before),
        after.len() == before.len() + 1,
        after.drop_last() == before,
        none_labelled(before, after.last()@.label),
    ensures
        labels_differ(after),
{
    assert forall|i: int, j: int| 0 <= i < j < after.len() implies after[i]@.label
        != after[j]@.label by {
        assert(after[i] == before[i]);
        if j < before.len() {
            assert(after[j] == before[j]);
        }
    }
}

/// What adding a task makes of the collection `before`, where `due` is what
/// the deadline resolved to: the collection `after` and what is handed back.
/// An empty description, an unresolved deadline and a collection in which
/// every number is taken leave the collection as it is. Else the new task
/// stands last, in the status `Todo`, under the smallest positive number
/// that no label of `before` carries.
pub open spec fn added(
    before: Seq<Task>,
    thing: Seq<char>,
    due: Result<Deadline, DateError>,
    after: Seq<Task>,
    saved: Result<String, TaskError>,
) -> bool {
    if thing.len() == 0 {
        saved == Err::<String, TaskError>(TaskError::EmptyDescription) && after == before
    } else {
        match due {
            Err(e) => saved == Err::<String, TaskError>(TaskError::Parse(e)) && after == before,
            Ok(deadline) => if !deadline.date.valid() {
                saved == Err::<String, TaskError>(TaskError::Parse(DateError::InvalidFormat))
                    && after == before
            } else if all_used(numbers_in_use(before)) {
                saved == Err::<String, TaskError>(TaskError::LabelsExhausted) && after == before
            } else {
                &&& after.len() == before.len() + 1
                &&& after.drop_last() == before
                &&& exists|number: u64|
                    #![trigger label_text(number as nat)]
                    is_least_unused(numbers_in_use(before), number) && after.last()@ == (TaskView {
                        thing,
                        status: TaskStatus::Todo,
                        deadline,
                        label: label_text(number as nat),
                    })
                &&& saved matches Ok(file) && file@ == file_text(after)
            },
        }
    }
}

impl Task {
    /// The numbers that the labels of `tasks` carry.
    pub fn get_all_ids(tasks: &Vec<Task>) -> (ids: Vec<u64>)
        ensures
            ids@ == numbers_in_use(tasks@),
    {
        let mut ids: Vec<u64> = Vec::new();
        let mut i: usize = 0;
        assert(tasks@.take(0) == Seq::<Task>::empty());
        while i < tasks.len()
            invariant
                i <= tasks@.len(),
                ids@ == numbers_in_use(tasks@.take(i as int)),
            decreases tasks.len() - i,
        {
            assert(tasks@.take(i + 1).drop_last() == tasks@.take(i as int));
            assert(tasks@.take(i + 1).last() == tasks@[i as int]);
            match tasks[i].number() {
                Some(number) => ids.push(number),
                None => {},
            }
            i += 1;
        }
        assert(tasks@.take(i as int) == tasks@);
        ids
    }

    /// Adds a task with the description `thing`, where `due` is what its
    /// deadline resolved to.
    pub fn add_task_due(tasks: &mut Vec<Task>, thing: &str, due: Result<Deadline, DateError>) -> (saved:
        Result<String, TaskError>)
        requires
            all_wf(old(tasks)@),
        ensures
            added(old(tasks)@, thing@, due, final(tasks)@, saved),
            all_wf(final(tasks)@),
            labels_differ(old(tasks)@) ==> labels_differ(final(tasks)@),
    {
        if thing.is_empty() {
            return Err(TaskError::EmptyDescription);
        }
        let deadline = match due {
            Ok(deadline) => deadline,
            Err(e) => {
                return Err(TaskError::Parse(e));
            },
        };
        if !deadline.date.is_valid() {
            return Err(TaskError::Parse(DateError::InvalidFormat));
        }
        let mut ids = Task::get_all_ids(tasks);
        let number = match next_id(&mut ids) {
            Some(number) => number,
            None => {
                return Err(TaskError::LabelsExhausted);
            },
        };
        let task = match Task::new(thing, deadline, number) {
            Some(task) => task,
            None => {
                return Err(TaskError::LabelsExhausted);
            },
        };
        proof {
            let used = numbers_in_use(old(tasks)@);
            assert(!all_used(used)) by {
                assert(!used.contains(number));
            }
            lemma_fresh_label_differs(old(tasks)@, number);
        }
        tasks.push(task);
        assert(tasks@.drop_last() == old(tasks)@);
        assert(all_wf(tasks@)) by {
            assert forall|i: int| 0 <= i < tasks@.len() implies (#[trigger] tasks@[i]).wf() by {
                if i < old(tasks)@.len() {
                    assert(old(tasks)@[i].wf());
                }
            }
        }
        proof {
            if labels_differ(old(tasks)@) {
                lemma_labels_differ_after_push(old(tasks)@, tasks@);
            }
        }
        Ok(save_tasks(tasks))
    }

    /// Adds a task with the description `thing` and the deadline that
    /// `deadline` names when read against the present moment. Whatever the
    /// clock and the time zone say, the outcome is that of adding the task
    /// with what the deadline then resolved to.
    pub fn add_task(tasks: &mut Vec<Task>, thing: &str, deadline: &str) -> (saved: Result<
        String,
        TaskError,
    >)
        requires
            all_wf(old(tasks)@),
        ensures
            exists|due: Result<Deadline, DateError>|
                read_against_a_clock(deadline@, due) && #[trigger] added(
                    old(tasks)@,
                    thing@,
                    due,
                    final(tasks)@,
                    saved,
                ),
            all_wf(final(tasks)@),
            labels_differ(old(tasks)@) ==> labels_differ(final(tasks)@),
    {
        let due = Deadline::new(deadline);
        Task::add_task_due(tasks, thing, due)
    }

    /// Where the first task with the label `label` stands.
    pub fn position_of(tasks: &Vec<Task>, label: &str) -> (found: Option<usize>)
        ensures
            match found {
                Some(at) => first_labelled(tasks@, label@, at as int),
                None => none_labelled(tasks@, label@),
            },
    {
        let mut i: usize = 0;
        while i < tasks.len()
            invariant
                i <= tasks@.len(),
                none_labelled(tasks@.take(i as int), label@),
            decreases tasks.len() - i,
        {
            if tasks[i].has_label(label) {
                return Some(i);
            }
            assert(none_labelled(tasks@.take(i + 1), label@)) by {
                assert forall|k: int| 0 <= k < i + 1 implies (#[trigger] tasks@.take(
                    i + 1,
                )[k])@.label != label@ by {
                    if k < i {
                        assert(tasks@.take(i as int)[k] == tasks@.take(i + 1)[k]);
                    }
                }
            }
            i += 1;
        }
        assert(tasks@.take(i as int) == tasks@);
        None
    }

    /// Deletes every task where `task_label_number` is `all`, else the tasks
    /// whose label carries that number. Where no task has that label,
    /// nothing is deleted and the label is reported as not found.
    pub fn delete_task(tasks: &mut Vec<Task>, task_label_number: &str) -> (saved: Result<
        String,
        TaskError,
    >)
        requires
            all_wf(old(tasks)@),
        ensures
            all_wf(final(tasks)@),
            labels_differ(old(tasks)@) ==> labels_differ(final(tasks)@),
            task_label_number@ == "all"@ ==> final(tasks)@.len() == 0 && (saved matches Ok(file)
                && file@.len() == 0),
            task_label_number@ != "all"@ && none_labelled(
                old(tasks)@,
                "Task "@ + task_label_number@,
            ) ==> saved == Err::<String, TaskError>(TaskError::NotFound) && final(tasks)@ == old(
                tasks,
            )@,
            task_label_number@ != "all"@ && !none_labelled(
                old(tasks)@,
                "Task "@ + task_label_number@,
            ) ==> final(tasks)@ == without_label(old(tasks)@, "Task "@ + task_label_number@) && (
            saved matches Ok(file) && file@ == file_text(final(tasks)@)),
    {
        if same_chars(&chars_of(task_label_number), &chars_of("all")) {
            tasks.clear();
            return Ok(save_tasks(tasks));
        }
        let mut label = chars_of("Task ");
        crate::text::append_str(&mut label, task_label_number);
        let label = string_of(&label);
        if Task::position_of(tasks, label.as_str()).is_none() {
            return Err(TaskError::NotFound);
        }
        let mut i: usize = 0;
        assert(tasks@.skip(0) == tasks@);
        assert(tasks@.take(0) == Seq::<Task>::empty());
        while i < tasks.len()
            invariant
                i <= tasks@.len(),
                all_wf(tasks@),
                labels_differ(old(tasks)@) ==> labels_differ(tasks@),
                label@ == "Task "@ + task_label_number@,
                without_label(old(tasks)@, label@) == tasks@.take(i as int) + without_label(
                    tasks@.skip(i as int),
                    label@,
                ),
            decreases tasks.len() - i,
        {
            let ghost before = tasks@;
            let ghost left = tasks@.skip(i as int);
            assert(left[0] == tasks@[i as int]);
            if tasks[i].has_label(label.as_str()) {
                tasks.remove(i);
                assert(tasks@.take(i as int) == before.take(i as int));
                assert(tasks@.skip(i as int) == left.drop_first());
                assert(all_wf(tasks@)) by {
                    assert forall|k: int| 0 <= k < tasks@.len() implies (#[trigger] tasks@[k]).wf() by {
                        if k < i {
                            assert(tasks@[k] == before[k]);
                        } else {
                            assert(tasks@[k] == before[k + 1]);
                        }
                    }
                }
                assert(labels_differ(before) ==> labels_differ(tasks@)) by {
                    if labels_differ(before) {
                        assert forall|a: int, b: int| 0 <= a < b < tasks@.len() implies tasks@[a]@.label
                            != tasks@[b]@.label by {
                            let from = if a < i { a } else { a + 1 };
                            let to = if b < i { b } else { b + 1 };
                            assert(tasks@[a] == before[from] && tasks@[b] == before[to]);
                        }
                    }
                }
            } else {
                assert(tasks@.take(i + 1) == tasks@.take(i as int) + seq![tasks@[i as int]]);
                assert(left.drop_first() == tasks@.skip(i + 1));
                i += 1;
            }
        }
        assert(tasks@.take(i as int) == tasks@);
        assert(tasks@.skip(i as int).len() == 0);
        Ok(save_tasks(tasks))
    }
}

} // verus!
