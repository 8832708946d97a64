//! Taking tasks in from a text in which they stand as they are shown: a
//! label line, then `Thing:`, `Status:` and `Deadline:` lines, with an empty
//! line between one task and the next.

use crate::field_map::FieldMap;
use crate::labels::{all_used, is_least_unused, next_id};
use crate::store::{
    labels_differ, lemma_fresh_label_differs, lemma_labels_differ_after_push, numbers_in_use,
};
use crate::task::{label_of, label_text, Task, TaskView};
use crate::tasks_file_manager::{
    all_wf, file_text, lemma_names_differ, outcome, parse_task_from_file, save_tasks,
    task_of_fields, DecodeError,
};
use crate::text::{
    chars_of, find_first, lowered, slice, split, split_on, to_lowered, trim, trimmed, views_of,
};
use vstd::prelude::*;

verus! {

/// Why the tasks of a text were not taken in.
#[derive(Clone, Copy, Debug, PartialEq, Eq, Structural)]
pub enum ImportError {
    /// The lines of one task do not make a task.
    Decode(DecodeError),
    /// Every label number is in use.
    LabelsExhausted,
}

/// `fields` with the field that `line` holds: what stands before its first
/// colon, in small letters, is the name, and what stands after it the value,
/// both without the spaces around them. A line without a colon holds none.
pub open spec fn with_line(fields: Map<Seq<char>, Seq<char>>, line: Seq<char>) -> Map<
    Seq<char>,
    Seq<char>,
> {
    match line.index_of_first(':') {
        Some(colon) if 0 <= colon < line.len() => fields.insert(
            lowered(trimmed(line.take(colon))),
            trimmed(line.skip(colon + 1)),
        ),
        _ => fields,
    }
}

/// The fields of the tasks that `lines` show, task by task, where `open`
/// holds the fields read so far of a task whose lines have begun. An empty
/// line ends a task; the first line of a task is its label, which is not
/// taken over.
pub open spec fn blocks_of(
    lines: Seq<Seq<char>>,
    open: Option<Map<Seq<char>, Seq<char>>>,
) -> Seq<Map<Seq<char>, Seq<char>>>
    decreases lines.len(),
{
    let ended = match open {
        Some(fields) => seq![fields],
        None => Seq::empty(),
    };
    if lines.len() == 0 {
        ended
    } else if lines[0].len() == 0 {
        ended + blocks_of(lines.drop_first(), None)
    } else {
        match open {
            Some(fields) => blocks_of(lines.drop_first(), Some(with_line(fields, lines[0]))),
            None => blocks_of(lines.drop_first(), Some(Map::empty())),
        }
    }
}

/// Whether `task` is what the fields make under the smallest label not in
/// use among `held`, for some offset that the local time zone may give its
/// deadline.
pub open spec fn fills(held: Seq<Task>, fields: Map<Seq<char>, Seq<char>>, task: TaskView) -> bool {
    exists|number: u64, offset: Option<i32>|
        is_least_unused(numbers_in_use(held), number) && #[trigger] task_of_fields(
            fields.insert("label"@, label_text(number as nat)),
            offset,
        ) == Ok::<TaskView, DecodeError>(task)
}

/// Whether the fields make no task under the smallest label not in use
/// among `held`, for the reason `error`.
pub open spec fn refuses(
    held: Seq<Task>,
    fields: Map<Seq<char>, Seq<char>>,
    error: ImportError,
) -> bool {
    ||| all_used(numbers_in_use(held)) && error == ImportError::LabelsExhausted
    ||| exists|number: u64, offset: Option<i32>|
        is_least_unused(numbers_in_use(held), number) && failed(
            #[trigger] task_of_fields(fields.insert("label"@, label_text(number as nat)), offset),
            error,
        )
}

/// Whether the reading of a task failed, for the reason `error`.
pub open spec fn failed(task: Result<TaskView, DecodeError>, error: ImportError) -> bool {
    match task {
        Ok(_) => false,
        Err(e) => error == ImportError::Decode(e),
    }
}

/// Whether `after` is `before` with the tasks that `blocks` make added at
/// its end, one for each block in order, each under the smallest label not
/// in use when it is added.
pub open spec fn imported(
    before: Seq<Task>,
    blocks: Seq<Map<Seq<char>, Seq<char>>>,
    after: Seq<Task>,
) -> bool
    decreases blocks.len(),
{
    if blocks.len() == 0 {
        after == before
    } else {
        &&& after.len() > 0
        &&& imported(before, blocks.drop_last(), after.drop_last())
        &&& fills(after.drop_last(), blocks.last(), after.last()@)
    }
}

/// What a map of fields holds, if there is one.
pub open spec fn held_in(open: Option<FieldMap>) -> Option<Map<Seq<char>, Seq<char>>> {
    match open {
        Some(fields) => Some(fields@),
        None => None,
    }
}

/// Adds to `tasks` the task that `fields` make under the smallest label not
/// in use.
fn import_block(tasks: &mut Vec<Task>, fields: FieldMap) -> (done: Result<(), ImportError>)
    requires
        all_wf(old(tasks)@),
    ensures
        all_wf(final(tasks)@),
        labels_differ(old(tasks)@) ==> labels_differ(final(tasks)@),
        match done {
            Ok(_) => final(tasks)@.len() == old(tasks)@.len() + 1 && final(tasks)@.drop_last()
                == old(tasks)@ && fills(old(tasks)@, fields@, final(tasks)@.last()@),
            Err(e) => final(tasks)@ == old(tasks)@ && refuses(old(tasks)@, fields@, e),
        },
{
    let mut fields = fields;
    let ghost given = fields@;
    let mut ids = Task::get_all_ids(tasks);
    let number = match next_id(&mut ids) {
        Some(number) => number,
        None => {
            return Err(ImportError::LabelsExhausted);
        },
    };
    fields.insert("label", label_of(number).as_str());
    let ghost labelled = fields@;
    let task = parse_task_from_file(&mut fields);
    proof {
        let offset = choose|offset: Option<i32>|
            outcome(task) == #[trigger] task_of_fields(labelled, offset);
        assert(outcome(task) == task_of_fields(
            given.insert("label"@, label_text(number as nat)),
            offset,
        ));
    }
    match task {
        Ok(task) => {
            proof {
                lemma_names_differ();
                lemma_fresh_label_differs(old(tasks)@, number);
                assert(task@.label == label_text(number as nat));
            }
            tasks.push(task);
            assert(tasks@.drop_last() == old(tasks)@);
            proof {
                if labels_differ(old(tasks)@) {
                    lemma_labels_differ_after_push(old(tasks)@, tasks@);
                }
            }
            assert(all_wf(tasks@)) by {
                assert forall|i: int| 0 <= i < tasks@.len() implies (#[trigger] tasks@[i]).wf() by {
                    if i < old(tasks)@.len() {
                        assert(old(tasks)@[i].wf());
                    }
                }
            }
            Ok(())
        },
        Err(e) => Err(ImportError::Decode(e)),
    }
}

/// Takes in the tasks that `content` shows, and adds them to `tasks`, each
/// under the smallest label not in use when it is added. On success the text
/// of the file that then holds the collection comes back. Where the lines of
/// a task make no task, nothing is added at all.
pub fn parse_redirected_stream_of_show_tasks(tasks: &mut Vec<Task>, content: &str) -> (saved:
    Result<String, ImportError>)
    requires
        all_wf(old(tasks)@),
    ensures
        all_wf(final(tasks)@),
        labels_differ(old(tasks)@) ==> labels_differ(final(tasks)@),
        match saved {
            Ok(file) => imported(
                old(tasks)@,
                blocks_of(split_on(content@, '\n'), None),
                final(tasks)@,
            ) && file@ == file_text(final(tasks)@),
            Err(e) => final(tasks)@ == old(tasks)@ && exists|count: int, held: Seq<Task>|
                0 <= count < blocks_of(split_on(content@, '\n'), None).len() && #[trigger] imported(
                    old(tasks)@,
                    blocks_of(split_on(content@, '\n'), None).take(count),
                    held,
                ) && refuses(held, blocks_of(split_on(content@, '\n'), None)[count], e),
        },
{
    let lines = split(&chars_of(content), '\n');
    let ghost all = blocks_of(split_on(content@, '\n'), None);
    let ghost mut done: Seq<Map<Seq<char>, Seq<char>>> = Seq::empty();
    let count = tasks.len();
    let mut open: Option<FieldMap> = None;
    let mut i: usize = 0;
    assert(views_of(lines@).skip(0) == views_of(lines@));
    while i < lines.len()
        invariant
            i <= lines@.len(),
            count == old(tasks)@.len(),
            tasks@.len() >= count,
            tasks@.take(count as int) == old(tasks)@,
            all_wf(tasks@),
            all_wf(old(tasks)@),
            labels_differ(old(tasks)@) ==> labels_differ(tasks@),
            all == blocks_of(split_on(content@, '\n'), None),
            all == done + blocks_of(views_of(lines@).skip(i as int), held_in(open)),
            imported(old(tasks)@, done, tasks@),
        decreases lines.len() - i,
    {
        let line = &lines[i];
        let ghost left = views_of(lines@).skip(i as int);
        assert(left[0] == line@);
        assert(left.drop_first() == views_of(lines@).skip(i + 1));
        if line.len() == 0 {
            match open {
                Some(fields) => {
                    let ghost block = fields@;
                    let ghost held = tasks@;
                    assert(all == done.push(block) + blocks_of(left.drop_first(), None));
                    match import_block(tasks, fields) {
                        Ok(_) => {
                            proof {
                                let ghost earlier = done;
                                done = done.push(block);
                                assert(done.drop_last() == earlier);
                                assert(done.last() == block);
                                assert(tasks@.drop_last() == held);
                                assert(imported(old(tasks)@, done, tasks@));
                                assert(tasks@.take(count as int) == held.take(count as int));
                            }
                        },
                        Err(e) => {
                            proof {
                                assert(all.take(done.len() as int) == done);
                                assert(all[done.len() as int] == block);
                            }
                            tasks.truncate(count);
                            assert(tasks@ == old(tasks)@);
                            return Err(e);
                        },
                    }
                },
                None => {},
            }
            open = None;
        } else {
            match open {
                Some(mut fields) => {
                    proof {
                        line@.index_of_first_ensures(':');
                    }
                    match find_first(line, ':') {
                        Some(colon) => {
                            let end = line.len();
                            assert(colon < end);
                            let name = to_lowered(&trim(&slice(line, 0, colon)));
                            let value = trim(&slice(line, colon + 1, end));
                            fields.insert_chars(name, value);
                        },
                        None => {},
                    }
                    open = Some(fields);
                },
                None => {
                    open = Some(FieldMap::new());
                },
            }
        }
        i += 1;
    }
    assert(views_of(lines@).skip(i as int).len() == 0);
    match open {
        Some(fields) => {
            let ghost block = fields@;
            let ghost held = tasks@;
            assert(all == done.push(block));
            match import_block(tasks, fields) {
                Ok(_) => {
                    proof {
                        let ghost earlier = done;
                        done = done.push(block);
                        assert(done.drop_last() == earlier);
                        assert(done.last() == block);
                        assert(tasks@.drop_last() == held);
                        assert(imported(old(tasks)@, done, tasks@));
                    }
                },
                Err(e) => {
                    proof {
                        assert(all.take(done.len() as int) == done);
                        assert(all[done.len() as int] == block);
                    }
                    tasks.truncate(count);
                    assert(tasks@ == old(tasks)@);
                    return Err(e);
                },
            }
        },
        None => {
            assert(all == done);
        },
    }
    Ok(save_tasks(tasks))
}

} // verus!
