//! Which tasks to show, and in which order: switches that keep the tasks
//! with a description, a status or a date, or that put them in the order of
//! their deadlines or dates.

use crate::calendar::{CivilTime, Timestamp};
use crate::instant::epoch_seconds;
use crate::listing::{as_ints, in_range, positions_between, sort_positions, sorted_by};
use crate::resolver::{epoch_start, resolve, resolved, start_of_epoch, DateError};
use crate::task::{Task, TaskStatus, TaskView};
use crate::tasks_file_manager::all_wf;
use crate::text::{
    chars_of, has_prefix, join, joined, lowered, same_chars, string_of, strip_dashes, texts_of,
    to_lowered, without_dashes,
};
use vstd::prelude::*;

verus! {

/// One switch of a request to show tasks: its name, and what was written
/// after it, if anything.
#[derive(Clone, Debug, PartialEq, Eq)]
pub struct Switch {
    pub name: String,
    pub args: Option<Vec<String>>,
}

/// Why a request to show tasks cannot be met.
#[derive(Clone, Copy, Debug, PartialEq, Eq, Structural)]
pub enum ShowError {
    /// The switch needs something after it.
    MissingArguments,
    /// The switch takes nothing after it.
    UnexpectedArguments,
    /// There is no such switch.
    UnknownSwitch,
    /// The date after the switch could not be read.
    Date(DateError),
}

/// What a switch holds, its texts as sequences of characters.
pub struct SwitchView {
    pub name: Seq<char>,
    pub args: Option<Seq<Seq<char>>>,
}

impl View for Switch {
    type V = SwitchView;

    open spec fn view(&self) -> SwitchView {
        SwitchView {
            name: self.name@,
            args: match self.args {
                Some(args) => Some(texts_of(args@)),
                None => None,
            },
        }
    }
}

/// What was written after a switch, as character sequences.
pub open spec fn args_of(switch: Switch) -> Option<Seq<Seq<char>>> {
    switch@.args
}

/// Whether `name` is the name of `status`, in small letters.
pub open spec fn status_matches(status: TaskStatus, name: Seq<char>) -> bool {
    ||| name == "completed"@ && status is Completed
    ||| name == "todo"@ && status is Todo
    ||| name == "postponed"@ && status is Postponed
    ||| name == "expired"@ && status is Expired
    ||| name == "aborted"@ && status is Aborted
}

/// The date by which a task counts: the one that its status carries, or
/// else its deadline.
pub open spec fn key_date(task: TaskView) -> Timestamp {
    match task.status {
        TaskStatus::Postponed(at) | TaskStatus::Expired(at) | TaskStatus::Aborted(at) => at,
        _ => task.deadline.date,
    }
}

/// Whether the two moments fall on the same day of the calendar.
pub open spec fn same_day(first: CivilTime, second: CivilTime) -> bool {
    first.day == second.day && first.month == second.month && first.year == second.year
}

/// Whether the description of the task at a position starts with `prefix`,
/// capital letters counting as their lower-case forms.
pub open spec fn thing_starts(tasks: Seq<Task>, prefix: Seq<char>) -> spec_fn(usize) -> bool {
    |p: usize| lowered(prefix).is_prefix_of(lowered(tasks[p as int]@.thing))
}

/// Whether the status of the task at a position has the name `name`.
pub open spec fn status_named(tasks: Seq<Task>, name: Seq<char>) -> spec_fn(usize) -> bool {
    |p: usize| status_matches(tasks[p as int]@.status, name)
}

/// Whether the task at a position counts on the day of `day`.
pub open spec fn dated_on(tasks: Seq<Task>, day: CivilTime) -> spec_fn(usize) -> bool {
    |p: usize| same_day(key_date(tasks[p as int]@).local, day)
}

/// The moments of the deadlines of `tasks`, in seconds.
pub open spec fn deadline_keys(tasks: Seq<Task>) -> Seq<int> {
    Seq::new(tasks.len(), |i: int| epoch_seconds(tasks[i]@.deadline.date))
}

/// The moments of the dates by which `tasks` count, in seconds.
pub open spec fn date_keys(tasks: Seq<Task>) -> Seq<int> {
    Seq::new(tasks.len(), |i: int| epoch_seconds(key_date(tasks[i]@)))
}

/// What a switch makes of the positions `before`. Where no position is
/// left, the switch is not looked at. `thing` and `status` keep the tasks
/// whose description starts with, or whose status is named by, what follows
/// the switch; `date` keeps the tasks that count on the day that follows it,
/// read against `now`, or, with nothing after it, puts the tasks in the
/// order of the dates by which they count; `deadline` puts them in the order
/// of their deadlines.
pub open spec fn switched(
    tasks: Seq<Task>,
    now: CivilTime,
    before: Seq<usize>,
    switch: Switch,
) -> Result<Seq<usize>, ShowError> {
    let name = without_dashes(lowered(switch.name@));
    let args = args_of(switch);
    if before.len() == 0 {
        Ok(before)
    } else if name == "thing"@ {
        match args {
            Some(words) => Ok(before.filter(thing_starts(tasks, joined(words, Seq::empty())))),
            None => Err(ShowError::MissingArguments),
        }
    } else if name == "status"@ {
        match args {
            Some(words) => Ok(before.filter(status_named(tasks, joined(words, Seq::empty())))),
            None => Err(ShowError::MissingArguments),
        }
    } else if name == "deadline"@ {
        match args {
            Some(_) => Err(ShowError::UnexpectedArguments),
            None => Ok(sorted_by(before, deadline_keys(tasks))),
        }
    } else if name == "date"@ {
        match args {
            Some(words) => match resolved(joined(words, seq![' ']), now) {
                Ok(day) => Ok(before.filter(dated_on(tasks, day))),
                Err(e) => Err(ShowError::Date(e)),
            },
            None => Ok(sorted_by(before, date_keys(tasks))),
        }
    } else {
        Err(ShowError::UnknownSwitch)
    }
}

/// The positions of the tasks to show after the switches `switches`, one
/// after the other from the first, in the order in which to show them. With
/// no switch these are all the tasks in their own order.
pub open spec fn listed(tasks: Seq<Task>, now: CivilTime, switches: Seq<Switch>) -> Result<
    Seq<usize>,
    ShowError,
>
    decreases switches.len(),
{
    if switches.len() == 0 {
        Ok(positions_between(0, tasks.len() as int))
    } else {
        match listed(tasks, now, switches.drop_last()) {
            Ok(before) => switched(tasks, now, before, switches.last()),
            Err(e) => Err(e),
        }
    }
}

/// What a result says of positions, the positions taken by their view.
pub open spec fn shown_of(shown: Result<Vec<usize>, ShowError>) -> Result<Seq<usize>, ShowError> {
    match shown {
        Ok(positions) => Ok(positions@),
        Err(e) => Err(e),
    }
}

/// Whether `status` is the name of the status of `task`, in small letters.
pub fn match_status(task: &Task, status: &str) -> (matches: bool)
    ensures
        matches == status_matches(task@.status, status@),
{
    let name = chars_of(status);
    match task.status() {
        TaskStatus::Completed => same_chars(&name, &chars_of("completed")),
        TaskStatus::Todo => same_chars(&name, &chars_of("todo")),
        TaskStatus::Postponed(_) => same_chars(&name, &chars_of("postponed")),
        TaskStatus::Expired(_) => same_chars(&name, &chars_of("expired")),
        TaskStatus::Aborted(_) => same_chars(&name, &chars_of("aborted")),
    }
}

/// The date by which `task` counts.
pub fn date_of(task: &Task) -> (date: Timestamp)
    requires
        task.wf(),
    ensures
        date == key_date(task@),
        date.valid(),
{
    match task.status() {
        TaskStatus::Postponed(at) | TaskStatus::Expired(at) | TaskStatus::Aborted(at) => at,
        _ => task.deadline().date,
    }
}

/// Which of the three tests a task has to pass to be kept.
enum Keep {
    ThingStarts(Vec<char>),
    StatusNamed(String),
    DatedOn(CivilTime),
}

impl Keep {
    spec fn test(self, tasks: Seq<Task>) -> spec_fn(usize) -> bool {
        match self {
            Keep::ThingStarts(prefix) => thing_starts(tasks, prefix@),
            Keep::StatusNamed(name) => status_named(tasks, name@),
            Keep::DatedOn(day) => dated_on(tasks, day),
        }
    }
}

/// The positions of `before` whose tasks pass the test.
fn keep_positions(tasks: &Vec<Task>, before: &Vec<usize>, keep: &Keep) -> (kept: Vec<usize>)
    requires
        all_wf(tasks@),
        in_range(before@, tasks@.len()),
    ensures
        kept@ == before@.filter(keep.test(tasks@)),
        in_range(kept@, tasks@.len()),
{
    let mut kept: Vec<usize> = Vec::new();
    let mut i: usize = 0;
    assert(before@.take(0).filter(keep.test(tasks@)) == Seq::<usize>::empty()) by {
        reveal(Seq::filter);
    }
    while i < before.len()
        invariant
            i <= before@.len(),
            all_wf(tasks@),
            in_range(before@, tasks@.len()),
            in_range(kept@, tasks@.len()),
            kept@ == before@.take(i as int).filter(keep.test(tasks@)),
        decreases before.len() - i,
    {
        let position = before[i];
        let task = &tasks[position];
        assert(tasks@[position as int].wf());
        let passes = match keep {
            Keep::ThingStarts(prefix) => {
                let thing = to_lowered(&chars_of(task.thing().as_str()));
                has_prefix(&thing, &to_lowered(prefix))
            },
            Keep::StatusNamed(name) => match_status(task, name.as_str()),
            Keep::DatedOn(day) => {
                let date = date_of(task).local;
                date.day == day.day && date.month == day.month && date.year == day.year
            },
        };
        proof {
            assert(before@.take(i + 1) == before@.take(i as int).push(position));
            before@.take(i as int).lemma_filter_push(position, keep.test(tasks@));
            assert(passes == (keep.test(tasks@))(position));
        }
        if passes {
            kept.push(position);
        }
        i += 1;
    }
    assert(before@.take(i as int) == before@);
    kept
}

/// The moments of the deadlines of `tasks`, or of the dates by which they
/// count, in seconds.
fn keys_of(tasks: &Vec<Task>, by_deadline: bool) -> (keys: Vec<i64>)
    requires
        all_wf(tasks@),
    ensures
        as_ints(keys@) == if by_deadline {
            deadline_keys(tasks@)
        } else {
            date_keys(tasks@)
        },
        keys@.len() == tasks@.len(),
{
    let mut keys: Vec<i64> = Vec::new();
    let mut i: usize = 0;
    while i < tasks.len()
        invariant
            i <= tasks@.len(),
            all_wf(tasks@),
            keys@.len() == i,
            forall|k: int|
                0 <= k < i ==> keys@[k] as int == if by_deadline {
                    deadline_keys(tasks@)[k]
                } else {
                    date_keys(tasks@)[k]
                },
        decreases tasks.len() - i,
    {
        assert(tasks@[i as int].wf());
        let key = if by_deadline {
            tasks[i].deadline().date.seconds_since_epoch()
        } else {
            date_of(&tasks[i]).seconds_since_epoch()
        };
        keys.push(key);
        i += 1;
    }
    keys
}

/// What `switch` makes of the positions `before`.
pub fn apply_switch(tasks: &Vec<Task>, now: &CivilTime, before: Vec<usize>, switch: &Switch) -> (after:
    Result<Vec<usize>, ShowError>)
    requires
        all_wf(tasks@),
        now.valid(),
        in_range(before@, tasks@.len()),
    ensures
        shown_of(after) == switched(tasks@, *now, before@, *switch),
        after matches Ok(positions) ==> in_range(positions@, tasks@.len()),
{
    if before.len() == 0 {
        return Ok(before);
    }
    let name = strip_dashes(&to_lowered(&chars_of(switch.name.as_str())));
    if same_chars(&name, &chars_of("thing")) {
        match &switch.args {
            Some(words) => {
                let keep = Keep::ThingStarts(join(words, ""));
                proof {
                    reveal_strlit("");
                    assert(""@ == Seq::<char>::empty());
                }
                Ok(keep_positions(tasks, &before, &keep))
            },
            None => Err(ShowError::MissingArguments),
        }
    } else if same_chars(&name, &chars_of("status")) {
        match &switch.args {
            Some(words) => {
                let keep = Keep::StatusNamed(string_of(&join(words, "")));
                proof {
                    reveal_strlit("");
                    assert(""@ == Seq::<char>::empty());
                }
                Ok(keep_positions(tasks, &before, &keep))
            },
            None => Err(ShowError::MissingArguments),
        }
    } else if same_chars(&name, &chars_of("deadline")) {
        match &switch.args {
            Some(_) => Err(ShowError::UnexpectedArguments),
            None => Ok(sort_positions(&before, &keys_of(tasks, true))),
        }
    } else if same_chars(&name, &chars_of("date")) {
        match &switch.args {
            Some(words) => {
                proof {
                    reveal_strlit(" ");
                    assert(" "@ == seq![' ']);
                }
                match resolve(string_of(&join(words, " ")).as_str(), now) {
                    Ok(day) => Ok(keep_positions(tasks, &before, &Keep::DatedOn(day))),
                    Err(e) => Err(ShowError::Date(e)),
                }
            },
            None => Ok(sort_positions(&before, &keys_of(tasks, false))),
        }
    } else {
        Err(ShowError::UnknownSwitch)
    }
}

/// The positions of the tasks to show after the switches `switches`, in the
/// order in which to show them, where the present moment is `now`.
pub fn show_tasks_at(tasks: &Vec<Task>, switches: &Vec<Switch>, now: &CivilTime) -> (shown: Result<
    Vec<usize>,
    ShowError,
>)
    requires
        all_wf(tasks@),
        now.valid(),
    ensures
        shown_of(shown) == listed(tasks@, *now, switches@),
        shown matches Ok(positions) ==> in_range(positions@, tasks@.len()),
{
    let mut positions: Vec<usize> = Vec::new();
    let mut p: usize = 0;
    while p < tasks.len()
        invariant
            p <= tasks@.len(),
            positions@ == positions_between(0, p as int),
        decreases tasks.len() - p,
    {
        positions.push(p);
        p += 1;
    }
    let mut i: usize = 0;
    assert(switches@.take(0) == Seq::<Switch>::empty());
    while i < switches.len()
        invariant
            i <= switches@.len(),
            all_wf(tasks@),
            now.valid(),
            in_range(positions@, tasks@.len()),
            listed(tasks@, *now, switches@.take(i as int)) == Ok::<Seq<usize>, ShowError>(
                positions@,
            ),
        decreases switches.len() - i,
    {
        assert(switches@.take(i + 1).drop_last() == switches@.take(i as int));
        assert(switches@.take(i + 1).last() == switches@[i as int]);
        let ghost switch = switches@[i as int];
        match apply_switch(tasks, now, positions, &switches[i]) {
            Ok(after) => {
                positions = after;
            },
            Err(e) => {
                proof {
                    lemma_listed_error(tasks@, *now, switches@, i + 1, e);
                }
                return Err(e);
            },
        }
        i += 1;
    }
    assert(switches@.take(i as int) == switches@);
    Ok(positions)
}

/// An error after some of the switches is the error after all of them.
proof fn lemma_listed_error(
    tasks: Seq<Task>,
    now: CivilTime,
    switches: Seq<Switch>,
    count: int,
    error: ShowError,
)
    requires
        0 <= count <= switches.len(),
        listed(tasks, now, switches.take(count)) == Err::<Seq<usize>, ShowError>(error),
    ensures
        listed(tasks, now, switches) == Err::<Seq<usize>, ShowError>(error),
    decreases switches.len() - count,
{
    if count == switches.len() {
        assert(switches.take(count) == switches);
    } else {
        assert(switches.take(count + 1).drop_last() == switches.take(count));
        lemma_listed_error(tasks, now, switches, count + 1, error);
    }
}

/// Whether the switch reads a date against the present moment: it is
/// `date`, and something is written after it.
pub open spec fn names_a_date(switch: Switch) -> bool {
    without_dashes(lowered(switch.name@)) == "date"@ && switch@.args is Some
}

/// Whether one of the switches reads a date against the present moment.
pub open spec fn reads_a_date(switches: Seq<Switch>) -> bool {
    exists|i: int| 0 <= i < switches.len() && names_a_date(#[trigger] switches[i])
}

/// Where no switch reads a date, the present moment does not count.
pub proof fn lemma_listed_without_dates(
    tasks: Seq<Task>,
    first: CivilTime,
    second: CivilTime,
    switches: Seq<Switch>,
)
    requires
        !reads_a_date(switches),
    ensures
        listed(tasks, first, switches) == listed(tasks, second, switches),
    decreases switches.len(),
{
    if switches.len() > 0 {
        let head = switches.drop_last();
        assert(!reads_a_date(head)) by {
            if reads_a_date(head) {
                let i = choose|i: int| 0 <= i < head.len() && names_a_date(#[trigger] head[i]);
                assert(head[i] == switches[i]);
            }
        }
        lemma_listed_without_dates(tasks, first, second, head);
        assert(!names_a_date(switches[switches.len() - 1]));
    }
}

/// Where there is no task, none is shown, whatever the switches.
pub proof fn lemma_listed_of_no_tasks(tasks: Seq<Task>, now: CivilTime, switches: Seq<Switch>)
    requires
        tasks.len() == 0,
    ensures
        listed(tasks, now, switches) == Ok::<Seq<usize>, ShowError>(Seq::empty()),
    decreases switches.len(),
{
    if switches.len() > 0 {
        lemma_listed_of_no_tasks(tasks, now, switches.drop_last());
    } else {
        assert(positions_between(0, 0) == Seq::<usize>::empty());
    }
}

/// Whether one of the switches reads a date against the present moment.
pub fn has_date_switch(switches: &Vec<Switch>) -> (has: bool)
    ensures
        has == reads_a_date(switches@),
{
    let mut i: usize = 0;
    while i < switches.len()
        invariant
            i <= switches@.len(),
            forall|k: int| 0 <= k < i ==> !names_a_date(#[trigger] switches@[k]),
        decreases switches.len() - i,
    {
        let name = strip_dashes(&to_lowered(&chars_of(switches[i].name.as_str())));
        if same_chars(&name, &chars_of("date")) && switches[i].args.is_some() {
            return true;
        }
        i += 1;
    }
    false
}

/// Whether the switches cannot be met, for the reason `error`, at every
/// valid present moment.
pub open spec fn always_refused(tasks: Seq<Task>, switches: Seq<Switch>, error: ShowError) -> bool {
    forall|now: CivilTime|
        now.valid() ==> #[trigger] listed(tasks, now, switches) == Err::<Seq<usize>, ShowError>(
            error,
        )
}

/// The positions of the tasks to show after the switches `switches`, in the
/// order in which to show them. The clock is asked only where there are
/// tasks and a switch reads a date: else the outcome is the listing as it is
/// for every present moment, and with no task nothing is shown whatever the
/// switches. Where the clock is asked, the outcome is that for some valid
/// present moment; a clock without a valid time leaves dates without a valid
/// format, unless the switches cannot be met at any moment, for a reason
/// that then comes back.
pub fn show_tasks(tasks: &Vec<Task>, switches: &Vec<Switch>) -> (shown: Result<
    Vec<usize>,
    ShowError,
>)
    requires
        all_wf(tasks@),
    ensures
        tasks@.len() == 0 ==> shown_of(shown) == Ok::<Seq<usize>, ShowError>(Seq::empty()),
        tasks@.len() == 0 || !reads_a_date(switches@) ==> shown_of(shown) == listed(
            tasks@,
            start_of_epoch(),
            switches@,
        ),
        forall|e: ShowError| #[trigger]
            always_refused(tasks@, switches@, e) ==> shown == Err::<Vec<usize>, ShowError>(e),
        shown == Err::<Vec<usize>, ShowError>(ShowError::Date(DateError::InvalidFormat)) || exists|
            now: CivilTime,
        |
            now.valid() && shown_of(shown) == #[trigger] listed(tasks@, now, switches@),
        shown matches Ok(positions) ==> in_range(positions@, tasks@.len()),
{
    if tasks.len() == 0 || !has_date_switch(switches) {
        proof {
            if tasks@.len() == 0 {
                lemma_listed_of_no_tasks(tasks@, start_of_epoch(), switches@);
            }
        }
        let shown = show_tasks_at(tasks, switches, &epoch_start());
        proof {
            assert forall|e: ShowError| #[trigger]
                always_refused(tasks@, switches@, e) implies shown == Err::<
                Vec<usize>,
                ShowError,
            >(e) by {
                assert(listed(tasks@, start_of_epoch(), switches@) == Err::<
                    Seq<usize>,
                    ShowError,
                >(e));
            }
        }
        return shown;
    }
    match Timestamp::date_now() {
        Some(now) => {
            let shown = show_tasks_at(tasks, switches, &now.local);
            proof {
                assert forall|e: ShowError| #[trigger]
                    always_refused(tasks@, switches@, e) implies shown == Err::<
                    Vec<usize>,
                    ShowError,
                >(e) by {
                    assert(listed(tasks@, now.local, switches@) == Err::<Seq<usize>, ShowError>(
                        e,
                    ));
                }
            }
            shown
        },
        None => {
            let fallen = match show_tasks_at(tasks, switches, &epoch_start()) {
                Err(e) => e,
                Ok(_) => ShowError::Date(DateError::InvalidFormat),
            };
            proof {
                assert forall|e: ShowError| #[trigger]
                    always_refused(tasks@, switches@, e) implies e == fallen by {
                    assert(listed(tasks@, start_of_epoch(), switches@) == Err::<
                        Seq<usize>,
                        ShowError,
                    >(e));
                }
            }
            Err(fallen)
        },
    }
}

} // verus!
