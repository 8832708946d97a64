use rutodo::calendar::{CivilTime, Timestamp};
use rutodo::edit::{EditTaskConfig, Field, StatusRequest};
use rutodo::labels::{next_id, sort_ids};
use rutodo::resolver::DateError;
use rutodo::store::TaskError;
use rutodo::task::{label_of, number_of_label, Deadline, Task, TaskStatus};
use rutodo::tasks_file_manager::{decode_line, get_saved_tasks, record_of};

fn stamp(year: i32, month: u32, day: u32, hour: u32, minute: u32, offset: i32) -> Timestamp {
    Timestamp { local: CivilTime { year, month, day, hour, minute }, offset }
}

fn due() -> Deadline {
    Deadline { date: stamp(2024, 1, 11, 18, 0, 3600) }
}

fn numbered(numbers: &[u64]) -> Vec<Task> {
    numbers.iter().map(|n| Task::new("x", due(), *n).unwrap()).collect()
}

fn labels(tasks: &Vec<Task>) -> Vec<String> {
    tasks.iter().map(|t| t.label().clone()).collect()
}

#[test]
fn gaps_are_filled_before_the_counter_grows() {
    let mut tasks = numbered(&[1, 2, 4, 6]);
    Task::add_task_due(&mut tasks, "a", Ok(due())).unwrap();
    assert_eq!(tasks.last().unwrap().label(), "Task 3");
    Task::add_task_due(&mut tasks, "b", Ok(due())).unwrap();
    assert_eq!(tasks.last().unwrap().label(), "Task 5");
    Task::add_task_due(&mut tasks, "c", Ok(due())).unwrap();
    assert_eq!(tasks.last().unwrap().label(), "Task 7");
    assert_eq!(tasks.len(), 7);
}

#[test]
fn gap_below_the_smallest_label_comes_first() {
    let mut tasks = numbered(&[3, 5]);
    Task::add_task_due(&mut tasks, "a", Ok(due())).unwrap();
    assert_eq!(tasks.last().unwrap().label(), "Task 1");
    Task::add_task_due(&mut tasks, "b", Ok(due())).unwrap();
    assert_eq!(tasks.last().unwrap().label(), "Task 2");
    Task::add_task_due(&mut tasks, "c", Ok(due())).unwrap();
    assert_eq!(tasks.last().unwrap().label(), "Task 4");
}

#[test]
fn labels_of_two_digits_count_in_full() {
    let mut tasks = numbered(&[1, 2, 3, 4, 5, 6, 7, 8, 9, 10, 11]);
    Task::add_task_due(&mut tasks, "a", Ok(due())).unwrap();
    assert_eq!(tasks.last().unwrap().label(), "Task 12");
}

#[test]
fn first_task_gets_label_one() {
    let mut tasks = Vec::new();
    let file = Task::add_task_due(&mut tasks, "buy milk, eggs", Ok(due())).unwrap();
    assert_eq!(tasks.len(), 1);
    assert_eq!(tasks[0].label(), "Task 1");
    assert_eq!(tasks[0].status(), TaskStatus::Todo);
    assert_eq!(tasks[0].thing(), "buy milk, eggs");
    assert_eq!(tasks[0].deadline(), due());
    assert_eq!(file, format!("{}\n", record_of(&tasks[0])));
}

#[test]
fn available_ids_in_ascending_order() {
    let mut ids = vec![6, 1, 4, 2];
    assert_eq!(Task::find_available_ids(&mut ids), vec![3, 5]);
    assert_eq!(ids, vec![1, 2, 4, 6]);
    let mut ids = vec![5, 3];
    assert_eq!(Task::find_available_ids(&mut ids), vec![1, 2, 4]);
    let mut ids: Vec<u64> = vec![];
    assert_eq!(Task::find_available_ids(&mut ids), Vec::<u64>::new());
    let mut ids = vec![1, 2, 3];
    assert_eq!(Task::find_available_ids(&mut ids), Vec::<u64>::new());
    let mut ids = vec![2, 2, 4, 4];
    assert_eq!(Task::find_available_ids(&mut ids), vec![1, 3]);
    let mut ids = vec![0, 2];
    assert_eq!(Task::find_available_ids(&mut ids), vec![1]);
}

#[test]
fn next_id_is_the_least_unused() {
    assert_eq!(next_id(&mut vec![]), Some(1));
    assert_eq!(next_id(&mut vec![1, 2, 3]), Some(4));
    assert_eq!(next_id(&mut vec![3, 1]), Some(2));
    assert_eq!(next_id(&mut vec![1, 1]), Some(2));
    assert_eq!(next_id(&mut vec![0]), Some(1));
    assert_eq!(next_id(&mut vec![u64::MAX]), Some(1));
    assert_eq!(next_id(&mut vec![u64::MAX, 1, 2]), Some(3));
}

#[test]
fn sorting_keeps_the_members() {
    let mut ids = vec![5, 3, 9, 3, 1, 0, 7];
    sort_ids(&mut ids);
    assert_eq!(ids, vec![0, 1, 3, 3, 5, 7, 9]);
}

#[test]
fn all_ids_of_the_tasks() {
    assert_eq!(Task::get_all_ids(&numbered(&[4, 12, 1])), vec![4, 12, 1]);
    let mut tasks = numbered(&[2]);
    tasks.push(Task::from_parts("x", TaskStatus::Todo, due(), "Task 007").unwrap());
    tasks.push(Task::from_parts("x", TaskStatus::Todo, due(), "shopping").unwrap());
    tasks.push(Task::from_parts("x", TaskStatus::Todo, due(), "Task 1").unwrap());
    assert_eq!(Task::get_all_ids(&tasks), vec![2, 1]);
    Task::add_task_due(&mut tasks, "y", Ok(due())).unwrap();
    assert_eq!(tasks.last().unwrap().label(), "Task 3");
    assert_eq!(Task::delete_task(&mut tasks, "007").map(|_| tasks.len()), Ok(4));
}

#[test]
fn labels_and_numbers() {
    assert_eq!(label_of(1), "Task 1");
    assert_eq!(label_of(120), "Task 120");
    assert_eq!(label_of(u64::MAX), "Task 18446744073709551615");
    assert_eq!(number_of_label("Task 120"), Some(120));
    assert_eq!(number_of_label("Task 18446744073709551615"), Some(u64::MAX));
    assert_eq!(number_of_label("Task 18446744073709551616"), None);
    assert_eq!(number_of_label("Task 0"), None);
    assert_eq!(number_of_label("Task 007"), None);
    assert_eq!(number_of_label("Task "), None);
    assert_eq!(number_of_label("task 1"), None);
    assert_eq!(number_of_label("Task 1 "), None);
    assert_eq!(Task::new("x", due(), 0), None);
    assert_eq!(Task::new("x", Deadline { date: stamp(2023, 2, 29, 0, 0, 0) }, 1), None);
}

#[test]
fn adding_fails_without_a_description_or_a_deadline() {
    let mut tasks = numbered(&[1]);
    assert_eq!(Task::add_task_due(&mut tasks, "", Ok(due())), Err(TaskError::EmptyDescription));
    assert_eq!(
        Task::add_task_due(&mut tasks, "x", Err(DateError::NonNumericComponent)),
        Err(TaskError::Parse(DateError::NonNumericComponent))
    );
    assert_eq!(Task::add_task(&mut tasks, "", "tomorrow"), Err(TaskError::EmptyDescription));
    assert_eq!(
        Task::add_task(&mut tasks, "x", ""),
        Err(TaskError::Parse(DateError::MissingValue))
    );
    assert_eq!(
        Task::add_task(&mut tasks, "x", "1o/06/2023"),
        Err(TaskError::Parse(DateError::NonNumericComponent))
    );
    assert_eq!(
        Task::add_task(&mut tasks, "x", "99999999999:00"),
        Err(TaskError::Parse(DateError::UnparsableNumber))
    );
    assert_eq!(labels(&tasks), vec!["Task 1"]);
}

#[test]
fn adding_against_the_clock() {
    let mut tasks = Vec::new();
    match Task::add_task(&mut tasks, "buy milk, eggs", "10/06/2023 12:30") {
        Ok(file) => {
            assert_eq!(tasks.len(), 1);
            assert_eq!(tasks[0].label(), "Task 1");
            let local = CivilTime { year: 2023, month: 6, day: 10, hour: 12, minute: 30 };
            assert_eq!(tasks[0].deadline().date.local, local);
            assert_eq!(get_saved_tasks(&file), Ok(tasks));
        }
        Err(e) => assert_eq!(e, TaskError::Parse(DateError::InvalidFormat)),
    }
}

#[test]
fn end_to_end_example() {
    let reference = stamp(2024, 1, 10, 8, 0, 3600);
    let moment = rutodo::resolver::resolve("tomorrow 18:00", &reference.local).unwrap();
    assert_eq!(moment, CivilTime { year: 2024, month: 1, day: 11, hour: 18, minute: 0 });
    let date = Timestamp::in_zone(&moment, Some(3600)).unwrap();
    let mut tasks = Vec::new();
    let file = Task::add_task_due(&mut tasks, "buy milk, eggs", Ok(Deadline { date })).unwrap();
    let task = &tasks[0];
    assert_eq!(task.deadline().date, stamp(2024, 1, 11, 18, 0, 3600));
    assert_eq!(task.status(), TaskStatus::Todo);
    assert_eq!(task.label(), "Task 1");
    assert_eq!(
        file,
        "Task { thing: \"buy milk, eggs\", status: Todo, label: Task 1, deadline: 2024-01-11T18:00:00+01:00 }\n"
    );
    assert_eq!(decode_line(file.trim_end()).as_ref(), Ok(task));
}

#[test]
fn deleting_all_empties_the_collection_and_the_file() {
    let mut tasks = numbered(&[1, 2, 3]);
    assert_eq!(Task::delete_task(&mut tasks, "all"), Ok(String::new()));
    assert!(tasks.is_empty());
    assert_eq!(Task::delete_task(&mut tasks, "all"), Ok(String::new()));
}

#[test]
fn deleting_one_task() {
    let mut tasks = numbered(&[1, 2, 3]);
    let file = Task::delete_task(&mut tasks, "2").unwrap();
    assert_eq!(labels(&tasks), vec!["Task 1", "Task 3"]);
    assert_eq!(get_saved_tasks(&file), Ok(tasks));
}

#[test]
fn deleting_a_label_twice_over() {
    let mut tasks = numbered(&[2, 1, 2, 3, 2]);
    Task::delete_task(&mut tasks, "2").unwrap();
    assert_eq!(labels(&tasks), vec!["Task 1", "Task 3"]);
}

#[test]
fn deleting_what_is_not_there() {
    let mut tasks = numbered(&[1, 3]);
    assert_eq!(Task::delete_task(&mut tasks, "2"), Err(TaskError::NotFound));
    assert_eq!(Task::delete_task(&mut tasks, "02"), Err(TaskError::NotFound));
    assert_eq!(Task::delete_task(&mut tasks, ""), Err(TaskError::NotFound));
    assert_eq!(labels(&tasks), vec!["Task 1", "Task 3"]);
}

#[test]
fn position_of_a_label() {
    let tasks = numbered(&[4, 2, 4]);
    assert_eq!(Task::position_of(&tasks, "Task 4"), Some(0));
    assert_eq!(Task::position_of(&tasks, "Task 2"), Some(1));
    assert_eq!(Task::position_of(&tasks, "Task 1"), None);
}

#[test]
fn editing_the_description() {
    let mut tasks = numbered(&[1, 2]);
    let file = Task::edit_task(&mut tasks, "2", "--thing", "new, text: \"here\"").unwrap();
    assert_eq!(tasks[1].thing(), "new, text: \"here\"");
    assert_eq!(tasks[0].thing(), "x");
    assert_eq!(get_saved_tasks(&file), Ok(tasks));
}

#[test]
fn editing_the_status() {
    let mut tasks = numbered(&[1, 2]);
    Task::edit_task(&mut tasks, "1", "status", "Completed").unwrap();
    assert_eq!(tasks[0].status(), TaskStatus::Completed);
    Task::edit_task(&mut tasks, "1", "--STATUS", "todo").unwrap();
    assert_eq!(tasks[0].status(), TaskStatus::Todo);
    let moved = Task::edit_task_in_zone(&mut tasks, "1", "status", "postponed tomorrow", Some(7200), None);
    assert!(moved.is_ok());
    assert_eq!(tasks[0].status(), TaskStatus::Postponed(stamp(2024, 1, 12, 18, 0, 7200)));
    let again = Task::edit_task_in_zone(&mut tasks, "1", "status", "postponed tomorrow 09:15", Some(7200), None);
    assert!(again.is_ok());
    assert_eq!(tasks[0].status(), TaskStatus::Postponed(stamp(2024, 1, 13, 9, 15, 7200)));
    assert_eq!(tasks[0].deadline(), due());
}

#[test]
fn editing_fails_and_changes_nothing() {
    let mut tasks = numbered(&[1, 2]);
    let before = tasks.clone();
    assert_eq!(Task::edit_task(&mut tasks, "3", "thing", "y"), Err(TaskError::NotFound));
    assert_eq!(Task::edit_task(&mut tasks, "1", "deadline", "y"), Err(TaskError::UnknownField));
    assert_eq!(Task::edit_task(&mut tasks, "1", "status", "expired"), Err(TaskError::UnknownStatus));
    assert_eq!(Task::edit_task(&mut tasks, "1", "status", "done"), Err(TaskError::UnknownStatus));
    assert_eq!(
        Task::edit_task(&mut tasks, "1", "status", "postponed someday"),
        Err(TaskError::Parse(DateError::InvalidFormat))
    );
    assert_eq!(
        Task::edit_task(&mut tasks, "1", "status", "postponed "),
        Err(TaskError::Parse(DateError::MissingValue))
    );
    assert_eq!(
        Task::edit_task_in_zone(&mut tasks, "1", "status", "postponed tomorrow", None, None),
        Err(TaskError::Parse(DateError::InvalidFormat))
    );
    assert_eq!(
        Task::edit_task_in_zone(&mut tasks, "1", "status", "aborted", None, None),
        Err(TaskError::Parse(DateError::InvalidFormat))
    );
    assert_eq!(tasks, before);
}

#[test]
fn aborted_and_expired_tasks_cannot_be_edited() {
    let at = stamp(2024, 1, 12, 9, 0, 3600);
    for status in [TaskStatus::Aborted(at), TaskStatus::Expired(at)] {
        let mut tasks = vec![Task::from_parts("x", status, due(), "Task 1").unwrap()];
        let before = tasks.clone();
        assert_eq!(Task::edit_task(&mut tasks, "1", "thing", "y"), Err(TaskError::ImmutableState));
        assert_eq!(Task::edit_task(&mut tasks, "1", "status", "todo"), Err(TaskError::ImmutableState));
        assert_eq!(Task::edit_task(&mut tasks, "1", "colour", "red"), Err(TaskError::ImmutableState));
        assert_eq!(tasks, before);
        let mut task = tasks.remove(0);
        assert_eq!(EditTaskConfig::edit_thing(&mut task, "y"), Err(TaskError::ImmutableState));
        assert_eq!(EditTaskConfig::edit_status(&mut task, "completed"), Err(TaskError::ImmutableState));
        assert_eq!(task, before[0]);
        assert_eq!(Task::delete_task(&mut vec![task], "1"), Ok(String::new()));
    }
}

#[test]
fn aborting_at_the_present_moment() {
    let mut task = Task::new("x", due(), 1).unwrap();
    let now = stamp(2024, 1, 10, 8, 0, 3600);
    assert_eq!(EditTaskConfig::edit_status_in_zone(&mut task, "Aborted", None, Some(now)), Ok(()));
    assert_eq!(task.status(), TaskStatus::Aborted(now));
    let mut task = Task::new("x", due(), 1).unwrap();
    assert_eq!(EditTaskConfig::edit_status(&mut task, "aborted"), Ok(()));
    assert!(matches!(task.status(), TaskStatus::Aborted(_)));
}

#[test]
fn status_requests() {
    let task = Task::new("x", due(), 1).unwrap();
    assert_eq!(EditTaskConfig::status_request("completed", &task), Ok(StatusRequest::Completed));
    assert_eq!(EditTaskConfig::status_request("TODO", &task), Ok(StatusRequest::Todo));
    assert_eq!(EditTaskConfig::status_request("aborted", &task), Ok(StatusRequest::Aborted));
    assert_eq!(
        EditTaskConfig::status_request("postponed 12:30", &task),
        Ok(StatusRequest::Postponed(CivilTime { year: 2024, month: 1, day: 11, hour: 12, minute: 30 }))
    );
    assert_eq!(EditTaskConfig::status_request("postponed", &task), Err(TaskError::UnknownStatus));
    let postponed = TaskStatus::Postponed(stamp(2024, 3, 1, 10, 0, 3600));
    let task = Task::from_parts("x", postponed, due(), "Task 1").unwrap();
    assert_eq!(
        EditTaskConfig::status_request("postponed tomorrow", &task),
        Ok(StatusRequest::Postponed(CivilTime { year: 2024, month: 3, day: 2, hour: 10, minute: 0 }))
    );
    assert_eq!(EditTaskConfig::reference(&task), stamp(2024, 3, 1, 10, 0, 3600).local);
}

#[test]
fn fields_by_name() {
    assert_eq!(EditTaskConfig::field_of("thing"), Some(Field::Thing));
    assert_eq!(EditTaskConfig::field_of("--thing"), Some(Field::Thing));
    assert_eq!(EditTaskConfig::field_of("----Status"), Some(Field::Status));
    assert_eq!(EditTaskConfig::field_of("-thing"), None);
    assert_eq!(EditTaskConfig::field_of("label"), None);
    assert_eq!(EditTaskConfig::field_of(""), None);
}

#[test]
fn shown_task() {
    let postponed = TaskStatus::Postponed(stamp(2024, 3, 1, 10, 0, 3600));
    let task = Task::from_parts("buy milk", postponed, due(), "Task 2").unwrap();
    assert_eq!(
        task.to_string(),
        "Task 2\nThing: buy milk\nStatus: Postponed(01/03/2024 10:00)\nDeadline: 11/01/2024 18:00\n"
    );
    assert_eq!(TaskStatus::Todo.to_string(), "Todo");
    assert_eq!(TaskStatus::Completed.to_record_text(), "Completed");
}
