use rutodo::calendar::{CivilTime, Timestamp};
use rutodo::cli_manager::ShowError;
use rutodo::resolver::DateError;
use rutodo::store::TaskError;
use rutodo::task::{Deadline, Task, TaskStatus};
use rutodo::tasks_file_manager::{all_well_formed, get_saved_tasks, DecodeError};
use rutodo::utils::{parse_redirected_stream_of_show_tasks, ImportError};

fn stamp(year: i32, month: u32, day: u32, hour: u32, minute: u32, offset: i32) -> Timestamp {
    Timestamp { local: CivilTime { year, month, day, hour, minute }, offset }
}

fn numbered(numbers: &[u64]) -> Vec<Task> {
    let deadline = Deadline { date: stamp(2024, 1, 11, 18, 0, 3600) };
    numbers.iter().map(|n| Task::new("x", deadline, *n).unwrap()).collect()
}

#[test]
fn shown_tasks_are_taken_in_under_free_labels() {
    let mut tasks = numbered(&[1, 3]);
    let shown = "Task 9\nThing: buy milk, eggs\nStatus: Todo\nDeadline: 2024-01-11T18:00:00+01:00\n\nTask 9\nThing: call: mum\nStatus: completed\nDeadline: 2024-02-01T09:00:00+01:00\n";
    let file = parse_redirected_stream_of_show_tasks(&mut tasks, shown).unwrap();
    assert_eq!(tasks.len(), 4);
    assert_eq!(tasks[2].label(), "Task 2");
    assert_eq!(tasks[2].thing(), "buy milk, eggs");
    assert_eq!(tasks[2].status(), TaskStatus::Todo);
    assert_eq!(tasks[2].deadline().date, stamp(2024, 1, 11, 18, 0, 3600));
    assert_eq!(tasks[3].label(), "Task 4");
    assert_eq!(tasks[3].thing(), "call: mum");
    assert_eq!(tasks[3].status(), TaskStatus::Completed);
    assert!(all_well_formed(&tasks));
    assert_eq!(get_saved_tasks(&file), Ok(tasks));
}

#[test]
fn a_task_as_it_is_shown_comes_back() {
    let task = Task::new("water plants", Deadline { date: stamp(2024, 1, 11, 18, 0, 0) }, 5).unwrap();
    let mut tasks = Vec::new();
    match parse_redirected_stream_of_show_tasks(&mut tasks, &task.to_string()) {
        Ok(_) => {
            assert_eq!(tasks.len(), 1);
            assert_eq!(tasks[0].label(), "Task 1");
            assert_eq!(tasks[0].thing(), "water plants");
            assert_eq!(tasks[0].deadline().date.local, task.deadline().date.local);
        }
        Err(e) => assert_eq!(e, ImportError::Decode(DecodeError::InvalidTimestamp)),
    }
}

#[test]
fn nothing_to_take_in() {
    let mut tasks = numbered(&[1]);
    assert!(parse_redirected_stream_of_show_tasks(&mut tasks, "").is_ok());
    assert!(parse_redirected_stream_of_show_tasks(&mut tasks, "\n\n\n").is_ok());
    assert_eq!(tasks.len(), 1);
}

#[test]
fn one_bad_task_and_nothing_is_taken_in() {
    let mut tasks = numbered(&[1]);
    let shown = "Task 9\nThing: a\nStatus: Todo\nDeadline: 2024-01-11T18:00:00+01:00\n\nTask 9\nThing: b\nStatus: Todo\n";
    assert_eq!(
        parse_redirected_stream_of_show_tasks(&mut tasks, shown),
        Err(ImportError::Decode(DecodeError::MissingField))
    );
    assert_eq!(tasks, numbered(&[1]));
    let shown = "Task 9\nThing: a\nStatus: Later\nDeadline: 2024-01-11T18:00:00+01:00";
    assert_eq!(
        parse_redirected_stream_of_show_tasks(&mut tasks, shown),
        Err(ImportError::Decode(DecodeError::UnknownStatus))
    );
    assert_eq!(tasks, numbered(&[1]));
}

#[test]
fn messages_are_one_line_each() {
    let dates = [
        DateError::MissingValue,
        DateError::NonNumericComponent,
        DateError::UnparsableNumber,
        DateError::InvalidFormat,
    ];
    let mut lines: Vec<String> = dates.iter().map(|e| e.message()).collect();
    for e in dates {
        assert!(e.message().contains("tomorrow 12:30"));
        assert_eq!(TaskError::Parse(e).message(), e.message());
        assert_eq!(ShowError::Date(e).message(), e.message());
    }
    for e in [
        DecodeError::MissingMarker,
        DecodeError::MissingThing,
        DecodeError::MalformedField,
        DecodeError::MissingField,
        DecodeError::UnknownStatus,
        DecodeError::InvalidTimestamp,
    ] {
        lines.push(e.message());
        assert_eq!(ImportError::Decode(e).message(), e.message());
    }
    for e in [
        TaskError::NotFound,
        TaskError::ImmutableState,
        TaskError::EmptyDescription,
        TaskError::UnknownField,
        TaskError::UnknownStatus,
        TaskError::LabelsExhausted,
    ] {
        lines.push(e.message());
    }
    for e in [ShowError::MissingArguments, ShowError::UnexpectedArguments, ShowError::UnknownSwitch] {
        lines.push(e.message());
    }
    lines.push(ImportError::LabelsExhausted.message());
    for line in lines.iter() {
        assert!(!line.is_empty());
        assert!(!line.contains('\n'));
    }
    assert_eq!(TaskError::EmptyDescription.message(), "Task thing cannot be empty");
}
