use rutodo::calendar::{CivilTime, Timestamp};
use rutodo::field_map::FieldMap;
use rutodo::task::{Deadline, Task, TaskStatus};
use rutodo::tasks_file_manager::{
    between_brackets, deadline_with, decode_line, decode_line_in_zone, get_saved_tasks,
    parse_deadline, parse_status, parse_task_fields, parse_task_from_file, record_of, save_tasks,
    status_with, DecodeError,
};

fn stamp(year: i32, month: u32, day: u32, hour: u32, minute: u32, offset: i32) -> Timestamp {
    Timestamp { local: CivilTime { year, month, day, hour, minute }, offset }
}

fn task(thing: &str, status: TaskStatus, number: u64) -> Task {
    let deadline = Deadline { date: stamp(2024, 1, 11, 18, 0, 3600) };
    let label = format!("Task {}", number);
    Task::from_parts(thing, status, deadline, &label).unwrap()
}

#[test]
fn record_of_a_task() {
    let t = task("buy milk, eggs", TaskStatus::Todo, 1);
    assert_eq!(
        record_of(&t),
        "Task { thing: \"buy milk, eggs\", status: Todo, label: Task 1, deadline: 2024-01-11T18:00:00+01:00 }"
    );
}

#[test]
fn record_of_a_postponed_task() {
    let t = task("x", TaskStatus::Postponed(stamp(2024, 2, 1, 9, 5, -19800)), 12);
    assert_eq!(
        record_of(&t),
        "Task { thing: \"x\", status: Postponed(2024-02-01T09:05:00-05:30), label: Task 12, deadline: 2024-01-11T18:00:00+01:00 }"
    );
}

#[test]
fn round_trip_with_delimiters_in_the_description() {
    let things = [
        "buy milk, eggs",
        "a: b, c: d",
        "say \"hello\"",
        "\", status: Todo, label: Task 9, deadline: 2000-01-01T00:00:00+00:00 }",
        "status: Completed",
        "",
        "\"",
        "ends with a quote\"",
        "Task { thing: \"nested\" }",
        "żółć, ünïcödé: 日本語",
    ];
    let statuses = [
        TaskStatus::Todo,
        TaskStatus::Completed,
        TaskStatus::Postponed(stamp(2024, 2, 29, 23, 59, 0)),
        TaskStatus::Expired(stamp(1999, 12, 31, 0, 0, -43200)),
        TaskStatus::Aborted(stamp(5, 1, 1, 1, 1, 50400)),
    ];
    for thing in things.iter() {
        for status in statuses.iter() {
            let t = task(thing, *status, 7);
            let line = record_of(&t);
            assert_eq!(decode_line(&line), Ok(t.clone()));
            assert_eq!(decode_line_in_zone(&line, None), Ok(t));
        }
    }
}

#[test]
fn first_and_last_valid_years_round_trip() {
    for year in [0, 9999] {
        let date = stamp(year, 12, 31, 23, 59, 0);
        let t = Task::from_parts("x", TaskStatus::Todo, Deadline { date }, "Task 1").unwrap();
        assert_eq!(decode_line(&record_of(&t)), Ok(t));
    }
}

#[test]
fn decoding_by_hand() {
    let line = "Task { thing: \"water plants\", status: completed, label: Task 3, deadline: 2024-01-11T18:00:00Z }";
    let t = decode_line(line).unwrap();
    assert_eq!(t.thing(), "water plants");
    assert_eq!(t.status(), TaskStatus::Completed);
    assert_eq!(t.label(), "Task 3");
    assert_eq!(t.deadline().date, stamp(2024, 1, 11, 18, 0, 0));
}

#[test]
fn seconds_of_a_timestamp_are_dropped() {
    let line = "Task { thing: \"x\", status: Aborted(2024-01-11T18:00:59.123456789+01:00), label: Task 3, deadline: 2024-01-11T18:00:30+01:00 }";
    let t = decode_line(line).unwrap();
    assert_eq!(t.status(), TaskStatus::Aborted(stamp(2024, 1, 11, 18, 0, 3600)));
    assert_eq!(t.deadline().date, stamp(2024, 1, 11, 18, 0, 3600));
}

#[test]
fn fields_in_another_order() {
    let line = "Task { thing: \"x\", deadline: 2024-01-11T18:00:00+01:00, label: Task 3, status: Todo }";
    let t = decode_line(line).unwrap();
    assert_eq!(t, task("x", TaskStatus::Todo, 3));
}

#[test]
fn deadline_written_out_falls_back_to_the_zone() {
    let line = "Task { thing: \"x\", status: Todo, label: Task 3, deadline: 11/01/2024 18:00 }";
    assert_eq!(decode_line_in_zone(line, Some(3600)), Ok(task("x", TaskStatus::Todo, 3)));
    assert_eq!(decode_line_in_zone(line, None), Err(DecodeError::InvalidTimestamp));
    match decode_line(line) {
        Ok(t) => assert_eq!(t.deadline().date.local, stamp(2024, 1, 11, 18, 0, 0).local),
        Err(e) => assert_eq!(e, DecodeError::InvalidTimestamp),
    }
}

#[test]
fn lines_that_are_no_records() {
    assert_eq!(decode_line(""), Err(DecodeError::MissingMarker));
    assert_eq!(decode_line("thing: \"x\", status: Todo"), Err(DecodeError::MissingMarker));
    assert_eq!(decode_line("Task { thing: \"x\", status: Todo"), Err(DecodeError::MissingMarker));
    assert_eq!(decode_line("Task { status: Todo }"), Err(DecodeError::MissingThing));
    assert_eq!(decode_line("Task { thing: \"x }"), Err(DecodeError::MissingThing));
    assert_eq!(decode_line("Task { thing: x }"), Err(DecodeError::MissingThing));
    assert_eq!(decode_line("Task { thing: \"x\" status: Todo }"), Err(DecodeError::MalformedField));
    assert_eq!(decode_line("Task { thing: \"x\", status Todo }"), Err(DecodeError::MalformedField));
    assert_eq!(decode_line("Task { thing: \"x\" }"), Err(DecodeError::MissingField));
    assert_eq!(
        decode_line("Task { thing: \"x\", status: Todo, label: Task 1 }"),
        Err(DecodeError::MissingField)
    );
    assert_eq!(
        decode_line("Task { thing: \"x\", status: Done, label: Task 1, deadline: 2024-01-11T18:00:00+01:00 }"),
        Err(DecodeError::UnknownStatus)
    );
    assert_eq!(
        decode_line("Task { thing: \"x\", status: Postponed(yesterday), label: Task 1, deadline: 2024-01-11T18:00:00+01:00 }"),
        Err(DecodeError::InvalidTimestamp)
    );
    assert_eq!(
        decode_line("Task { thing: \"x\", status: Todo, label: Task 1, deadline: 2024-02-30T18:00:00+01:00 }"),
        Err(DecodeError::InvalidTimestamp)
    );
}

#[test]
fn labels_are_taken_as_they_are() {
    for label in ["Job 1", "Task 0", "Task 007", "foo", "", "Task 18446744073709551616"] {
        let line = format!(
            "Task {{ thing: \"x\", status: Todo, label: {}, deadline: 2024-01-11T18:00:00+01:00 }}",
            label
        );
        let t = decode_line(&line).unwrap();
        assert_eq!(t.label(), label);
        assert_eq!(t.number(), None);
        assert_eq!(decode_line(&record_of(&t)), Ok(t.clone()));
        assert_eq!(get_saved_tasks(&format!("{}\n", line)), Ok(vec![t]));
    }
    let line = "Task { thing: \"x\", status: Todo, label: Task 12, deadline: 2024-01-11T18:00:00+01:00 }";
    assert_eq!(decode_line(line).unwrap().number(), Some(12));
}

#[test]
fn statuses_by_name() {
    assert_eq!(parse_status("Todo"), Ok(TaskStatus::Todo));
    assert_eq!(parse_status("COMPLETED"), Ok(TaskStatus::Completed));
    assert_eq!(
        parse_status("expired(2024-01-11T18:00:00+01:00)"),
        Ok(TaskStatus::Expired(stamp(2024, 1, 11, 18, 0, 3600)))
    );
    assert_eq!(
        parse_status("Aborted(2024-01-11T18:00:00-01:00)"),
        Ok(TaskStatus::Aborted(stamp(2024, 1, 11, 18, 0, -3600)))
    );
    assert_eq!(parse_status("Postponed"), Err(DecodeError::UnknownStatus));
    assert_eq!(parse_status("Postponed(2024-01-11T18:00:00+01:00"), Err(DecodeError::UnknownStatus));
    assert_eq!(parse_status("Later(2024-01-11T18:00:00+01:00)"), Err(DecodeError::UnknownStatus));
    assert_eq!(parse_status("Postponed()"), Err(DecodeError::InvalidTimestamp));
    assert_eq!(parse_status(""), Err(DecodeError::UnknownStatus));
}

#[test]
fn deadlines_in_both_forms() {
    assert_eq!(
        parse_deadline("2024-01-11T18:00:00+01:00", None),
        Some(stamp(2024, 1, 11, 18, 0, 3600))
    );
    assert_eq!(parse_deadline("11/01/2024 18:00", Some(-7200)), Some(stamp(2024, 1, 11, 18, 0, -7200)));
    assert_eq!(parse_deadline("11/01/2024 18:00", None), None);
    assert_eq!(parse_deadline("tomorrow", Some(0)), None);
}

#[test]
fn rfc3339_text_and_back() {
    let at = stamp(2024, 1, 11, 18, 0, 3600);
    assert_eq!(at.to_rfc3339(), "2024-01-11T18:00:00+01:00");
    assert_eq!(Timestamp::parse_rfc3339("2024-01-11T18:00:00+01:00"), Some(at));
    assert_eq!(stamp(7, 3, 4, 5, 6, -34200).to_rfc3339(), "0007-03-04T05:06:00-09:30");
    assert_eq!(stamp(2024, 1, 11, 18, 0, 0).to_rfc3339(), "2024-01-11T18:00:00+00:00");
    assert_eq!(Timestamp::parse_rfc3339("2024-01-11 18:00"), None);
    assert_eq!(Timestamp::parse_rfc3339(""), None);
    assert_eq!(Timestamp::checked(Some(stamp(2024, 2, 30, 0, 0, 0))), None);
    assert_eq!(Timestamp::checked(Some(stamp(2024, 2, 29, 0, 0, 30))), None);
    assert_eq!(Timestamp::checked(Some(at)), Some(at));
    assert_eq!(Timestamp::checked(None), None);
}

#[test]
fn field_map_keeps_the_last_value() {
    let mut fields = FieldMap::new();
    assert!(!fields.contains("status"));
    fields.insert("status", "Todo");
    fields.insert("label", "Task 1");
    fields.insert("status", "Completed");
    assert!(fields.contains("status"));
    assert_eq!(fields.remove("status"), Some("Completed".to_string()));
    assert_eq!(fields.remove("status"), None);
    assert!(!fields.contains("status"));
    assert_eq!(fields.remove("label"), Some("Task 1".to_string()));
    assert_eq!(fields.remove("thing"), None);
}

#[test]
fn task_from_a_field_map() {
    let mut fields = FieldMap::new();
    fields.insert("thing", "buy milk, eggs");
    fields.insert("status", "Todo");
    fields.insert("label", "Task 1");
    fields.insert("deadline", "2024-01-11T18:00:00+01:00");
    fields.insert("colour", "green");
    let t = parse_task_from_file(&mut fields).unwrap();
    assert_eq!(t, task("buy milk, eggs", TaskStatus::Todo, 1));
    assert!(!fields.contains("thing"));
    assert!(!fields.contains("deadline"));
    assert!(fields.contains("colour"));
    assert_eq!(parse_task_from_file(&mut fields), Err(DecodeError::MissingField));
}

#[test]
fn task_from_fields_with_an_offset() {
    let mut fields = FieldMap::new();
    fields.insert("thing", "x");
    fields.insert("status", "Todo");
    fields.insert("label", "Task 4");
    fields.insert("deadline", "11/01/2024 18:00");
    assert_eq!(parse_task_fields(&mut fields, Some(3600)), Ok(task("x", TaskStatus::Todo, 4)));
}

#[test]
fn file_of_no_tasks_is_empty() {
    assert_eq!(save_tasks(&Vec::new()), "");
    assert_eq!(get_saved_tasks(""), Ok(Vec::new()));
}

#[test]
fn file_round_trip() {
    let tasks = vec![
        task("buy milk, eggs", TaskStatus::Todo, 1),
        task("call: mum", TaskStatus::Completed, 2),
        task("\"quoted\"", TaskStatus::Postponed(stamp(2024, 3, 1, 10, 0, 3600)), 4),
    ];
    let file = save_tasks(&tasks);
    assert_eq!(file.lines().count(), 3);
    assert!(file.ends_with('\n'));
    assert_eq!(get_saved_tasks(&file), Ok(tasks));
}

#[test]
fn one_bad_line_fails_the_file() {
    let good = record_of(&task("x", TaskStatus::Todo, 1));
    let file = format!("{}\nnot a record\n{}\n", good, good);
    assert_eq!(get_saved_tasks(&file), Err(DecodeError::MissingMarker));
    let file = format!("{}\n\n{}\n", good, good);
    assert_eq!(get_saved_tasks(&file).map(|tasks| tasks.len()), Ok(2));
}

#[test]
fn status_with_what_the_parser_made() {
    let at = stamp(2024, 1, 11, 18, 0, 3600);
    assert_eq!(status_with("Postponed(anything)", Some(at)), Ok(TaskStatus::Postponed(at)));
    assert_eq!(status_with("EXPIRED()", Some(at)), Ok(TaskStatus::Expired(at)));
    assert_eq!(status_with("aborted(x)", Some(at)), Ok(TaskStatus::Aborted(at)));
    assert_eq!(status_with("aborted(x)", None), Err(DecodeError::InvalidTimestamp));
    assert_eq!(
        status_with("aborted(x)", Some(stamp(2024, 2, 30, 0, 0, 0))),
        Err(DecodeError::InvalidTimestamp)
    );
    assert_eq!(status_with("Todo", Some(at)), Ok(TaskStatus::Todo));
    assert_eq!(status_with("completed", None), Ok(TaskStatus::Completed));
    assert_eq!(status_with("later(x)", Some(at)), Err(DecodeError::UnknownStatus));
    assert_eq!(status_with("postponed", Some(at)), Err(DecodeError::UnknownStatus));
    assert_eq!(between_brackets("Postponed(abc)"), Some("abc".to_string()));
    assert_eq!(between_brackets("a(b(c))"), Some("b(c)".to_string()));
    assert_eq!(between_brackets("Postponed(abc"), None);
    assert_eq!(between_brackets("Todo"), None);
}

#[test]
fn deadline_with_what_the_parser_made() {
    let at = stamp(2024, 1, 11, 18, 0, 3600);
    assert_eq!(deadline_with("11/01/2024 18:00", Some(at), None), Some(at));
    assert_eq!(
        deadline_with("11/01/2024 18:00", None, Some(7200)),
        Some(stamp(2024, 1, 11, 18, 0, 7200))
    );
    assert_eq!(
        deadline_with("11/01/2024 18:00", Some(stamp(2024, 2, 30, 0, 0, 0)), Some(0)),
        Some(stamp(2024, 1, 11, 18, 0, 0))
    );
    assert_eq!(deadline_with("11/01/2024 18:00", None, None), None);
    assert_eq!(deadline_with("1/1/2024 18:00", None, Some(0)), None);
    assert_eq!(deadline_with("soon", None, Some(0)), None);
}
