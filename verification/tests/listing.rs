use rutodo::calendar::{CivilTime, Timestamp};
use rutodo::cli_manager::{
    apply_switch, date_of, has_date_switch, match_status, show_tasks, show_tasks_at, ShowError,
    Switch,
};
use rutodo::listing::sort_positions;
use rutodo::resolver::DateError;
use rutodo::task::{Deadline, Task, TaskStatus};

fn stamp(year: i32, month: u32, day: u32, hour: u32, minute: u32, offset: i32) -> Timestamp {
    Timestamp { local: CivilTime { year, month, day, hour, minute }, offset }
}

fn now() -> CivilTime {
    CivilTime { year: 2024, month: 1, day: 10, hour: 8, minute: 0 }
}

fn task(thing: &str, status: TaskStatus, deadline: Timestamp, number: u64) -> Task {
    Task::from_parts(thing, status, Deadline { date: deadline }, &format!("Task {}", number)).unwrap()
}

fn sample() -> Vec<Task> {
    vec![
        task("Buy milk", TaskStatus::Todo, stamp(2024, 1, 12, 18, 0, 3600), 1),
        task("call mum", TaskStatus::Completed, stamp(2024, 1, 11, 9, 0, 3600), 2),
        task("buy eggs", TaskStatus::Postponed(stamp(2024, 1, 11, 7, 0, 3600)), stamp(2024, 1, 13, 9, 0, 3600), 3),
        task("pay rent", TaskStatus::Aborted(stamp(2024, 1, 14, 7, 0, 3600)), stamp(2024, 1, 11, 9, 0, 3600), 4),
        task("write", TaskStatus::Expired(stamp(2024, 1, 2, 7, 0, 3600)), stamp(2024, 1, 1, 9, 0, 3600), 5),
    ]
}

fn switch(name: &str, args: &[&str]) -> Switch {
    let args = if args.is_empty() {
        None
    } else {
        Some(args.iter().map(|a| a.to_string()).collect())
    };
    Switch { name: name.to_string(), args }
}

#[test]
fn no_switch_shows_all_tasks() {
    assert_eq!(show_tasks_at(&sample(), &vec![], &now()), Ok(vec![0, 1, 2, 3, 4]));
    assert_eq!(show_tasks_at(&vec![], &vec![], &now()), Ok(vec![]));
}

#[test]
fn thing_keeps_descriptions_that_start_alike() {
    let shown = show_tasks_at(&sample(), &vec![switch("--thing", &["BUY"])], &now());
    assert_eq!(shown, Ok(vec![0, 2]));
    let shown = show_tasks_at(&sample(), &vec![switch("thing", &["bu", "y"])], &now());
    assert_eq!(shown, Ok(vec![0, 2]));
    let shown = show_tasks_at(&sample(), &vec![switch("thing", &["buy", "m"])], &now());
    assert_eq!(shown, Ok(vec![]));
    let shown = show_tasks_at(&sample(), &vec![switch("--thing", &["milk"])], &now());
    assert_eq!(shown, Ok(vec![]));
}

#[test]
fn status_keeps_tasks_of_that_status() {
    let tasks = sample();
    for (name, wanted) in [
        ("todo", vec![0]),
        ("completed", vec![1]),
        ("postponed", vec![2]),
        ("aborted", vec![3]),
        ("expired", vec![4]),
        ("done", vec![]),
        ("Todo", vec![]),
    ] {
        assert_eq!(show_tasks_at(&tasks, &vec![switch("--status", &[name])], &now()), Ok(wanted));
    }
}

#[test]
fn deadline_orders_by_deadline_and_keeps_ties() {
    let shown = show_tasks_at(&sample(), &vec![switch("--deadline", &[])], &now());
    assert_eq!(shown, Ok(vec![4, 1, 3, 0, 2]));
}

#[test]
fn date_orders_by_status_date_or_deadline() {
    let shown = show_tasks_at(&sample(), &vec![switch("--date", &[])], &now());
    assert_eq!(shown, Ok(vec![4, 2, 1, 0, 3]));
}

#[test]
fn date_keeps_tasks_of_that_day() {
    let shown = show_tasks_at(&sample(), &vec![switch("--date", &["tomorrow"])], &now());
    assert_eq!(shown, Ok(vec![1, 2]));
    let shown = show_tasks_at(&sample(), &vec![switch("--date", &["14/01/2024", "23:00"])], &now());
    assert_eq!(shown, Ok(vec![3]));
    let shown = show_tasks_at(&sample(), &vec![switch("--date", &["someday"])], &now());
    assert_eq!(shown, Err(ShowError::Date(DateError::InvalidFormat)));
}

#[test]
fn switches_apply_one_after_the_other() {
    let switches = vec![switch("--deadline", &[]), switch("--thing", &["b"])];
    assert_eq!(show_tasks_at(&sample(), &switches, &now()), Ok(vec![0, 2]));
    let switches = vec![switch("--thing", &["b"]), switch("--date", &[])];
    assert_eq!(show_tasks_at(&sample(), &switches, &now()), Ok(vec![2, 0]));
}

#[test]
fn switches_that_cannot_be_met() {
    let tasks = sample();
    assert_eq!(
        show_tasks_at(&tasks, &vec![switch("--thing", &[])], &now()),
        Err(ShowError::MissingArguments)
    );
    assert_eq!(
        show_tasks_at(&tasks, &vec![switch("--status", &[])], &now()),
        Err(ShowError::MissingArguments)
    );
    assert_eq!(
        show_tasks_at(&tasks, &vec![switch("--deadline", &["now"])], &now()),
        Err(ShowError::UnexpectedArguments)
    );
    assert_eq!(
        show_tasks_at(&tasks, &vec![switch("--colour", &[])], &now()),
        Err(ShowError::UnknownSwitch)
    );
    assert_eq!(
        show_tasks_at(&tasks, &vec![switch("--deadline", &[]), switch("--colour", &[])], &now()),
        Err(ShowError::UnknownSwitch)
    );
}

#[test]
fn nothing_left_ends_the_switches() {
    let switches = vec![switch("--thing", &["zzz"]), switch("--colour", &[])];
    assert_eq!(show_tasks_at(&sample(), &switches, &now()), Ok(vec![]));
    assert_eq!(show_tasks_at(&vec![], &vec![switch("--colour", &[])], &now()), Ok(vec![]));
}

#[test]
fn one_switch_at_a_time() {
    let tasks = sample();
    let after = apply_switch(&tasks, &now(), vec![4, 3, 2], &switch("--DATE", &[]));
    assert_eq!(after, Ok(vec![4, 2, 3]));
    let after = apply_switch(&tasks, &now(), vec![], &switch("--colour", &[]));
    assert_eq!(after, Ok(vec![]));
}

#[test]
fn showing_without_a_date_does_not_need_the_clock() {
    assert_eq!(show_tasks(&sample(), &vec![switch("--status", &["todo"])]), Ok(vec![0]));
    assert_eq!(show_tasks(&sample(), &vec![]), Ok(vec![0, 1, 2, 3, 4]));
    assert_eq!(show_tasks(&sample(), &vec![switch("--date", &[])]), Ok(vec![4, 2, 1, 0, 3]));
    assert_eq!(show_tasks(&sample(), &vec![switch("--nope", &[])]), Err(ShowError::UnknownSwitch));
    assert_eq!(show_tasks(&vec![], &vec![switch("--nope", &[])]), Ok(vec![]));
    assert_eq!(show_tasks(&vec![], &vec![switch("--date", &["someday"])]), Ok(vec![]));
    assert!(!has_date_switch(&vec![switch("--date", &[]), switch("--thing", &["date"])]));
    assert!(has_date_switch(&vec![switch("--thing", &["x"]), switch("--Date", &["today"])]));
}

#[test]
fn showing_against_the_clock() {
    let shown = show_tasks(&sample(), &vec![switch("--date", &["11/01/2024"])]);
    assert_eq!(shown, Ok(vec![1, 2]));
    let shown = show_tasks(&sample(), &vec![switch("--date", &["someday"])]);
    assert_eq!(shown, Err(ShowError::Date(DateError::InvalidFormat)));
}

#[test]
fn status_names() {
    let tasks = sample();
    assert!(match_status(&tasks[0], "todo"));
    assert!(!match_status(&tasks[0], "completed"));
    assert!(match_status(&tasks[2], "postponed"));
    assert!(!match_status(&tasks[2], "Postponed"));
    assert_eq!(date_of(&tasks[2]), stamp(2024, 1, 11, 7, 0, 3600));
    assert_eq!(date_of(&tasks[0]), stamp(2024, 1, 12, 18, 0, 3600));
}

#[test]
fn sorting_positions_is_stable() {
    let keys = vec![5, 1, 5, 0, 1];
    assert_eq!(sort_positions(&vec![0, 1, 2, 3, 4], &keys), vec![3, 1, 4, 0, 2]);
    assert_eq!(sort_positions(&vec![4, 2, 0], &keys), vec![4, 2, 0]);
    assert_eq!(sort_positions(&vec![], &keys), Vec::<usize>::new());
    assert_eq!(sort_positions(&vec![2, 2, 1], &keys), vec![1, 2, 2]);
}
