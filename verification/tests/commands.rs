use rutodo::cli_manager::Switch;
use rutodo::commands::{group_switches, handle_action_by_argument, parse_action, Action, Argument};

fn switch(name: &str, args: &[&str]) -> Switch {
    let args = if args.is_empty() {
        None
    } else {
        Some(args.iter().map(|a| a.to_string()).collect())
    };
    Switch { name: name.to_string(), args }
}

fn edit(number: &str, switch: Option<&str>) -> Action {
    Action::EditTask { number: number.to_string(), switch: switch.map(|s| s.to_string()) }
}

#[test]
fn showing() {
    assert_eq!(parse_action("1"), Action::ShowTasks(vec![]));
    assert_eq!(parse_action("  Show Tasks "), Action::ShowTasks(vec![]));
    assert_eq!(
        parse_action("show tasks --status postponed --date"),
        Action::ShowTasks(vec![switch("--status", &["postponed"]), switch("--date", &[])])
    );
    assert_eq!(
        parse_action("1 --thing buy  milk --deadline"),
        Action::ShowTasks(vec![switch("--thing", &["buy", "milk"]), switch("--deadline", &[])])
    );
    assert_eq!(parse_action("show tasks milk --thing x"), Action::ShowTasks(vec![switch("--thing", &["x"])]));
    assert_eq!(parse_action("show tasks milk"), Action::ShowTasks(vec![]));
    assert_eq!(parse_action("show task 1"), Action::Nothing);
}

#[test]
fn adding() {
    assert_eq!(parse_action("2"), Action::AddTask);
    assert_eq!(parse_action("add task"), Action::AddTask);
    assert_eq!(parse_action("ADD"), Action::AddTask);
    assert_eq!(parse_action("add milk"), Action::Unrecognized);
}

#[test]
fn editing() {
    assert_eq!(parse_action("3 12"), edit("12", None));
    assert_eq!(parse_action("edit task 4 --status"), edit("4", Some("--status")));
    assert_eq!(parse_action("edit 4 --Thing"), edit("4", Some("--thing")));
    assert_eq!(parse_action("edit 4 thing"), edit("", None));
    assert_eq!(parse_action("edit 4 --thing now"), edit("", None));
    assert_eq!(parse_action("edit four"), Action::InvalidTaskNumber);
    assert_eq!(parse_action("edit x --thing"), Action::InvalidTaskNumber);
    assert_eq!(parse_action("edit"), Action::Unrecognized);
}

#[test]
fn deleting() {
    assert_eq!(parse_action("4 2"), Action::DeleteTask("2".to_string()));
    assert_eq!(parse_action("delete task 31"), Action::DeleteTask("31".to_string()));
    assert_eq!(parse_action("delete all"), Action::DeleteTask("all".to_string()));
    assert_eq!(parse_action("Delete   7"), Action::DeleteTask("7".to_string()));
    assert_eq!(parse_action("delete everything"), Action::InvalidTaskNumber);
    assert_eq!(parse_action("delete 1 2"), Action::InvalidTaskNumber);
}

#[test]
fn other_lines() {
    assert_eq!(parse_action("exit"), Action::Exit);
    assert_eq!(parse_action("help"), Action::Help);
    assert_eq!(parse_action("cls"), Action::Clear);
    assert_eq!(parse_action(""), Action::Unrecognized);
    assert_eq!(parse_action("5"), Action::Unrecognized);
    assert_eq!(parse_action("exit now"), Action::Unrecognized);
}

#[test]
fn grouping_words() {
    let words: Vec<Vec<char>> =
        ["a", "--x", "1", "2", "--y", "--z", "3"].iter().map(|w| w.chars().collect()).collect();
    assert_eq!(
        group_switches(&words),
        vec![switch("--x", &["1", "2"]), switch("--y", &[]), switch("--z", &["3"])]
    );
    assert_eq!(group_switches(&vec![]), vec![]);
}

#[test]
fn arguments_of_the_command_line() {
    assert_eq!(handle_action_by_argument("--1"), Argument::ShowTasks);
    assert_eq!(handle_action_by_argument("--show-tasks"), Argument::ShowTasks);
    assert_eq!(handle_action_by_argument("--show-tasks now"), Argument::ShowTasks);
    assert_eq!(
        handle_action_by_argument("--parse /tmp/shown.txt"),
        Argument::Parse("/tmp/shown.txt".to_string())
    );
    assert_eq!(handle_action_by_argument("--parse"), Argument::Parse("--parse".to_string()));
    assert_eq!(handle_action_by_argument("--colour"), Argument::UnknownSwitch);
    assert_eq!(handle_action_by_argument("parse x"), Argument::WrongFormat);
    assert_eq!(handle_action_by_argument("--"), Argument::WrongFormat);
    assert_eq!(handle_action_by_argument(""), Argument::WrongFormat);
}
