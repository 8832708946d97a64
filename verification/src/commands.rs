//! What a line that the user types asks for, and what the arguments of the
//! command line ask for.

use crate::cli_manager::{Switch, SwitchView};
use crate::text::{
    all_digits, chars_of, has_prefix, is_all_digits, lowered, same_chars, slice, split, split_on,
    string_of, strip_prefixes, texts_of, to_lowered, trim, trimmed, views_of, without_prefixes,
    words, words_of,
};
use vstd::prelude::*;

verus! {

/// What a typed line asks for.
#[derive(Clone, Debug, PartialEq, Eq)]
pub enum Action {
    /// Show the tasks that the switches leave, in their order.
    ShowTasks(Vec<Switch>),
    /// Do nothing.
    Nothing,
    /// Add a task.
    AddTask,
    /// Edit the task whose label carries `number`, in the field that
    /// `switch` names, if it names one.
    EditTask { number: String, switch: Option<String> },
    /// Delete the task whose label carries the number, or all tasks.
    DeleteTask(String),
    /// What should be the number of a task is none.
    InvalidTaskNumber,
    /// Leave.
    Exit,
    /// Show the help.
    Help,
    /// Clear the screen.
    Clear,
    /// The line asks for nothing that is known.
    Unrecognized,
}

/// What an action holds, its texts as sequences of characters.
pub enum ActionView {
    ShowTasks(Seq<SwitchView>),
    Nothing,
    AddTask,
    EditTask { number: Seq<char>, switch: Option<Seq<char>> },
    DeleteTask(Seq<char>),
    InvalidTaskNumber,
    Exit,
    Help,
    Clear,
    Unrecognized,
}

/// What the switches hold, in order.
pub open spec fn switch_views(switches: Seq<Switch>) -> Seq<SwitchView> {
    Seq::new(switches.len(), |i: int| switches[i]@)
}

impl View for Action {
    type V = ActionView;

    open spec fn view(&self) -> ActionView {
        match self {
            Action::ShowTasks(switches) => ActionView::ShowTasks(switch_views(switches@)),
            Action::Nothing => ActionView::Nothing,
            Action::AddTask => ActionView::AddTask,
            Action::EditTask { number, switch } => ActionView::EditTask {
                number: number@,
                switch: match switch {
                    Some(name) => Some(name@),
                    None => None,
                },
            },
            Action::DeleteTask(number) => ActionView::DeleteTask(number@),
            Action::InvalidTaskNumber => ActionView::InvalidTaskNumber,
            Action::Exit => ActionView::Exit,
            Action::Help => ActionView::Help,
            Action::Clear => ActionView::Clear,
            Action::Unrecognized => ActionView::Unrecognized,
        }
    }
}

/// `switches` with `word` added to what stands after the last of them; as
/// they are, where there is none.
pub open spec fn with_arg(switches: Seq<SwitchView>, word: Seq<char>) -> Seq<SwitchView> {
    if switches.len() == 0 {
        switches
    } else {
        switches.drop_last().push(
            SwitchView {
                name: switches.last().name,
                args: Some(
                    match switches.last().args {
                        Some(args) => args.push(word),
                        None => seq![word],
                    },
                ),
            },
        )
    }
}

/// The switches that `words` name: each word that starts with two dashes is
/// a switch, and the words up to the next switch stand after it. Words
/// before the first switch are dropped.
pub open spec fn grouped(words: Seq<Seq<char>>) -> Seq<SwitchView>
    decreases words.len(),
{
    if words.len() == 0 {
        Seq::empty()
    } else if "--"@.is_prefix_of(words.last()) {
        grouped(words.drop_last()).push(SwitchView { name: words.last(), args: None })
    } else {
        with_arg(grouped(words.drop_last()), words.last())
    }
}

/// What is asked of the task that `input` names: one word is the number of
/// the task; a second word that starts with two dashes names the field; any
/// other input stands for a task without number.
pub open spec fn edit_asked(input: Seq<char>) -> ActionView {
    let parts = split_on(input, ' ');
    let number = if parts.len() == 1 {
        input
    } else if parts.len() == 2 && "--"@.is_prefix_of(parts[1]) {
        parts[0]
    } else {
        Seq::empty()
    };
    let switch = if parts.len() == 2 && "--"@.is_prefix_of(parts[1]) {
        Some(parts[1])
    } else {
        None
    };
    if all_digits(number) {
        ActionView::EditTask { number, switch }
    } else {
        ActionView::InvalidTaskNumber
    }
}

/// What is asked to be deleted: the task of a number, or `all`.
pub open spec fn delete_asked(input: Seq<char>) -> ActionView {
    if all_digits(input) || input == "all"@ {
        ActionView::DeleteTask(input)
    } else {
        ActionView::InvalidTaskNumber
    }
}

/// What the line `line` asks for. Capital letters count as their lower-case
/// forms, and the spaces around the line do not count.
pub open spec fn asked(line: Seq<char>) -> ActionView {
    let action = trimmed(lowered(line));
    if action == "1"@ || action == "show tasks"@ {
        ActionView::ShowTasks(Seq::empty())
    } else if "show tasks "@.is_prefix_of(action) || "1 "@.is_prefix_of(action) {
        ActionView::ShowTasks(
            grouped(words_of(without_prefixes(without_prefixes(action, "show tasks "@), "1 "@))),
        )
    } else if "show task "@.is_prefix_of(action) {
        ActionView::Nothing
    } else if action == "2"@ || action == "add task"@ || action == "add"@ {
        ActionView::AddTask
    } else if "3 "@.is_prefix_of(action) || "edit task "@.is_prefix_of(action)
        || "edit "@.is_prefix_of(action) {
        edit_asked(
            trimmed(
                without_prefixes(
                    without_prefixes(without_prefixes(action, "3 "@), "edit task "@),
                    "edit "@,
                ),
            ),
        )
    } else if "4 "@.is_prefix_of(action) || "delete task "@.is_prefix_of(action)
        || "delete "@.is_prefix_of(action) {
        delete_asked(
            trimmed(
                without_prefixes(
                    without_prefixes(without_prefixes(action, "4 "@), "delete task "@),
                    "delete "@,
                ),
            ),
        )
    } else if action == "exit"@ {
        ActionView::Exit
    } else if action == "help"@ {
        ActionView::Help
    } else if action == "cls"@ {
        ActionView::Clear
    } else {
        ActionView::Unrecognized
    }
}

/// What the arguments of the command line ask for.
#[derive(Clone, Debug, PartialEq, Eq)]
pub enum Argument {
    /// Show all tasks.
    ShowTasks,
    /// Take in the tasks of the file at the path.
    Parse(String),
    /// The switch is none that is known.
    UnknownSwitch,
    /// The arguments do not start with two dashes and a switch.
    WrongFormat,
}

/// What an argument holds, its text as a sequence of characters.
pub enum ArgumentView {
    ShowTasks,
    Parse(Seq<char>),
    UnknownSwitch,
    WrongFormat,
}

impl View for Argument {
    type V = ArgumentView;

    open spec fn view(&self) -> ArgumentView {
        match self {
            Argument::ShowTasks => ArgumentView::ShowTasks,
            Argument::Parse(path) => ArgumentView::Parse(path@),
            Argument::UnknownSwitch => ArgumentView::UnknownSwitch,
            Argument::WrongFormat => ArgumentView::WrongFormat,
        }
    }
}

/// What the arguments `arguments`, with single spaces between them, ask
/// for: after two dashes, `1` or `show-tasks` to show all tasks, or `parse`
/// to take in the tasks of a file, whose path is what follows the last
/// space.
pub open spec fn argued(arguments: Seq<char>) -> ArgumentView {
    let found = words_of(without_prefixes(arguments, "--"@));
    if !"--"@.is_prefix_of(arguments) || found.len() == 0 {
        ArgumentView::WrongFormat
    } else if found[0] == "1"@ || found[0] == "show-tasks"@ {
        ArgumentView::ShowTasks
    } else if found[0] == "parse"@ {
        ArgumentView::Parse(split_on(arguments, ' ').last())
    } else {
        ArgumentView::UnknownSwitch
    }
}

/// The switches that `words` name.
pub fn group_switches(words: &Vec<Vec<char>>) -> (switches: Vec<Switch>)
    ensures
        switch_views(switches@) == grouped(views_of(words@)),
{
    let mut switches: Vec<Switch> = Vec::new();
    let dashes = chars_of("--");
    let mut i: usize = 0;
    assert(views_of(words@).take(0) == Seq::<Seq<char>>::empty());
    assert(switch_views(switches@) == Seq::<SwitchView>::empty());
    while i < words.len()
        invariant
            i <= words@.len(),
            dashes@ == "--"@,
            switch_views(switches@) == grouped(views_of(words@).take(i as int)),
        decreases words.len() - i,
    {
        let ghost next = views_of(words@).take(i + 1);
        assert(next.drop_last() == views_of(words@).take(i as int));
        assert(next.last() == words@[i as int]@);
        let word = string_of(&words[i]);
        let ghost before = switches@;
        if has_prefix(&words[i], &dashes) {
            let switch = Switch { name: word, args: None };
            switches.push(switch);
            assert(switch_views(switches@) == switch_views(before).push(switch@));
        } else {
            match switches.pop() {
                Some(last) => {
                    let ghost earlier = switches@;
                    assert(earlier == before.drop_last());
                    assert(switch_views(earlier) == switch_views(before).drop_last());
                    let args = match last.args {
                        Some(args) => {
                            let mut args = args;
                            let ghost held = args@;
                            args.push(word);
                            assert(texts_of(args@) == texts_of(held).push(word@));
                            args
                        },
                        None => {
                            let mut args: Vec<String> = Vec::new();
                            args.push(word);
                            assert(texts_of(args@) == seq![word@]);
                            args
                        },
                    };
                    let switch = Switch { name: last.name, args: Some(args) };
                    switches.push(switch);
                    assert(switch_views(switches@) == switch_views(earlier).push(switch@));
                },
                None => {
                    assert(switch_views(switches@) == switch_views(before));
                },
            }
        }
        i += 1;
    }
    assert(views_of(words@).take(i as int) == views_of(words@));
    switches
}

/// What is asked of the task that `input` names.
fn parse_edit(input: &Vec<char>) -> (action: Action)
    ensures
        action@ == edit_asked(input@),
{
    let parts = split(input, ' ');
    let ghost texts = split_on(input@, ' ');
    let dashes = chars_of("--");
    let mut number: Vec<char> = Vec::new();
    let mut switch: Option<String> = None;
    if parts.len() == 1 {
        number = slice(input, 0, input.len());
        assert(number@ == input@);
    } else if parts.len() == 2 {
        assert(texts[0] == parts[0]@ && texts[1] == parts[1]@);
        if has_prefix(&parts[1], &dashes) {
            number = slice(&parts[0], 0, parts[0].len());
            assert(number@ == parts[0]@);
            switch = Some(string_of(&parts[1]));
        }
    }
    if is_all_digits(&number) {
        Action::EditTask { number: string_of(&number), switch }
    } else {
        Action::InvalidTaskNumber
    }
}

/// What is asked to be deleted.
fn parse_delete(input: &Vec<char>) -> (action: Action)
    ensures
        action@ == delete_asked(input@),
{
    if is_all_digits(input) || same_chars(input, &chars_of("all")) {
        Action::DeleteTask(string_of(input))
    } else {
        Action::InvalidTaskNumber
    }
}

/// What the line `line` asks for.
pub fn parse_action(line: &str) -> (action: Action)
    ensures
        action@ == asked(line@),
{
    let action = trim(&to_lowered(&chars_of(line)));
    if same_chars(&action, &chars_of("1")) || same_chars(&action, &chars_of("show tasks")) {
        let none: Vec<Switch> = Vec::new();
        assert(switch_views(none@) == Seq::<SwitchView>::empty());
        return Action::ShowTasks(none);
    }
    if has_prefix(&action, &chars_of("show tasks ")) || has_prefix(&action, &chars_of("1 ")) {
        let rest = strip_prefixes(&strip_prefixes(&action, "show tasks "), "1 ");
        return Action::ShowTasks(group_switches(&words(&rest)));
    }
    if has_prefix(&action, &chars_of("show task ")) {
        return Action::Nothing;
    }
    if same_chars(&action, &chars_of("2")) || same_chars(&action, &chars_of("add task"))
        || same_chars(&action, &chars_of("add")) {
        return Action::AddTask;
    }
    if has_prefix(&action, &chars_of("3 ")) || has_prefix(&action, &chars_of("edit task "))
        || has_prefix(&action, &chars_of("edit ")) {
        let rest = strip_prefixes(
            &strip_prefixes(&strip_prefixes(&action, "3 "), "edit task "),
            "edit ",
        );
        return parse_edit(&trim(&rest));
    }
    if has_prefix(&action, &chars_of("4 ")) || has_prefix(&action, &chars_of("delete task "))
        || has_prefix(&action, &chars_of("delete ")) {
        let rest = strip_prefixes(
            &strip_prefixes(&strip_prefixes(&action, "4 "), "delete task "),
            "delete ",
        );
        return parse_delete(&trim(&rest));
    }
    if same_chars(&action, &chars_of("exit")) {
        Action::Exit
    } else if same_chars(&action, &chars_of("help")) {
        Action::Help
    } else if same_chars(&action, &chars_of("cls")) {
        Action::Clear
    } else {
        Action::Unrecognized
    }
}

/// What the arguments of the command line ask for, where `arguments` holds
/// them with single spaces between them.
pub fn handle_action_by_argument(arguments: &str) -> (argument: Argument)
    ensures
        argument@ == argued(arguments@),
{
    let chars = chars_of(arguments);
    if !has_prefix(&chars, &chars_of("--")) {
        return Argument::WrongFormat;
    }
    let found = words(&strip_prefixes(&chars, "--"));
    if found.len() == 0 {
        return Argument::WrongFormat;
    }
    let ghost texts = views_of(found@);
    assert(texts[0] == found[0]@);
    if same_chars(&found[0], &chars_of("1")) || same_chars(&found[0], &chars_of("show-tasks")) {
        Argument::ShowTasks
    } else if same_chars(&found[0], &chars_of("parse")) {
        let parts = split(&chars, ' ');
        let ghost pieces = split_on(chars@, ' ');
        proof {
            chars@.index_of_first_ensures(' ');
        }
        assert(pieces.len() > 0);
        assert(pieces.last() == parts[parts.len() - 1]@);
        Argument::Parse(string_of(&parts[parts.len() - 1]))
    } else {
        Argument::UnknownSwitch
    }
}

} // verus!
