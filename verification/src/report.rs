use vstd::prelude::*;
use vstd::string::StringExecFns;

use crate::dispatch::{Command, CommandView, Verb};
use crate::error::Stage;
use crate::position::{is_digit, spec_parse_position};
use crate::task::{task_views, Task, TaskView};
use crate::text::{decimal, decimal_string, lemma_decimal_denotes, string_views};

verus! {

/// The line above a listing.
pub open spec fn listing_header() -> Seq<char> {
    "Todo items:"@
}

/// The line that shows a task: its display position, a colon, a blank and its
/// name.
pub open spec fn listing_line(position: nat, name: Seq<char>) -> Seq<char> {
    decimal(position) + seq![':', ' '] + name
}

/// What a listing of `rows` looks like: the header, then one line for each
/// row, numbered from 1 in the order of the rows.
pub open spec fn listing_lines(rows: Seq<TaskView>) -> Seq<Seq<char>> {
    seq![listing_header()] + Seq::new(
        rows.len(),
        |i: int| listing_line((i + 1) as nat, rows[i].name),
    )
}

/// The confirmation shown after a task named `name` was added.
pub open spec fn added_report(name: Seq<char>) -> Seq<char> {
    "Todo item added: "@ + name
}

/// The message shown after a removal that took `rows` rows out.
pub open spec fn removal_report(rows: nat) -> Seq<char> {
    if rows == 0 {
        "No todo found"@
    } else {
        "Successfully deleted "@ + decimal(rows) + " row(s)."@
    }
}

/// The usage text.
pub open spec fn usage() -> Seq<char> {
    "\nUsage: todo [command] [options]\n\nCommands:\n  add   Add a new task to your todo list\n  done  Mark a task as completed\n\nOptions:\n  -h, --help                Display this help message\n"@
}

/// What is said before a command is looked at more closely, if anything:
/// that `add` was read, whether or not a name follows it, or which position
/// is about to be marked done.
pub open spec fn announcement(command: CommandView) -> Option<Seq<char>> {
    match command {
        CommandView::Add(_) => Some("add argument"@),
        CommandView::MissingArgument(Verb::Add) => Some("add argument"@),
        CommandView::Done(position) => Some("id of the todo: "@ + position),
        _ => None,
    }
}

/// The complaint that stands for a command that cannot be carried out, if it
/// is one: a verb without its argument, or a line without any command.
pub open spec fn complaint(command: CommandView) -> Option<Seq<char>> {
    match command {
        CommandView::MissingArgument(Verb::Add) => Some("name of the add argument needed!"@),
        CommandView::MissingArgument(Verb::Done) => Some("id of the todo argument needed!"@),
        CommandView::NotEnoughArguments => Some("Not enough arguments"@),
        _ => None,
    }
}

/// What introduces the report of a failure at `stage`.
pub open spec fn failure_heading(stage: Stage) -> Seq<char> {
    match stage {
        Stage::OpenStore => "Error opening in database: "@,
        Stage::CreateTable => "Error creating table: "@,
        Stage::PrepareListing => "Error preparing statement: "@,
        Stage::QueryListing => "Error querying todos: "@,
        Stage::ReadRow => "Error reading todo: "@,
        Stage::AddTask => "Error adding todo item: "@,
        Stage::DeleteTask => "Error deleting row: "@,
    }
}

/// The report of a failure at `stage`: its heading, then what the store said.
pub open spec fn failure_report(stage: Stage, detail: Seq<char>) -> Seq<char> {
    failure_heading(stage) + detail
}

/// The lines that show a listing: the header, then each task under its
/// display position, counted from 1.
pub fn display_todo_list(listing: &Vec<Task>) -> (lines: Vec<String>)
    ensures
        string_views(lines@) == listing_lines(task_views(listing@)),
{
    let mut lines: Vec<String> = Vec::new();
    lines.push(String::from_str("Todo items:"));
    let mut i: usize = 0;
    while i < listing.len()
        invariant
            i <= listing.len(),
            lines.len() == i + 1,
            lines[0]@ == listing_header(),
            forall|j: int| 0 <= j < i ==> (#[trigger] lines[j + 1])@ == listing_line(
                (j + 1) as nat,
                listing[j].name@,
            ),
        decreases listing.len() - i,
    {
        let mut line = decimal_string(i as u64 + 1);
        proof {
            reveal_strlit(": ");
        }
        line.append(": ");
        line.append(listing[i].name.as_str());
        assert(line@ =~= listing_line((i + 1) as nat, listing[i as int].name@));
        lines.push(line);
        i = i + 1;
    }
    proof {
        assert(string_views(lines@) =~= listing_lines(task_views(listing@)));
    }
    lines
}

/// The confirmation to show after a task named `name` was added.
pub fn added_report_text(name: &str) -> (text: String)
    ensures
        text@ == added_report(name@),
{
    let mut text = String::from_str("Todo item added: ");
    text.append(name);
    text
}

/// The message to show after a removal that took `rows` rows out.
pub fn removal_report_text(rows: usize) -> (text: String)
    ensures
        text@ == removal_report(rows as nat),
{
    if rows == 0 {
        String::from_str("No todo found")
    } else {
        let mut text = String::from_str("Successfully deleted ");
        let count = decimal_string(rows as u64);
        text.append(count.as_str());
        text.append(" row(s).");
        text
    }
}

/// The usage text to show for `-h`, `--help` and any word that is no command.
pub fn display_help() -> (text: String)
    ensures
        text@ == usage(),
{
    String::from_str(
        "\nUsage: todo [command] [options]\n\nCommands:\n  add   Add a new task to your todo list\n  done  Mark a task as completed\n\nOptions:\n  -h, --help                Display this help message\n",
    )
}

/// What to say before `command` is looked at more closely, if anything.
pub fn announcement_text(command: &Command) -> (text: Option<String>)
    ensures
        match text {
            Some(line) => announcement(command@) == Some(line@),
            None => announcement(command@) is None,
        },
{
    match command {
        Command::Add(_) => Some(String::from_str("add argument")),
        Command::MissingArgument(Verb::Add) => Some(String::from_str("add argument")),
        Command::Done(position) => {
            let mut line = String::from_str("id of the todo: ");
            line.append(position.as_str());
            Some(line)
        },
        _ => None,
    }
}

/// The complaint to show in place of carrying `command` out, if it is one
/// that cannot be carried out.
pub fn complaint_text(command: &Command) -> (text: Option<String>)
    ensures
        match text {
            Some(line) => complaint(command@) == Some(line@),
            None => complaint(command@) is None,
        },
{
    match command {
        Command::MissingArgument(Verb::Add) => Some(
            String::from_str("name of the add argument needed!"),
        ),
        Command::MissingArgument(Verb::Done) => Some(
            String::from_str("id of the todo argument needed!"),
        ),
        Command::NotEnoughArguments => Some(String::from_str("Not enough arguments")),
        _ => None,
    }
}

/// The report to show of a failure at `stage`, of which the store said
/// `detail`.
pub fn failure_report_text(stage: Stage, detail: &str) -> (text: String)
    ensures
        text@ == failure_report(stage, detail@),
{
    let mut text = match stage {
        Stage::OpenStore => String::from_str("Error opening in database: "),
        Stage::CreateTable => String::from_str("Error creating table: "),
        Stage::PrepareListing => String::from_str("Error preparing statement: "),
        Stage::QueryListing => String::from_str("Error querying todos: "),
        Stage::ReadRow => String::from_str("Error reading todo: "),
        Stage::AddTask => String::from_str("Error adding todo item: "),
        Stage::DeleteTask => String::from_str("Error deleting row: "),
    };
    text.append(detail);
    text
}

/// A listing of no tasks shows the header and nothing else.
pub proof fn lemma_empty_listing()
    ensures
        listing_lines(Seq::<TaskView>::empty()) == seq![listing_header()],
{
    assert(listing_lines(Seq::<TaskView>::empty()) =~= seq![listing_header()]);
}

/// A listing of a table to which a task was just added is the listing from
/// before with one more line at its end, which shows the new name at the
/// position after the former last.
pub proof fn lemma_listing_grows(rows: Seq<TaskView>, task: TaskView)
    ensures
        listing_lines(rows.push(task)) == listing_lines(rows).push(
            listing_line(rows.len() + 1, task.name),
        ),
{
    assert(listing_lines(rows.push(task)) =~= listing_lines(rows).push(
        listing_line(rows.len() + 1, task.name),
    ));
}

/// Every position that a listing shows is read back as that position: what
/// is shown can be typed.
pub proof fn lemma_shown_position_is_read(position: u32)
    requires
        position >= 1,
    ensures
        spec_parse_position(decimal(position as nat)) == Some(position),
{
    let text = decimal(position as nat);
    lemma_decimal_denotes(position as nat);
    assert(is_digit(text[0]));
    assert(text.skip(0) =~= text);
}

} // verus!
