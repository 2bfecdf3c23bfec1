use vstd::prelude::*;
use vstd::string::StringExecFns;

use crate::error::TodoError;
use crate::text::string_views;

verus! {

/// A command word that needs a word after it.
#[derive(Clone, Copy, Debug, PartialEq, Eq, Structural)]
pub enum Verb {
    /// `add`, which needs the name of the task.
    Add,
    /// `done`, which needs the position of the task.
    Done,
}

/// One step of what a command line asks for.
#[derive(Clone, Debug, PartialEq, Eq)]
pub enum Command {
    /// Add a task with this name.
    Add(String),
    /// Mark the task at this position done. The position is kept as typed.
    Done(String),
    /// Show all tasks.
    Show,
    /// Show the usage text and stop.
    Help,
    /// Report that the verb was the last word of the line.
    MissingArgument(Verb),
    /// Report that the line holds no command at all, and stop.
    NotEnoughArguments,
}

/// A command as specifications see it.
pub enum CommandView {
    Add(Seq<char>),
    Done(Seq<char>),
    Show,
    Help,
    MissingArgument(Verb),
    NotEnoughArguments,
}

impl View for Command {
    type V = CommandView;

    open spec fn view(&self) -> CommandView {
        match self {
            Command::Add(name) => CommandView::Add(name@),
            Command::Done(position) => CommandView::Done(position@),
            Command::Show => CommandView::Show,
            Command::Help => CommandView::Help,
            Command::MissingArgument(verb) => CommandView::MissingArgument(*verb),
            Command::NotEnoughArguments => CommandView::NotEnoughArguments,
        }
    }
}

/// The views of the commands of `plan`, in the same order.
pub open spec fn command_views(plan: Seq<Command>) -> Seq<CommandView> {
    plan.map_values(|command: Command| command@)
}

/// The commands that a run of words asks for, in order.
///
/// `add` and `done` each take the word after them, whatever it is; as the
/// last word they yield a missing argument. `show` stands alone. Any other
/// word, `-h` and `--help` among them, asks for the usage text, and nothing
/// after it is read.
pub open spec fn commands_of(words: Seq<Seq<char>>) -> Seq<CommandView>
    decreases words.len(),
{
    if words.len() == 0 {
        Seq::empty()
    } else if words[0] == "add"@ {
        if words.len() == 1 {
            seq![CommandView::MissingArgument(Verb::Add)]
        } else {
            seq![CommandView::Add(words[1])] + commands_of(words.skip(2))
        }
    } else if words[0] == "done"@ {
        if words.len() == 1 {
            seq![CommandView::MissingArgument(Verb::Done)]
        } else {
            seq![CommandView::Done(words[1])] + commands_of(words.skip(2))
        }
    } else if words[0] == "show"@ {
        seq![CommandView::Show] + commands_of(words.skip(1))
    } else {
        seq![CommandView::Help]
    }
}

/// What a whole argument list asks for. The first argument is the name the
/// program was called by; a list without a second one holds no command.
pub open spec fn plan_of(args: Seq<Seq<char>>) -> Seq<CommandView> {
    if args.len() < 2 {
        seq![CommandView::NotEnoughArguments]
    } else {
        commands_of(args.skip(1))
    }
}

/// The error that a command stands for, if it stands for one.
pub open spec fn error_of(command: CommandView) -> Option<TodoError> {
    match command {
        CommandView::MissingArgument(_) => Some(TodoError::MissingArgument),
        _ => None,
    }
}

/// Splits an argument list into the commands it asks for.
pub fn parse_config(args: &Vec<String>) -> (plan: Vec<Command>)
    ensures
        command_views(plan@) == plan_of(string_views(args@)),
{
    let mut plan: Vec<Command> = Vec::new();
    if args.len() < 2 {
        plan.push(Command::NotEnoughArguments);
        assert(command_views(plan@) =~= seq![CommandView::NotEnoughArguments]);
        return plan;
    }
    let add = String::from_str("add");
    let done = String::from_str("done");
    let show = String::from_str("show");
    let ghost words = string_views(args@);
    let mut i: usize = 1;
    assert(Seq::<CommandView>::empty() + commands_of(words.skip(1)) =~= commands_of(words.skip(1)));
    while i < args.len()
        invariant
            2 <= args.len(),
            1 <= i <= args.len(),
            words == string_views(args@),
            add@ == "add"@,
            done@ == "done"@,
            show@ == "show"@,
            commands_of(words.skip(1)) == command_views(plan@) + commands_of(words.skip(i as int)),
        decreases args.len() - i,
    {
        let ghost rest = words.skip(i as int);
        let ghost before = command_views(plan@);
        assert(rest[0] == args[i as int]@);
        if args[i] == add {
            if i + 1 < args.len() {
                assert(rest[1] == args[i + 1]@);
                assert(rest.skip(2) =~= words.skip(i + 2));
                plan.push(Command::Add(args[i + 1].clone()));
                assert(command_views(plan@) =~= before + seq![CommandView::Add(rest[1])]);
                assert(command_views(plan@) + commands_of(words.skip(i + 2)) =~= before
                    + commands_of(rest));
                i = i + 2;
            } else {
                plan.push(Command::MissingArgument(Verb::Add));
                assert(command_views(plan@) =~= before + commands_of(rest));
                return plan;
            }
        } else if args[i] == done {
            if i + 1 < args.len() {
                assert(rest[1] == args[i + 1]@);
                assert(rest.skip(2) =~= words.skip(i + 2));
                plan.push(Command::Done(args[i + 1].clone()));
                assert(command_views(plan@) =~= before + seq![CommandView::Done(rest[1])]);
                assert(command_views(plan@) + commands_of(words.skip(i + 2)) =~= before
                    + commands_of(rest));
                i = i + 2;
            } else {
                plan.push(Command::MissingArgument(Verb::Done));
                assert(command_views(plan@) =~= before + commands_of(rest));
                return plan;
            }
        } else if args[i] == show {
            assert(rest.skip(1) =~= words.skip(i + 1));
            plan.push(Command::Show);
            assert(command_views(plan@) =~= before + seq![CommandView::Show]);
            assert(command_views(plan@) + commands_of(words.skip(i + 1)) =~= before + commands_of(
                rest,
            ));
            i = i + 1;
        } else {
            plan.push(Command::Help);
            assert(command_views(plan@) =~= before + commands_of(rest));
            return plan;
        }
    }
    proof {
        assert(words.skip(i as int).len() == 0);
        assert(command_views(plan@) + Seq::<CommandView>::empty() =~= command_views(plan@));
    }
    plan
}

impl Command {
    /// The error that this command stands for, if it stands for one.
    pub fn error(&self) -> (error: Option<TodoError>)
        ensures
            error == error_of(self@),
    {
        match self {
            Command::MissingArgument(_) => Some(TodoError::MissingArgument),
            _ => None,
        }
    }
}

} // verus!
