use todo_list::{serve, Answer, Line, Request, Session, Stage, Task, TaskTable};

fn line(words: &[&str]) -> Vec<String> {
    words.iter().map(|word| String::from(*word)).collect()
}

fn out(text: &str) -> Line {
    Line::Message(String::from(text))
}

fn err(text: &str) -> Line {
    Line::Diagnostic(String::from(text))
}

const USAGE: &str = "\nUsage: todo [command] [options]\n\nCommands:\n  add   Add a new task to your todo list\n  done  Mark a task as completed\n\nOptions:\n  -h, --help                Display this help message\n";

fn run(table: &mut TaskTable, words: &[&str]) -> (Vec<Line>, i32) {
    todo_list::run(table, &line(words))
}

#[test]
fn a_line_without_a_command_complains_and_fails() {
    let mut table = TaskTable::new();
    assert_eq!(run(&mut table, &["todo"]), (vec![err("Not enough arguments")], 1));
    assert_eq!(run(&mut table, &[]), (vec![err("Not enough arguments")], 1));
}

#[test]
fn help_shows_the_usage_and_fails() {
    let mut table = TaskTable::new();
    assert_eq!(run(&mut table, &["todo", "-h"]), (vec![out(USAGE)], 1));
    assert_eq!(run(&mut table, &["todo", "--help"]), (vec![out(USAGE)], 1));
    assert_eq!(run(&mut table, &["todo", "frobnicate"]), (vec![out(USAGE)], 1));
}

#[test]
fn add_announces_and_confirms() {
    let mut table = TaskTable::new();
    assert_eq!(
        run(&mut table, &["todo", "add", "buy milk"]),
        (vec![out("add argument"), out("Todo item added: buy milk")], 0)
    );
    assert_eq!(table.list_all(), vec![Task::new(1, String::from("buy milk"))]);
}

#[test]
fn show_on_an_empty_table_prints_only_the_header() {
    let mut table = TaskTable::new();
    assert_eq!(run(&mut table, &["todo", "show"]), (vec![out("Todo items:")], 0));
}

#[test]
fn add_add_done_show_leaves_the_second_task_at_position_one() {
    let mut table = TaskTable::new();
    let (shown, status) = run(&mut table, &["todo", "add", "A", "add", "B", "done", "1", "show"]);
    assert_eq!(
        shown,
        vec![
            out("add argument"),
            out("Todo item added: A"),
            out("add argument"),
            out("Todo item added: B"),
            out("id of the todo: 1"),
            out("Successfully deleted 1 row(s)."),
            out("Todo items:"),
            out("1: B"),
        ]
    );
    assert_eq!(status, 0);
    assert_eq!(table.list_all(), vec![Task::new(2, String::from("B"))]);
}

#[test]
fn done_with_a_word_that_is_no_number_is_invalid_and_removes_nothing() {
    let mut table = TaskTable::new();
    run(&mut table, &["todo", "add", "A"]);
    let before = table.list_all();
    assert_eq!(
        run(&mut table, &["todo", "done", "abc"]),
        (vec![out("id of the todo: abc"), err("Invalid ID format")], 0)
    );
    assert_eq!(table.list_all(), before);
}

#[test]
fn done_beyond_the_listing_is_not_found_and_removes_nothing() {
    let mut table = TaskTable::new();
    run(&mut table, &["todo", "add", "A"]);
    let before = table.list_all();
    assert_eq!(
        run(&mut table, &["todo", "done", "2"]),
        (vec![out("id of the todo: 2"), err("Id not found :(")], 0)
    );
    assert_eq!(table.list_all(), before);
    let mut nothing = TaskTable::new();
    assert_eq!(
        run(&mut nothing, &["todo", "done", "1"]),
        (vec![out("id of the todo: 1"), err("Id not found :(")], 0)
    );
}

#[test]
fn a_refused_position_does_not_stop_the_line() {
    let mut table = TaskTable::new();
    let (shown, status) = run(&mut table, &["todo", "add", "A", "done", "x", "done", "9", "show"]);
    assert_eq!(
        shown,
        vec![
            out("add argument"),
            out("Todo item added: A"),
            out("id of the todo: x"),
            err("Invalid ID format"),
            out("id of the todo: 9"),
            err("Id not found :("),
            out("Todo items:"),
            out("1: A"),
        ]
    );
    assert_eq!(status, 0);
}

#[test]
fn a_verb_without_its_argument_complains_and_succeeds() {
    let mut table = TaskTable::new();
    assert_eq!(
        run(&mut table, &["todo", "add"]),
        (vec![out("add argument"), err("name of the add argument needed!")], 0)
    );
    assert_eq!(
        run(&mut table, &["todo", "done"]),
        (vec![err("id of the todo argument needed!")], 0)
    );
    assert_eq!(
        run(&mut table, &["todo", "show", "done"]),
        (vec![out("Todo items:"), err("id of the todo argument needed!")], 0)
    );
    assert_eq!(table.list_all(), Vec::<Task>::new());
}

#[test]
fn nothing_after_an_unknown_word_is_carried_out() {
    let mut table = TaskTable::new();
    let (shown, status) = run(&mut table, &["todo", "add", "A", "what", "add", "B"]);
    assert_eq!(shown, vec![out("add argument"), out("Todo item added: A"), out(USAGE)]);
    assert_eq!(status, 1);
    assert_eq!(table.list_all(), vec![Task::new(1, String::from("A"))]);
}

#[test]
fn a_store_that_cannot_be_opened_ends_the_run() {
    for stage in [Stage::OpenStore, Stage::CreateTable] {
        let (mut session, turn) = Session::start(&line(&["todo", "add", "A", "show"]));
        assert_eq!(turn.lines, vec![out("add argument")]);
        assert_eq!(turn.request, Request::Insert(String::from("A")));
        let turn = session.answer(&Answer::Failed(stage, String::from("unable to open")));
        assert_eq!(turn.request, Request::Exit(1));
        assert_eq!(turn.lines.len(), 1);
        assert!(matches!(&turn.lines[0], Line::Diagnostic(text) if text.ends_with(": unable to open")));
        assert_eq!(session.awaited(), Request::Exit(1));
    }
}

#[test]
fn a_failed_scan_ends_the_run() {
    let (mut session, turn) = Session::start(&line(&["todo", "show", "show"]));
    assert_eq!(turn.request, Request::Scan);
    let turn = session.answer(&Answer::Failed(Stage::PrepareListing, String::from("no such table")));
    assert_eq!(turn.lines, vec![err("Error preparing statement: no such table")]);
    assert_eq!(turn.request, Request::Exit(1));

    let (mut session, _) = Session::start(&line(&["todo", "done", "1", "show"]));
    let turn = session.answer(&Answer::Failed(Stage::QueryListing, String::from("busy")));
    assert_eq!(turn.lines, vec![err("Error querying todos: busy")]);
    assert_eq!(turn.request, Request::Exit(1));
}

#[test]
fn a_failed_addition_ends_the_run() {
    let (mut session, _) = Session::start(&line(&["todo", "add", "A", "show"]));
    let turn = session.answer(&Answer::Failed(Stage::AddTask, String::from("disk full")));
    assert_eq!(turn.lines, vec![err("Error adding todo item: disk full")]);
    assert_eq!(turn.request, Request::Exit(1));
}

#[test]
fn a_failed_removal_is_reported_and_the_line_goes_on() {
    let (mut session, turn) = Session::start(&line(&["todo", "done", "1", "show"]));
    assert_eq!(turn.lines, vec![out("id of the todo: 1")]);
    assert_eq!(turn.request, Request::Scan);
    let turn = session.answer(&Answer::Rows(vec![Ok(Task::new(5, String::from("A")))]));
    assert_eq!(turn.lines, Vec::<Line>::new());
    assert_eq!(turn.request, Request::Delete(5));
    let turn = session.answer(&Answer::Failed(Stage::DeleteTask, String::from("locked")));
    assert_eq!(turn.lines, vec![err("Error deleting row: locked")]);
    assert_eq!(turn.request, Request::Scan);
    let turn = session.answer(&Answer::Rows(vec![Ok(Task::new(5, String::from("A")))]));
    assert_eq!(turn.lines, vec![out("Todo items:"), out("1: A")]);
    assert_eq!(turn.request, Request::Exit(0));
}

#[test]
fn a_removal_that_found_no_row_says_so() {
    let (mut session, _) = Session::start(&line(&["todo", "done", "1"]));
    let turn = session.answer(&Answer::Rows(vec![Ok(Task::new(5, String::from("A")))]));
    assert_eq!(turn.request, Request::Delete(5));
    let turn = session.answer(&Answer::Changed(0));
    assert_eq!(turn.lines, vec![out("No todo found")]);
    assert_eq!(turn.request, Request::Exit(0));
}

#[test]
fn unreadable_rows_are_reported_and_not_counted() {
    let rows = vec![
        Err(String::from("Integral value out of range")),
        Ok(Task::new(7, String::from("A"))),
        Err(String::from("Invalid column type")),
        Ok(Task::new(9, String::from("B"))),
    ];
    let (mut session, _) = Session::start(&line(&["todo", "show", "done", "2"]));
    let turn = session.answer(&Answer::Rows(rows.clone()));
    assert_eq!(
        turn.lines,
        vec![
            err("Error reading todo: Integral value out of range"),
            err("Error reading todo: Invalid column type"),
            out("Todo items:"),
            out("1: A"),
            out("2: B"),
            out("id of the todo: 2"),
        ]
    );
    assert_eq!(turn.request, Request::Scan);
    let turn = session.answer(&Answer::Rows(rows));
    assert_eq!(
        turn.lines,
        vec![
            err("Error reading todo: Integral value out of range"),
            err("Error reading todo: Invalid column type"),
        ]
    );
    assert_eq!(turn.request, Request::Delete(9));
}

#[test]
fn an_answer_that_does_not_fit_is_met_with_the_same_request() {
    let (mut session, turn) = Session::start(&line(&["todo", "add", "A"]));
    assert_eq!(turn.request, Request::Insert(String::from("A")));
    let turn = session.answer(&Answer::Rows(Vec::new()));
    assert_eq!(turn, todo_list::Turn { lines: Vec::new(), request: Request::Insert(String::from("A")) });

    let (mut session, _) = Session::start(&line(&["todo", "show"]));
    let turn = session.answer(&Answer::Changed(1));
    assert_eq!(turn.request, Request::Scan);
    assert_eq!(turn.lines, Vec::<Line>::new());

    let (mut session, _) = Session::start(&line(&["todo", "done", "1"]));
    let turn = session.answer(&Answer::Changed(1));
    assert_eq!(turn.request, Request::Scan);
    let turn = session.answer(&Answer::Rows(vec![Ok(Task::new(3, String::from("A")))]));
    assert_eq!(turn.request, Request::Delete(3));
    let turn = session.answer(&Answer::Rows(Vec::new()));
    assert_eq!(turn.request, Request::Delete(3));
    assert_eq!(session.awaited(), Request::Delete(3));
}

#[test]
fn a_run_that_has_ended_stays_ended() {
    let (mut session, turn) = Session::start(&line(&["todo", "-h"]));
    assert_eq!(turn.request, Request::Exit(1));
    for answer in [
        Answer::Changed(1),
        Answer::Rows(Vec::new()),
        Answer::Failed(Stage::OpenStore, String::from("x")),
    ] {
        let turn = session.answer(&answer);
        assert_eq!(turn.lines, Vec::<Line>::new());
        assert_eq!(turn.request, Request::Exit(1));
    }
    let (mut session, _) = Session::start(&line(&["todo", "show"]));
    assert_eq!(session.answer(&Answer::Rows(Vec::new())).request, Request::Exit(0));
    assert_eq!(session.answer(&Answer::Rows(Vec::new())).request, Request::Exit(0));
    assert_eq!(session.awaited(), Request::Exit(0));
}

#[test]
fn a_table_answers_each_request() {
    let mut table = TaskTable::new();
    assert_eq!(serve(&mut table, &Request::Scan), Some(Answer::Rows(Vec::new())));
    assert_eq!(serve(&mut table, &Request::Insert(String::from("A"))), Some(Answer::Changed(1)));
    assert_eq!(serve(&mut table, &Request::Insert(String::from("B"))), Some(Answer::Changed(1)));
    assert_eq!(
        serve(&mut table, &Request::Scan),
        Some(Answer::Rows(vec![
            Ok(Task::new(1, String::from("A"))),
            Ok(Task::new(2, String::from("B"))),
        ]))
    );
    assert_eq!(serve(&mut table, &Request::Delete(7)), Some(Answer::Changed(0)));
    assert_eq!(serve(&mut table, &Request::Delete(1)), Some(Answer::Changed(1)));
    assert_eq!(serve(&mut table, &Request::Exit(0)), None);
    assert_eq!(table.list_all(), vec![Task::new(2, String::from("B"))]);
}

#[test]
fn a_full_table_fails_the_addition_and_ends_the_run() {
    let mut table = TaskTable::from_listing(vec![Task::new(i32::MAX, String::from("last"))]).unwrap();
    assert_eq!(
        serve(&mut table, &Request::Insert(String::from("more"))),
        Some(Answer::Failed(Stage::AddTask, String::from("no id is left for another task")))
    );
    assert_eq!(
        run(&mut table, &["todo", "add", "more", "show"]),
        (
            vec![
                out("add argument"),
                err("Error adding todo item: no id is left for another task"),
            ],
            1
        )
    );
}

#[test]
fn a_run_served_by_hand_shows_what_run_shows() {
    let words = ["todo", "add", "A", "add", "B", "done", "2", "done", "x", "show", "nope"];
    let mut by_hand = TaskTable::new();
    let (mut session, mut turn) = Session::start(&line(&words));
    let mut shown = Vec::new();
    let status = loop {
        shown.extend(turn.lines);
        match serve(&mut by_hand, &turn.request) {
            Some(answer) => turn = session.answer(&answer),
            None => match turn.request {
                Request::Exit(status) => break status,
                other => panic!("no answer to {:?}", other),
            },
        }
    };
    let mut table = TaskTable::new();
    assert_eq!(run(&mut table, &words), (shown, status));
    assert_eq!(status, 1);
    assert_eq!(table.list_all(), by_hand.list_all());
    assert_eq!(table.list_all(), vec![Task::new(1, String::from("A"))]);
}
