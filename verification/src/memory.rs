use vstd::prelude::*;
use vstd::string::StringExecFns;

use crate::dispatch::{plan_of, CommandView};
use crate::error::{Stage, TodoError};
use crate::listing::{all_read, lemma_all_read, row_views};
use crate::position::{resolve_position, spec_parse_position, spec_resolve_position};
use crate::report::{
    added_report, added_report_text, lemma_listing_grows, listing_line, listing_lines,
};
use crate::session::{
    advance, fits, in_step, lemma_advance_in_step, lemma_advance_removes_nothing,
    lemma_fitting_answer_moves_on, lemma_respond_in_step, line_views, respond, steps_left, Answer,
    AnswerView, Line, LineView, Request, RequestView, Session, SessionView, Turn, TurnView,
};
use crate::table::{
    lemma_delete_present, lemma_insert_appends, lemma_rows_fit, TableView, TaskTable,
};
use crate::task::{task_views, Task, TaskView};
use crate::text::string_views;

verus! {

/// Adds a task named `name` to the table and returns the confirmation to
/// show.
///
/// Fails with `WriteFailed`, and changes nothing, when the table has no id
/// left to give; succeeds otherwise. Any name is taken, the empty one too.
pub fn add_todo(table: &mut TaskTable, name: &str) -> (outcome: Result<String, TodoError>)
    requires
        old(table).wf(),
    ensures
        final(table).wf(),
        match outcome {
            Ok(report) => {
                &&& old(table)@.can_insert()
                &&& final(table)@ == old(table)@.inserted(name@)
                &&& report@ == added_report(name@)
            },
            Err(error) => {
                &&& !old(table)@.can_insert()
                &&& final(table)@ == old(table)@
                &&& error == TodoError::WriteFailed
            },
        },
{
    match table.insert(name) {
        Ok(()) => Ok(added_report_text(name)),
        Err(error) => Err(error),
    }
}

/// Marks the task shown at position `row` done: lists the table, finds the
/// id of the task at that position and removes the row with that id.
///
/// Returns the number of rows removed, which is one. Fails with
/// `InvalidPosition` when `row` denotes no position and with
/// `PositionNotFound` when the listing is shorter than the position asks; the
/// table is then left as it was.
pub fn remove_todo(table: &mut TaskTable, row: &str) -> (outcome: Result<usize, TodoError>)
    requires
        old(table).wf(),
    ensures
        final(table).wf(),
        final(table)@ == old(table)@.done(row@),
        match spec_resolve_position(old(table)@.rows, row@) {
            Ok(_) => outcome == Ok::<usize, TodoError>(1),
            Err(error) => outcome == Err::<usize, TodoError>(error) && final(table)@ == old(
                table,
            )@,
        },
{
    let listing = table.list_all();
    match resolve_position(&listing, row) {
        Ok(id) => {
            proof {
                let position: u32 = spec_parse_position(row@).unwrap();
                assert(table@.rows[position - 1].id == id);
                assert(table@.holds(id as int));
            }
            Ok(table.delete(id))
        },
        Err(error) => Err(error),
    }
}

/// After a task was added, a listing holds exactly one more entry than
/// before: the entries that were there, in their places, and after them the
/// new task under the name given. Its position is the former count plus one,
/// so that is the position to type for it, and its id is one that no row of
/// the table has.
pub proof fn lemma_add_then_list(table: TableView, name: Seq<char>, text: Seq<char>)
    requires
        table.wf(),
        table.can_insert(),
        spec_parse_position(text) == Some((table.rows.len() + 1) as u32),
    ensures
        table.inserted(name).wf(),
        table.inserted(name).rows.len() == table.rows.len() + 1,
        table.inserted(name).rows.take(table.rows.len() as int) == table.rows,
        table.inserted(name).rows[table.rows.len() as int].name == name,
        !table.holds(table.inserted(name).rows[table.rows.len() as int].id),
        spec_resolve_position(table.inserted(name).rows, text) == Ok::<int, TodoError>(
            table.inserted(name).rows[table.rows.len() as int].id,
        ),
        listing_lines(table.inserted(name).rows) == listing_lines(table.rows).push(
            listing_line(table.rows.len() + 1, name),
        ),
{
    lemma_insert_appends(table, name);
    lemma_listing_grows(table.rows, TaskView { id: table.last_id + 1, name });
    lemma_rows_fit(table);
}

/// An id that was given out stays retired: a task added after any removal
/// gets an id above every id that the table held before.
pub proof fn lemma_id_not_given_again(table: TableView, removed: int, name: Seq<char>)
    requires
        table.wf(),
        table.can_insert(),
    ensures
        table.deleted(removed).last_id == table.last_id,
        forall|i: int|
            0 <= i < table.rows.len() ==> table.deleted(removed).inserted(name).rows.last().id > (
            #[trigger] table.rows[i]).id,
{
}

/// Marking the task at a position of the listing done takes out the row
/// shown there and no other: the rows before it keep their positions, the
/// rows after it move up by one, and every row keeps its id and name.
pub proof fn lemma_done_removes_position(table: TableView, text: Seq<char>, position: u32)
    requires
        table.wf(),
        spec_parse_position(text) == Some(position),
        position <= table.rows.len(),
    ensures
        table.done(text).wf(),
        table.done(text).rows == table.rows.remove(position - 1),
        table.done(text).last_id == table.last_id,
{
    lemma_delete_present(table, position - 1);
}

/// A position beyond the end of the listing is not found, and asking for it
/// removes nothing.
pub proof fn lemma_done_beyond_count(table: TableView, text: Seq<char>, position: u32)
    requires
        spec_parse_position(text) == Some(position),
        position > table.rows.len(),
    ensures
        spec_resolve_position(table.rows, text) == Err::<int, TodoError>(
            TodoError::PositionNotFound,
        ),
        table.done(text) == table,
{
}

/// A text that denotes no position is refused as invalid, and asking for it
/// removes nothing.
pub proof fn lemma_done_invalid_position(table: TableView, text: Seq<char>)
    requires
        spec_parse_position(text) is None,
    ensures
        spec_resolve_position(table.rows, text) == Err::<int, TodoError>(
            TodoError::InvalidPosition,
        ),
        table.done(text) == table,
{
}

/// The table after one task was added for each of `names`, in their order.
pub open spec fn insert_all(table: TableView, names: Seq<Seq<char>>) -> TableView
    decreases names.len(),
{
    if names.len() == 0 {
        table
    } else {
        insert_all(table, names.drop_last()).inserted(names.last())
    }
}

/// The table after the position that `text` denotes was marked done `times`
/// times in a row.
pub open spec fn done_repeatedly(table: TableView, text: Seq<char>, times: nat) -> TableView
    decreases times,
{
    if times == 0 {
        table
    } else {
        done_repeatedly(table.done(text), text, (times - 1) as nat)
    }
}

/// Adding tasks one after another lengthens the table by as many rows, as
/// long as ids are left.
pub proof fn lemma_insert_all(table: TableView, names: Seq<Seq<char>>)
    requires
        table.wf(),
        table.last_id + names.len() <= i32::MAX,
    ensures
        insert_all(table, names).wf(),
        insert_all(table, names).rows.len() == table.rows.len() + names.len(),
        insert_all(table, names).last_id == table.last_id + names.len(),
    decreases names.len(),
{
    if names.len() > 0 {
        lemma_insert_all(table, names.drop_last());
        lemma_insert_appends(insert_all(table, names.drop_last()), names.last());
    }
}

/// Marking the first task done as often as the table has rows leaves no row.
pub proof fn lemma_done_first_empties(table: TableView, first: Seq<char>)
    requires
        table.wf(),
        spec_parse_position(first) == Some(1u32),
    ensures
        done_repeatedly(table, first, table.rows.len()).rows == Seq::<TaskView>::empty(),
    decreases table.rows.len(),
{
    if table.rows.len() > 0 {
        lemma_done_removes_position(table, first, 1);
        lemma_done_first_empties(table.done(first), first);
    } else {
        assert(table.rows =~= Seq::<TaskView>::empty());
    }
}

/// Adding any number of tasks to an empty table and then marking the first
/// task done once for each of them leaves the table empty.
pub proof fn lemma_round_trip(names: Seq<Seq<char>>, first: Seq<char>)
    requires
        names.len() <= i32::MAX,
        spec_parse_position(first) == Some(1u32),
    ensures
        done_repeatedly(insert_all(TableView::empty(), names), first, names.len()).rows
            == Seq::<TaskView>::empty(),
{
    lemma_insert_all(TableView::empty(), names);
    lemma_done_first_empties(insert_all(TableView::empty(), names), first);
}

/// What a table that is full says of a task it cannot take.
pub open spec fn full_table_detail() -> Seq<char> {
    "no id is left for another task"@
}

/// What a table does on a request, and what it answers.
///
/// A scan reads every row and changes nothing. A task is added if an id is
/// left, else the table stays as it is and the answer is a failure to add. A
/// removal takes out the row with the id, if there is one. A request to exit
/// is none for the table: nothing changes and there is no answer.
pub open spec fn served(table: TableView, request: RequestView) -> (TableView, Option<AnswerView>) {
    match request {
        RequestView::Scan => (table, Some(AnswerView::Rows(all_read(table.rows)))),
        RequestView::Insert(name) => if table.can_insert() {
            (table.inserted(name), Some(AnswerView::Changed(1)))
        } else {
            (table, Some(AnswerView::Failed(Stage::AddTask, full_table_detail())))
        },
        RequestView::Delete(id) => (
            table.deleted(id),
            Some(AnswerView::Changed(if table.holds(id) { 1nat } else { 0nat })),
        ),
        RequestView::Exit(_) => (table, None),
    }
}

/// The answer, as specifications see it, if there is one.
pub open spec fn answer_view(answer: Option<Answer>) -> Option<AnswerView> {
    match answer {
        Some(answer) => Some(answer@),
        None => None,
    }
}

/// Carries a request of a session out on the table and returns the answer to
/// hand back, or `None` for the request to exit.
pub fn serve(table: &mut TaskTable, request: &Request) -> (answer: Option<Answer>)
    requires
        old(table).wf(),
    ensures
        final(table).wf(),
        (final(table)@, answer_view(answer)) == served(old(table)@, request@),
{
    match request {
        Request::Scan => {
            let tasks = table.list_all();
            let mut rows: Vec<Result<Task, String>> = Vec::new();
            let mut i: usize = 0;
            while i < tasks.len()
                invariant
                    i <= tasks.len(),
                    row_views(rows@) == all_read(task_views(tasks@).take(i as int)),
                decreases tasks.len() - i,
            {
                let ghost so_far = row_views(rows@);
                rows.push(Ok(tasks[i].duplicate()));
                proof {
                    assert(row_views(rows@) =~= so_far.push(
                        Ok::<TaskView, Seq<char>>(tasks[i as int]@),
                    ));
                    assert(all_read(task_views(tasks@).take(i + 1)) =~= all_read(
                        task_views(tasks@).take(i as int),
                    ).push(Ok::<TaskView, Seq<char>>(tasks[i as int]@)));
                }
                i = i + 1;
            }
            proof {
                assert(task_views(tasks@).take(i as int) =~= task_views(tasks@));
            }
            Some(Answer::Rows(rows))
        },
        Request::Insert(name) => match table.insert(name.as_str()) {
            Ok(()) => Some(Answer::Changed(1)),
            Err(_) => Some(
                Answer::Failed(Stage::AddTask, String::from_str("no id is left for another task")),
            ),
        },
        Request::Delete(id) => Some(Answer::Changed(table.delete(*id))),
        Request::Exit(_) => None,
    }
}

/// A session that is served by a table does to it, for a `done` command,
/// what marking the position done does: the scan of the table makes the
/// session ask for the removal of the task shown at the position, or for no
/// removal when no task is shown there, and the table after that removal, or
/// without one, is the table after the position was marked done.
pub proof fn lemma_session_marks_done(session: SessionView, table: TableView, position: Seq<char>)
    requires
        table.wf(),
        session.ended is None,
        session.removing is None,
        0 <= session.cursor < session.plan.len(),
        session.plan[session.cursor] == CommandView::Done(position),
    ensures
        match respond(session, served(table, RequestView::Scan).1->0).turn.request {
            RequestView::Delete(id) => served(table, RequestView::Delete(id)).0 == table.done(
                position,
            ) && spec_resolve_position(table.rows, position) == Ok::<int, TodoError>(id),
            _ => table == table.done(position) && spec_resolve_position(table.rows, position)
                is Err,
        },
{
    lemma_all_read(table.rows);
    lemma_advance_removes_nothing(session.plan, session.cursor + 1);
}

/// What a run comes to: the lines it shows, in order, the status it ends
/// with, and the table it leaves.
pub struct RunView {
    pub lines: Seq<LineView>,
    pub status: int,
    pub table: TableView,
}

/// What the rest of a run comes to, from a session and its turn on, when a
/// table serves every request: the lines of the turn are shown, the request
/// is carried out on the table, and the run goes on with the turn that the
/// answer produces, until the request is to exit.
pub open spec fn run_from(session: SessionView, turn: TurnView, table: TableView) -> RunView
    decreases steps_left(session),
    when in_step(session, turn)
    via run_from_decreases
{
    match served(table, turn.request) {
        (after, Some(answer)) => {
            let step = respond(session, answer);
            let rest = run_from(step.session, step.turn, after);
            RunView { lines: turn.lines + rest.lines, status: rest.status, table: rest.table }
        },
        (after, None) => RunView {
            lines: turn.lines,
            status: match turn.request {
                RequestView::Exit(status) => status,
                _ => 0,
            },
            table: after,
        },
    }
}

#[via_fn]
proof fn run_from_decreases(session: SessionView, turn: TurnView, table: TableView) {
    match served(table, turn.request).1 {
        Some(answer) => {
            assert(fits(session, answer));
            lemma_fitting_answer_moves_on(session, answer);
        },
        None => {},
    }
}

/// What the run that an argument list asks for comes to on a table.
pub open spec fn run_of(args: Seq<Seq<char>>, table: TableView) -> RunView {
    let begun = advance(plan_of(args), 0);
    run_from(begun.session, begun.turn, table)
}

/// Runs the command line `args` on the table: carries out every command in
/// turn and returns the lines that were shown and the exit status.
pub fn run(table: &mut TaskTable, args: &Vec<String>) -> (outcome: (Vec<Line>, i32))
    requires
        old(table).wf(),
    ensures
        final(table).wf(),
        line_views(outcome.0@) == run_of(string_views(args@), old(table)@).lines,
        outcome.1 == run_of(string_views(args@), old(table)@).status,
        final(table)@ == run_of(string_views(args@), old(table)@).table,
{
    let ghost whole = run_of(string_views(args@), table@);
    let (mut session, mut turn) = Session::start(args);
    let mut shown: Vec<Line> = Vec::new();
    proof {
        lemma_advance_in_step(plan_of(string_views(args@)), 0);
        assert(line_views(shown@) + run_from(session@, turn@, table@).lines =~= whole.lines);
    }
    loop
        invariant
            table.wf(),
            whole == run_of(string_views(args@), old(table)@),
            in_step(session@, turn@),
            line_views(shown@) + run_from(session@, turn@, table@).lines == whole.lines,
            run_from(session@, turn@, table@).status == whole.status,
            run_from(session@, turn@, table@).table == whole.table,
        decreases steps_left(session@),
    {
        let ghost rest = run_from(session@, turn@, table@);
        let ghost before = line_views(shown@);
        let ghost asked = turn@;
        let ghost at = session@;
        let Turn { lines, request } = turn;
        let mut lines = lines;
        shown.append(&mut lines);
        proof {
            assert(line_views(shown@) =~= before + asked.lines);
        }
        match serve(table, &request) {
            Some(answer) => {
                proof {
                    assert(fits(at, answer@));
                    lemma_fitting_answer_moves_on(at, answer@);
                    lemma_respond_in_step(at, answer@);
                }
                turn = session.answer(&answer);
                proof {
                    assert(rest.lines == asked.lines + run_from(session@, turn@, table@).lines);
                    assert(line_views(shown@) + run_from(session@, turn@, table@).lines =~= before
                        + rest.lines);
                }
            },
            None => {
                proof {
                    assert(rest.lines == asked.lines);
                }
                match request {
                    Request::Exit(status) => {
                        return (shown, status);
                    },
                    _ => {
                        return (shown, 0);
                    },
                }
            },
        }
    }
}

} // verus!
