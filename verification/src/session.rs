use vstd::prelude::*;

use crate::dispatch::{command_views, parse_config, plan_of, Command, CommandView};
use crate::error::{ends_run_at, error_message, Stage, TodoError};
use crate::listing::{readable, readable_tasks, row_views, unreadable, unreadable_reports, RowView};
use crate::position::{resolve_position, spec_resolve_position};
use crate::report::{
    added_report, added_report_text, announcement, announcement_text, complaint, complaint_text,
    display_help, display_todo_list, failure_report, failure_report_text, listing_lines,
    removal_report, removal_report_text, usage,
};
use crate::text::string_views;
use crate::task::{task_views, Task};

verus! {

/// A line to show.
#[derive(Clone, Debug, PartialEq, Eq)]
pub enum Line {
    /// A message, for standard output.
    Message(String),
    /// A diagnostic, for standard error.
    Diagnostic(String),
}

/// A line as specifications see it.
pub enum LineView {
    Message(Seq<char>),
    Diagnostic(Seq<char>),
}

impl View for Line {
    type V = LineView;

    open spec fn view(&self) -> LineView {
        match self {
            Line::Message(text) => LineView::Message(text@),
            Line::Diagnostic(text) => LineView::Diagnostic(text@),
        }
    }
}

/// The views of `lines`, in the same order.
pub open spec fn line_views(lines: Seq<Line>) -> Seq<LineView> {
    lines.map_values(|line: Line| line@)
}

/// `texts` as messages.
pub open spec fn messages(texts: Seq<Seq<char>>) -> Seq<LineView> {
    texts.map_values(|text: Seq<char>| LineView::Message(text))
}

/// `texts` as diagnostics.
pub open spec fn diagnostics(texts: Seq<Seq<char>>) -> Seq<LineView> {
    texts.map_values(|text: Seq<char>| LineView::Diagnostic(text))
}

/// What the program around the library is asked to do next.
#[derive(Clone, Debug, PartialEq, Eq)]
pub enum Request {
    /// Scan the table and answer with its rows.
    Scan,
    /// Add a task with this name and answer with the number of rows written.
    Insert(String),
    /// Remove the row with this id and answer with the number of rows removed.
    Delete(i32),
    /// End the process with this status. No answer is expected.
    Exit(i32),
}

/// A request as specifications see it.
pub enum RequestView {
    Scan,
    Insert(Seq<char>),
    Delete(int),
    Exit(int),
}

impl View for Request {
    type V = RequestView;

    open spec fn view(&self) -> RequestView {
        match self {
            Request::Scan => RequestView::Scan,
            Request::Insert(name) => RequestView::Insert(name@),
            Request::Delete(id) => RequestView::Delete(*id as int),
            Request::Exit(status) => RequestView::Exit(*status as int),
        }
    }
}

/// What came of a request.
#[derive(Clone, Debug, PartialEq, Eq)]
pub enum Answer {
    /// The rows of a scan, in its order: each a task, or what the store said
    /// of a row that it could not read.
    Rows(Vec<Result<Task, String>>),
    /// The number of rows that a write added or removed.
    Changed(usize),
    /// The store failed at this stage, and said this of it.
    Failed(Stage, String),
}

/// An answer as specifications see it.
pub enum AnswerView {
    Rows(Seq<RowView>),
    Changed(nat),
    Failed(Stage, Seq<char>),
}

impl View for Answer {
    type V = AnswerView;

    open spec fn view(&self) -> AnswerView {
        match self {
            Answer::Rows(rows) => AnswerView::Rows(row_views(rows@)),
            Answer::Changed(count) => AnswerView::Changed(*count as nat),
            Answer::Failed(stage, detail) => AnswerView::Failed(*stage, detail@),
        }
    }
}

/// One turn of the library: the lines to show, in order, and then the
/// request to carry out.
#[derive(Clone, Debug, PartialEq, Eq)]
pub struct Turn {
    pub lines: Vec<Line>,
    pub request: Request,
}

/// A turn as specifications see it.
pub struct TurnView {
    pub lines: Seq<LineView>,
    pub request: RequestView,
}

impl View for Turn {
    type V = TurnView;

    open spec fn view(&self) -> TurnView {
        TurnView { lines: line_views(self.lines@), request: self.request@ }
    }
}

/// Where a run stands, as specifications see it.
pub struct SessionView {
    /// The commands of the run.
    pub plan: Seq<CommandView>,
    /// The index of the command that is being carried out.
    pub cursor: int,
    /// The id whose removal was requested for that command, if one was.
    pub removing: Option<int>,
    /// The status with which the run ended, if it has.
    pub ended: Option<int>,
}

/// A session after a step, and the turn that the step produced.
pub struct StepView {
    pub session: SessionView,
    pub turn: TurnView,
}

/// The lines that come before anything else is done about a command: what
/// announces it, then the complaint that stands for it.
pub open spec fn preface(command: CommandView) -> Seq<LineView> {
    (match announcement(command) {
        Some(text) => seq![LineView::Message(text)],
        None => Seq::empty(),
    }) + (match complaint(command) {
        Some(text) => seq![LineView::Diagnostic(text)],
        None => Seq::empty(),
    })
}

/// The step that works the plan off from the command at `cursor` on, up to
/// the first command that needs the store or ends the run.
///
/// A command that needs the store is announced and its request made. The
/// usage text is shown and the run ends with status 1; so it does, after the
/// complaint, for a line without a command. A verb without its argument gets
/// its complaint and the plan goes on. When no command is left the run ends
/// with status 0.
pub open spec fn advance(plan: Seq<CommandView>, cursor: int) -> StepView
    decreases plan.len() - cursor,
{
    if cursor < 0 || cursor >= plan.len() {
        StepView {
            session: SessionView { plan, cursor, removing: None, ended: Some(0) },
            turn: TurnView { lines: Seq::empty(), request: RequestView::Exit(0) },
        }
    } else {
        let waiting = SessionView { plan, cursor, removing: None, ended: None };
        let over = SessionView { plan, cursor, removing: None, ended: Some(1) };
        match plan[cursor] {
            CommandView::Add(name) => StepView {
                session: waiting,
                turn: TurnView { lines: preface(plan[cursor]), request: RequestView::Insert(name) },
            },
            CommandView::Done(_) => StepView {
                session: waiting,
                turn: TurnView { lines: preface(plan[cursor]), request: RequestView::Scan },
            },
            CommandView::Show => StepView {
                session: waiting,
                turn: TurnView { lines: preface(plan[cursor]), request: RequestView::Scan },
            },
            CommandView::Help => StepView {
                session: over,
                turn: TurnView {
                    lines: preface(plan[cursor]).push(LineView::Message(usage())),
                    request: RequestView::Exit(1),
                },
            },
            CommandView::NotEnoughArguments => StepView {
                session: over,
                turn: TurnView { lines: preface(plan[cursor]), request: RequestView::Exit(1) },
            },
            CommandView::MissingArgument(_) => {
                let rest = advance(plan, cursor + 1);
                StepView {
                    session: rest.session,
                    turn: TurnView {
                        lines: preface(plan[cursor]) + rest.turn.lines,
                        request: rest.turn.request,
                    },
                }
            },
        }
    }
}

/// The step that shows `lines` and then goes on with the command after the
/// one at hand.
pub open spec fn go_on(session: SessionView, lines: Seq<LineView>) -> StepView {
    let rest = advance(session.plan, session.cursor + 1);
    StepView {
        session: rest.session,
        turn: TurnView { lines: lines + rest.turn.lines, request: rest.turn.request },
    }
}

/// The request that a session waits to hear of.
pub open spec fn awaited(session: SessionView) -> RequestView {
    if session.ended is Some {
        RequestView::Exit(session.ended->0)
    } else if session.cursor < 0 || session.cursor >= session.plan.len() {
        RequestView::Exit(0)
    } else {
        match session.plan[session.cursor] {
            CommandView::Add(name) => RequestView::Insert(name),
            CommandView::Done(_) => match session.removing {
                Some(id) => RequestView::Delete(id),
                None => RequestView::Scan,
            },
            CommandView::Show => RequestView::Scan,
            CommandView::Help => RequestView::Exit(1),
            CommandView::NotEnoughArguments => RequestView::Exit(1),
            CommandView::MissingArgument(_) => RequestView::Exit(0),
        }
    }
}

/// The step that makes the awaited request once more and shows nothing: what
/// happens on an answer that does not fit the request.
pub open spec fn ask_again(session: SessionView) -> StepView {
    StepView { session, turn: TurnView { lines: Seq::empty(), request: awaited(session) } }
}

/// The step that a session takes on an answer.
///
/// A failure is reported. It ends the run with status 1 where the stage says
/// so, else the plan goes on. The rows of a scan have their unreadable ones
/// reported and are then shown as a listing, or have the typed position
/// looked up among the readable ones: if a task is shown there its removal is
/// requested, if not the error is shown, nothing is removed and the plan goes
/// on. A write is confirmed and the plan goes on. A session that has ended
/// stays ended.
pub open spec fn respond(session: SessionView, answer: AnswerView) -> StepView {
    if session.ended is Some || session.cursor < 0 || session.cursor >= session.plan.len() {
        ask_again(session)
    } else {
        let command = session.plan[session.cursor];
        match answer {
            AnswerView::Failed(stage, detail) => {
                let report = seq![LineView::Diagnostic(failure_report(stage, detail))];
                if ends_run_at(stage) {
                    StepView {
                        session: SessionView { removing: None, ended: Some(1), ..session },
                        turn: TurnView { lines: report, request: RequestView::Exit(1) },
                    }
                } else {
                    go_on(session, report)
                }
            },
            AnswerView::Changed(count) => match command {
                CommandView::Add(name) => go_on(session, seq![LineView::Message(added_report(name))]),
                CommandView::Done(_) => if session.removing is Some {
                    go_on(session, seq![LineView::Message(removal_report(count))])
                } else {
                    ask_again(session)
                },
                _ => ask_again(session),
            },
            AnswerView::Rows(rows) => match command {
                CommandView::Show => go_on(
                    session,
                    diagnostics(unreadable(rows)) + messages(listing_lines(readable(rows))),
                ),
                CommandView::Done(position) => if session.removing is Some {
                    ask_again(session)
                } else {
                    match spec_resolve_position(readable(rows), position) {
                        Ok(id) => StepView {
                            session: SessionView { removing: Some(id), ..session },
                            turn: TurnView {
                                lines: diagnostics(unreadable(rows)),
                                request: RequestView::Delete(id),
                            },
                        },
                        Err(error) => go_on(
                            session,
                            diagnostics(unreadable(rows)).push(LineView::Diagnostic(error_message(error))),
                        ),
                    }
                },
                _ => ask_again(session),
            },
        }
    }
}

/// Working the plan off never asks for a removal, and leaves none under way.
pub proof fn lemma_advance_removes_nothing(plan: Seq<CommandView>, cursor: int)
    ensures
        !(advance(plan, cursor).turn.request is Delete),
        advance(plan, cursor).session.removing is None,
        advance(plan, cursor).session.plan == plan,
    decreases plan.len() - cursor,
{
    if 0 <= cursor < plan.len() && plan[cursor] is MissingArgument {
        lemma_advance_removes_nothing(plan, cursor + 1);
    }
}

/// A removal is requested only on the rows of a scan, for a `done` command
/// whose position is shown in the listing of the readable rows, and then for
/// the id of the task shown there. Nothing else makes a session ask for one.
pub proof fn lemma_removal_only_of_shown_task(session: SessionView, answer: AnswerView, id: int)
    requires
        respond(session, answer).turn.request == RequestView::Delete(id),
        session.removing is None,
    ensures
        session.ended is None,
        0 <= session.cursor < session.plan.len(),
        session.plan[session.cursor] is Done,
        answer is Rows,
        spec_resolve_position(readable(answer->Rows_0), session.plan[session.cursor]->Done_0)
            == Ok::<int, TodoError>(id),
{
    lemma_advance_removes_nothing(session.plan, session.cursor + 1);
}

/// A position that cannot be resolved is answered with its error message,
/// and the session goes on to the next command without asking for a removal.
pub proof fn lemma_refused_position_removes_nothing(
    session: SessionView,
    rows: Seq<RowView>,
    position: Seq<char>,
    error: TodoError,
)
    requires
        session.ended is None,
        session.removing is None,
        0 <= session.cursor < session.plan.len(),
        session.plan[session.cursor] == CommandView::Done(position),
        spec_resolve_position(readable(rows), position) == Err::<int, TodoError>(error),
    ensures
        !(respond(session, AnswerView::Rows(rows)).turn.request is Delete),
        respond(session, AnswerView::Rows(rows)).turn.lines[unreadable(rows).len() as int]
            == LineView::Diagnostic(error_message(error)),
        respond(session, AnswerView::Rows(rows)).session == advance(
            session.plan,
            session.cursor + 1,
        ).session,
{
    lemma_advance_removes_nothing(session.plan, session.cursor + 1);
}

/// Whether a turn belongs to a session: whether its request is the one that
/// the session waits to hear of.
pub open spec fn in_step(session: SessionView, turn: TurnView) -> bool {
    turn.request == awaited(session)
}

/// The turn that working the plan off produces belongs to the session that
/// it leaves.
pub proof fn lemma_advance_in_step(plan: Seq<CommandView>, cursor: int)
    ensures
        in_step(advance(plan, cursor).session, advance(plan, cursor).turn),
    decreases plan.len() - cursor,
{
    if 0 <= cursor < plan.len() && plan[cursor] is MissingArgument {
        lemma_advance_in_step(plan, cursor + 1);
    }
}

/// The turn that an answer produces belongs to the session that it leaves:
/// a session always waits for what it last asked.
pub proof fn lemma_respond_in_step(session: SessionView, answer: AnswerView)
    ensures
        in_step(respond(session, answer).session, respond(session, answer).turn),
{
    lemma_advance_in_step(session.plan, session.cursor + 1);
}

/// Whether an answer is one that the session can use: a failure always is,
/// rows are for a listing or for a position that is yet to be looked up, and
/// a count of rows is for an addition or for a removal that is under way.
pub open spec fn fits(session: SessionView, answer: AnswerView) -> bool {
    &&& session.ended is None
    &&& 0 <= session.cursor < session.plan.len()
    &&& match answer {
        AnswerView::Failed(_, _) => true,
        AnswerView::Changed(_) => session.plan[session.cursor] is Add || (
        session.plan[session.cursor] is Done && session.removing is Some),
        AnswerView::Rows(_) => session.plan[session.cursor] is Show || (
        session.plan[session.cursor] is Done && session.removing is None),
    }
}

/// How much of a run is left: nothing once it has ended, else two steps for
/// each command from the one at hand on, less one when a removal is under
/// way.
pub open spec fn steps_left(session: SessionView) -> int {
    if session.ended is Some || session.cursor < 0 || session.cursor >= session.plan.len() {
        0
    } else if session.removing is Some {
        2 * (session.plan.len() - session.cursor) - 1
    } else {
        2 * (session.plan.len() - session.cursor)
    }
}

/// Working the plan off from a command on leaves at most the steps of the
/// commands from there on.
pub proof fn lemma_advance_steps_left(plan: Seq<CommandView>, cursor: int)
    requires
        0 <= cursor <= plan.len(),
    ensures
        steps_left(advance(plan, cursor).session) <= 2 * (plan.len() - cursor),
        0 <= steps_left(advance(plan, cursor).session),
    decreases plan.len() - cursor,
{
    if cursor < plan.len() && plan[cursor] is MissingArgument {
        lemma_advance_steps_left(plan, cursor + 1);
    }
}

/// Every answer that fits moves the run on: less of it is left afterwards.
/// So a run whose requests are answered ends after at most twice as many
/// answers as it has commands.
pub proof fn lemma_fitting_answer_moves_on(session: SessionView, answer: AnswerView)
    requires
        fits(session, answer),
    ensures
        0 <= steps_left(respond(session, answer).session) < steps_left(session),
{
    lemma_advance_steps_left(session.plan, session.cursor + 1);
    lemma_advance_removes_nothing(session.plan, session.cursor + 1);
}

/// A run of the program, from its argument list to its exit status.
///
/// The session decides and words everything; the program around it shows the
/// lines of each turn, carries the request out on the store and hands the
/// answer back, until the request is to exit.
#[derive(Debug)]
pub struct Session {
    plan: Vec<Command>,
    cursor: usize,
    removing: Option<i32>,
    ended: Option<i32>,
}

/// An optional machine integer as the mathematical integer it holds.
pub open spec fn widened(value: Option<i32>) -> Option<int> {
    match value {
        Some(n) => Some(n as int),
        None => None,
    }
}

impl View for Session {
    type V = SessionView;

    closed spec fn view(&self) -> SessionView {
        SessionView {
            plan: command_views(self.plan@),
            cursor: self.cursor as int,
            removing: widened(self.removing),
            ended: widened(self.ended),
        }
    }
}

/// Appends `texts` to `lines`, as diagnostics or as messages.
fn push_texts(lines: &mut Vec<Line>, texts: &Vec<String>, as_diagnostics: bool)
    ensures
        line_views(final(lines)@) == line_views(old(lines)@) + (if as_diagnostics {
            diagnostics(string_views(texts@))
        } else {
            messages(string_views(texts@))
        }),
{
    let ghost before = line_views(lines@);
    let ghost all = if as_diagnostics {
        diagnostics(string_views(texts@))
    } else {
        messages(string_views(texts@))
    };
    let mut i: usize = 0;
    assert(line_views(lines@) =~= before + all.take(0));
    while i < texts.len()
        invariant
            i <= texts.len(),
            all == (if as_diagnostics {
                diagnostics(string_views(texts@))
            } else {
                messages(string_views(texts@))
            }),
            line_views(lines@) == before + all.take(i as int),
        decreases texts.len() - i,
    {
        let text = texts[i].clone();
        let ghost so_far = line_views(lines@);
        if as_diagnostics {
            lines.push(Line::Diagnostic(text));
        } else {
            lines.push(Line::Message(text));
        }
        proof {
            assert(line_views(lines@) =~= so_far.push(all[i as int]));
            assert(before + all.take(i + 1) =~= (before + all.take(i as int)).push(all[i as int]));
        }
        i = i + 1;
    }
    proof {
        assert(all.take(i as int) =~= all);
    }
}

/// Appends to `lines` what comes before anything else is done about
/// `command`.
fn push_preface(lines: &mut Vec<Line>, command: &Command)
    ensures
        line_views(final(lines)@) == line_views(old(lines)@) + preface(command@),
{
    let ghost before = line_views(lines@);
    let ghost announced = match announcement(command@) {
        Some(text) => seq![LineView::Message(text)],
        None => Seq::empty(),
    };
    match announcement_text(command) {
        Some(text) => {
            lines.push(Line::Message(text));
        },
        None => {},
    }
    assert(line_views(lines@) =~= before + announced);
    match complaint_text(command) {
        Some(text) => {
            lines.push(Line::Diagnostic(text));
        },
        None => {},
    }
    assert(line_views(lines@) =~= before + preface(command@));
}

/// Works the plan off from `cursor` on, appending what is to be shown to
/// `lines`. Returns where the session then stands: the index of the command
/// at hand, the status if the run has ended, and the request to make.
fn advance_from(plan: &Vec<Command>, cursor: usize, lines: &mut Vec<Line>) -> (next: (
    usize,
    Option<i32>,
    Request,
))
    ensures
        line_views(final(lines)@) == line_views(old(lines)@) + advance(
            command_views(plan@),
            cursor as int,
        ).turn.lines,
        advance(command_views(plan@), cursor as int).session == (SessionView {
            plan: command_views(plan@),
            cursor: next.0 as int,
            removing: None,
            ended: widened(next.1),
        }),
        advance(command_views(plan@), cursor as int).turn.request == next.2@,
    decreases plan.len() - cursor,
{
    let ghost before = line_views(lines@);
    if cursor >= plan.len() {
        assert(line_views(lines@) =~= before + Seq::<LineView>::empty());
        return (cursor, Some(0), Request::Exit(0));
    }
    let command = &plan[cursor];
    assert(command_views(plan@)[cursor as int] == command@);
    push_preface(lines, command);
    match command {
        Command::Add(name) => (cursor, None, Request::Insert(name.clone())),
        Command::Done(_) => (cursor, None, Request::Scan),
        Command::Show => (cursor, None, Request::Scan),
        Command::Help => {
            lines.push(Line::Message(display_help()));
            assert(line_views(lines@) =~= before + preface(command@).push(
                LineView::Message(usage()),
            ));
            (cursor, Some(1), Request::Exit(1))
        },
        Command::NotEnoughArguments => (cursor, Some(1), Request::Exit(1)),
        Command::MissingArgument(_) => {
            let ghost rest = advance(command_views(plan@), cursor + 1);
            let next = advance_from(plan, cursor + 1, lines);
            assert(line_views(lines@) =~= before + (preface(command@) + rest.turn.lines));
            next
        },
    }
}

impl Session {
    /// Begins the run that `args` asks for. The first argument is the name
    /// the program was called by.
    ///
    /// Returns the session and its first turn: what to show, and the first
    /// request.
    pub fn start(args: &Vec<String>) -> (begun: (Session, Turn))
        ensures
            (StepView { session: begun.0@, turn: begun.1@ }) == advance(
                plan_of(string_views(args@)),
                0,
            ),
    {
        let plan = parse_config(args);
        let mut lines: Vec<Line> = Vec::new();
        let (cursor, ended, request) = advance_from(&plan, 0, &mut lines);
        assert(line_views(lines@) =~= advance(command_views(plan@), 0).turn.lines);
        (Session { plan, cursor, removing: None, ended }, Turn { lines, request })
    }

    /// The request that the session waits to hear of.
    pub fn awaited(&self) -> (request: Request)
        ensures
            request@ == awaited(self@),
    {
        match self.ended {
            Some(status) => Request::Exit(status),
            None => {
                if self.cursor >= self.plan.len() {
                    Request::Exit(0)
                } else {
                    assert(command_views(self.plan@)[self.cursor as int]
                        == self.plan[self.cursor as int]@);
                    match &self.plan[self.cursor] {
                        Command::Add(name) => Request::Insert(name.clone()),
                        Command::Done(_) => match self.removing {
                            Some(id) => Request::Delete(id),
                            None => Request::Scan,
                        },
                        Command::Show => Request::Scan,
                        Command::Help => Request::Exit(1),
                        Command::NotEnoughArguments => Request::Exit(1),
                        Command::MissingArgument(_) => Request::Exit(0),
                    }
                }
            },
        }
    }

    /// Shows `lines` and goes on with the command after the one at hand.
    fn go_on(&mut self, lines: Vec<Line>) -> (turn: Turn)
        requires
            old(self).cursor < old(self).plan.len(),
        ensures
            (StepView { session: final(self)@, turn: turn@ }) == go_on(
                old(self)@,
                line_views(lines@),
            ),
    {
        let mut lines = lines;
        let (cursor, ended, request) = advance_from(&self.plan, self.cursor + 1, &mut lines);
        self.cursor = cursor;
        self.removing = None;
        self.ended = ended;
        Turn { lines, request }
    }

    /// Shows nothing and makes the awaited request once more.
    fn ask_again(&self) -> (turn: Turn)
        ensures
            (StepView { session: self@, turn: turn@ }) == ask_again(self@),
    {
        let lines: Vec<Line> = Vec::new();
        let request = self.awaited();
        assert(line_views(lines@) =~= Seq::<LineView>::empty());
        Turn { lines, request }
    }

    /// Takes the answer to the request of the last turn and returns the next
    /// turn.
    ///
    /// An answer that does not fit the request changes nothing: the request
    /// is made once more.
    pub fn answer(&mut self, answer: &Answer) -> (turn: Turn)
        ensures
            (StepView { session: final(self)@, turn: turn@ }) == respond(old(self)@, answer@),
    {
        if self.ended.is_some() || self.cursor >= self.plan.len() {
            return self.ask_again();
        }
        assert(command_views(self.plan@)[self.cursor as int] == self.plan[self.cursor as int]@);
        let mut lines: Vec<Line> = Vec::new();
        assert(line_views(lines@) =~= Seq::<LineView>::empty());
        match answer {
            Answer::Failed(stage, detail) => {
                lines.push(Line::Diagnostic(failure_report_text(*stage, detail.as_str())));
                assert(line_views(lines@) =~= seq![
                    LineView::Diagnostic(failure_report(*stage, detail@)),
                ]);
                if stage.ends_run() {
                    self.removing = None;
                    self.ended = Some(1);
                    Turn { lines, request: Request::Exit(1) }
                } else {
                    self.go_on(lines)
                }
            },
            Answer::Changed(count) => {
                match &self.plan[self.cursor] {
                    Command::Add(name) => {
                        lines.push(Line::Message(added_report_text(name.as_str())));
                        assert(line_views(lines@) =~= seq![LineView::Message(added_report(name@))]);
                        self.go_on(lines)
                    },
                    Command::Done(_) => {
                        if self.removing.is_some() {
                            lines.push(Line::Message(removal_report_text(*count)));
                            assert(line_views(lines@) =~= seq![
                                LineView::Message(removal_report(*count as nat)),
                            ]);
                            self.go_on(lines)
                        } else {
                            self.ask_again()
                        }
                    },
                    _ => self.ask_again(),
                }
            },
            Answer::Rows(rows) => {
                match &self.plan[self.cursor] {
                    Command::Show => {
                        let reports = unreadable_reports(rows);
                        let listing = display_todo_list(&readable_tasks(rows));
                        push_texts(&mut lines, &reports, true);
                        push_texts(&mut lines, &listing, false);
                        assert(line_views(lines@) =~= diagnostics(unreadable(row_views(rows@)))
                            + messages(listing_lines(readable(row_views(rows@)))));
                        self.go_on(lines)
                    },
                    Command::Done(position) => {
                        if self.removing.is_some() {
                            self.ask_again()
                        } else {
                            let reports = unreadable_reports(rows);
                            push_texts(&mut lines, &reports, true);
                            assert(line_views(lines@) =~= diagnostics(
                                unreadable(row_views(rows@)),
                            ));
                            match resolve_position(&readable_tasks(rows), position.as_str()) {
                                Ok(id) => {
                                    self.removing = Some(id);
                                    Turn { lines, request: Request::Delete(id) }
                                },
                                Err(error) => {
                                    let ghost so_far = line_views(lines@);
                                    lines.push(Line::Diagnostic(error.message()));
                                    assert(line_views(lines@) =~= so_far.push(
                                        LineView::Diagnostic(error_message(error)),
                                    ));
                                    self.go_on(lines)
                                },
                            }
                        }
                    },
                    _ => self.ask_again(),
                }
            },
        }
    }
}

} // verus!
