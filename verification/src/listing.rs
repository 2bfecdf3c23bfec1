use vstd::prelude::*;

use crate::error::Stage;
use crate::report::{failure_report, failure_report_text};
use crate::text::string_views;
use crate::task::{task_views, Task, TaskView};

verus! {

/// A row of a scan as specifications see it: a task, or what the store said
/// of a row that it could not read.
pub type RowView = Result<TaskView, Seq<char>>;

/// The views of the rows of a scan, in the same order.
pub open spec fn row_views(rows: Seq<Result<Task, String>>) -> Seq<RowView> {
    rows.map_values(
        |row: Result<Task, String>|
            match row {
                Ok(task) => Ok::<TaskView, Seq<char>>(task@),
                Err(detail) => Err::<TaskView, Seq<char>>(detail@),
            },
    )
}

/// The tasks of the rows that could be read, in the order of the scan.
pub open spec fn readable(rows: Seq<RowView>) -> Seq<TaskView> {
    rows.filter(|row: RowView| row is Ok).map_values(|row: RowView| row->Ok_0)
}

/// The reports of the rows that could not be read, in the order of the scan.
pub open spec fn unreadable(rows: Seq<RowView>) -> Seq<Seq<char>> {
    rows.filter(|row: RowView| row is Err).map_values(
        |row: RowView| failure_report(Stage::ReadRow, row->Err_0),
    )
}

/// The scan in which every one of `tasks` was read, in their order.
pub open spec fn all_read(tasks: Seq<TaskView>) -> Seq<RowView> {
    tasks.map_values(|task: TaskView| Ok::<TaskView, Seq<char>>(task))
}

/// A scan in which every row was read yields all its tasks and no report.
pub proof fn lemma_all_read(tasks: Seq<TaskView>)
    ensures
        readable(all_read(tasks)) == tasks,
        unreadable(all_read(tasks)) == Seq::<Seq<char>>::empty(),
    decreases tasks.len(),
{
    reveal(Seq::filter);
    if tasks.len() == 0 {
        assert(readable(all_read(tasks)) =~= tasks);
        assert(unreadable(all_read(tasks)) =~= Seq::<Seq<char>>::empty());
    } else {
        let front = tasks.drop_last();
        let row = Ok::<TaskView, Seq<char>>(tasks.last());
        lemma_all_read(front);
        lemma_scan_step(all_read(front), row);
        assert(all_read(tasks) =~= all_read(front).push(row));
        assert(front.push(tasks.last()) =~= tasks);
    }
}

/// Appending a row to a scan appends its task to the readable tasks, or its
/// report to the reports, and leaves the other of the two as it was.
proof fn lemma_scan_step(rows: Seq<RowView>, row: RowView)
    ensures
        row is Ok ==> readable(rows.push(row)) == readable(rows).push(row->Ok_0),
        row is Ok ==> unreadable(rows.push(row)) == unreadable(rows),
        row is Err ==> readable(rows.push(row)) == readable(rows),
        row is Err ==> unreadable(rows.push(row)) == unreadable(rows).push(
            failure_report(Stage::ReadRow, row->Err_0),
        ),
{
    reveal(Seq::filter);
    assert(rows.push(row).drop_last() =~= rows);
    let kept = |row: RowView| row is Ok;
    let lost = |row: RowView| row is Err;
    if row is Ok {
        assert(rows.push(row).filter(kept) =~= rows.filter(kept).push(row));
        assert(rows.push(row).filter(lost) =~= rows.filter(lost));
        assert(readable(rows.push(row)) =~= readable(rows).push(row->Ok_0));
    } else {
        assert(rows.push(row).filter(kept) =~= rows.filter(kept));
        assert(rows.push(row).filter(lost) =~= rows.filter(lost).push(row));
        assert(unreadable(rows.push(row)) =~= unreadable(rows).push(
            failure_report(Stage::ReadRow, row->Err_0),
        ));
    }
}

/// The tasks of a scan: every row that could be read, in the order of the
/// scan. Rows that could not be read are passed over.
pub fn readable_tasks(rows: &Vec<Result<Task, String>>) -> (tasks: Vec<Task>)
    ensures
        task_views(tasks@) == readable(row_views(rows@)),
{
    let mut tasks: Vec<Task> = Vec::new();
    let mut i: usize = 0;
    proof {
        reveal(Seq::filter);
        assert(row_views(rows@).take(0) =~= Seq::<RowView>::empty());
        assert(task_views(tasks@) =~= readable(Seq::<RowView>::empty()));
    }
    while i < rows.len()
        invariant
            i <= rows.len(),
            task_views(tasks@) == readable(row_views(rows@).take(i as int)),
        decreases rows.len() - i,
    {
        let ghost seen = row_views(rows@).take(i as int);
        let ghost row = row_views(rows@)[i as int];
        let ghost before = task_views(tasks@);
        proof {
            lemma_scan_step(seen, row);
            assert(row_views(rows@).take(i + 1) =~= seen.push(row));
        }
        match &rows[i] {
            Ok(task) => {
                tasks.push(task.duplicate());
                proof {
                    assert(task_views(tasks@) =~= before.push(task@));
                }
            },
            Err(_) => {},
        }
        i = i + 1;
    }
    proof {
        assert(row_views(rows@).take(i as int) =~= row_views(rows@));
    }
    tasks
}

/// The reports to show of the rows of a scan that could not be read, one for
/// each such row, in the order of the scan.
pub fn unreadable_reports(rows: &Vec<Result<Task, String>>) -> (reports: Vec<String>)
    ensures
        string_views(reports@) == unreadable(row_views(rows@)),
{
    let mut reports: Vec<String> = Vec::new();
    let mut i: usize = 0;
    proof {
        reveal(Seq::filter);
        assert(row_views(rows@).take(0) =~= Seq::<RowView>::empty());
        assert(string_views(reports@) =~= unreadable(Seq::<RowView>::empty()));
    }
    while i < rows.len()
        invariant
            i <= rows.len(),
            string_views(reports@) == unreadable(row_views(rows@).take(i as int)),
        decreases rows.len() - i,
    {
        let ghost seen = row_views(rows@).take(i as int);
        let ghost row = row_views(rows@)[i as int];
        let ghost before = string_views(reports@);
        proof {
            lemma_scan_step(seen, row);
            assert(row_views(rows@).take(i + 1) =~= seen.push(row));
        }
        match &rows[i] {
            Ok(_) => {},
            Err(detail) => {
                let report = failure_report_text(Stage::ReadRow, detail.as_str());
                reports.push(report);
                proof {
                    assert(string_views(reports@) =~= before.push(
                        failure_report(Stage::ReadRow, detail@),
                    ));
                }
            },
        }
        i = i + 1;
    }
    proof {
        assert(row_views(rows@).take(i as int) =~= row_views(rows@));
    }
    reports
}

} // verus!
