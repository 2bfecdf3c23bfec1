use vstd::prelude::*;

use crate::error::TodoError;
use crate::position::spec_resolve_position;
use crate::task::{task_views, Task, TaskView};

verus! {

/// The table of tasks as specifications see it: the rows in the order in which
/// a listing yields them, and the highest id that was ever given out.
pub struct TableView {
    pub rows: Seq<TaskView>,
    pub last_id: int,
}

/// The test that keeps every row but the one with the given id.
pub open spec fn other_than(id: int) -> spec_fn(TaskView) -> bool {
    |task: TaskView| task.id != id
}

impl TableView {
    /// What holds of every table: ids are positive and were given out in
    /// ascending order, so no two rows share one, and none exceeds the highest
    /// id given out so far.
    pub open spec fn wf(self) -> bool {
        &&& 0 <= self.last_id <= i32::MAX
        &&& forall|i: int| 0 <= i < self.rows.len() ==> 1 <= (#[trigger] self.rows[i]).id <= self.last_id
        &&& forall|i: int, j: int|
            0 <= i < j < self.rows.len() ==> (#[trigger] self.rows[i]).id < (#[trigger] self.rows[j]).id
    }

    /// The table of a store that was just created: no rows, no id given out.
    pub open spec fn empty() -> TableView {
        TableView { rows: Seq::empty(), last_id: 0 }
    }

    /// The table that holds exactly `rows` and has given out no id beyond
    /// the one of its last row.
    pub open spec fn of_rows(rows: Seq<TaskView>) -> TableView {
        TableView { rows, last_id: if rows.len() == 0 { 0 } else { rows.last().id } }
    }

    /// Whether an id is left for one more task.
    pub open spec fn can_insert(self) -> bool {
        self.last_id < i32::MAX
    }

    /// Whether some row has the given id.
    pub open spec fn holds(self, id: int) -> bool {
        exists|i: int| 0 <= i < self.rows.len() && (#[trigger] self.rows[i]).id == id
    }

    /// The table after a task named `name` was added: it goes last, under the
    /// id that follows the highest given out so far.
    pub open spec fn inserted(self, name: Seq<char>) -> TableView {
        TableView {
            rows: self.rows.push(TaskView { id: self.last_id + 1, name }),
            last_id: self.last_id + 1,
        }
    }

    /// The table after the row with the given id was removed: the other rows,
    /// in their order. The ids given out are not given out again.
    pub open spec fn deleted(self, id: int) -> TableView {
        TableView { rows: self.rows.filter(other_than(id)), last_id: self.last_id }
    }

    /// The table after the task shown at the position that `text` denotes was
    /// marked done: without that task, or as it was where there is none.
    pub open spec fn done(self, text: Seq<char>) -> TableView {
        match spec_resolve_position(self.rows, text) {
            Ok(id) => self.deleted(id),
            Err(_) => self,
        }
    }
}

/// The id of a row is at least its position.
pub proof fn lemma_ids_reach_positions(table: TableView, i: int)
    requires
        table.wf(),
        0 <= i < table.rows.len(),
    ensures
        table.rows[i].id >= i + 1,
    decreases i,
{
    if i > 0 {
        lemma_ids_reach_positions(table, i - 1);
        assert(table.rows[i - 1].id < table.rows[i].id);
    }
}

/// A table has no more rows than ids were given out.
pub proof fn lemma_rows_fit(table: TableView)
    requires
        table.wf(),
    ensures
        table.rows.len() <= table.last_id,
{
    if table.rows.len() > 0 {
        let last = table.rows.len() - 1;
        lemma_ids_reach_positions(table, last);
        assert(table.rows[last].id <= table.last_id);
    }
}

/// Adding a task keeps the table well formed, keeps the rows that were there
/// in their places, and puts the new task, under a fresh id, after them.
pub proof fn lemma_insert_appends(table: TableView, name: Seq<char>)
    requires
        table.wf(),
        table.can_insert(),
    ensures
        table.inserted(name).wf(),
        table.inserted(name).rows.len() == table.rows.len() + 1,
        table.inserted(name).rows.take(table.rows.len() as int) == table.rows,
        table.inserted(name).rows[table.rows.len() as int].name == name,
        !table.holds(table.inserted(name).rows[table.rows.len() as int].id),
{
    let after = table.inserted(name);
    assert(after.rows.take(table.rows.len() as int) =~= table.rows);
    assert forall|i: int| 0 <= i < after.rows.len() implies 1 <= (#[trigger] after.rows[i]).id
        <= after.last_id by {
        if i < table.rows.len() {
            assert(after.rows[i] == table.rows[i]);
        }
    }
    assert forall|i: int, j: int| 0 <= i < j < after.rows.len() implies (#[trigger] after.rows[i]).id
        < (#[trigger] after.rows[j]).id by {
        assert(after.rows[i] == table.rows[i]);
        if j < table.rows.len() {
            assert(after.rows[j] == table.rows[j]);
        }
    }
}

/// Removing an id that no row has leaves the rows as they were.
pub proof fn lemma_delete_absent(table: TableView, id: int)
    requires
        !table.holds(id),
    ensures
        table.deleted(id) == table,
    decreases table.rows.len(),
{
    reveal(Seq::filter);
    if table.rows.len() > 0 {
        let front = TableView { rows: table.rows.drop_last(), last_id: table.last_id };
        assert(!front.holds(id)) by {
            if front.holds(id) {
                let i = choose|i: int| 0 <= i < front.rows.len() && (#[trigger] front.rows[i]).id == id;
                assert(table.rows[i].id == id);
            }
        }
        lemma_delete_absent(front, id);
        assert(table.rows.last().id != id);
        assert(front.rows.push(table.rows.last()) =~= table.rows);
    }
}

/// Removing the id of the row at index `i` takes exactly that row out. The
/// table stays well formed.
pub proof fn lemma_delete_present(table: TableView, i: int)
    requires
        table.wf(),
        0 <= i < table.rows.len(),
    ensures
        table.deleted(table.rows[i].id).rows == table.rows.remove(i),
        table.deleted(table.rows[i].id).wf(),
    decreases table.rows.len(),
{
    reveal(Seq::filter);
    let id = table.rows[i].id;
    let front = TableView { rows: table.rows.drop_last(), last_id: table.last_id };
    if i == table.rows.len() - 1 {
        assert(!front.holds(id)) by {
            if front.holds(id) {
                let j = choose|j: int| 0 <= j < front.rows.len() && (#[trigger] front.rows[j]).id == id;
                assert(table.rows[j].id < table.rows[i].id);
            }
        }
        lemma_delete_absent(front, id);
        assert(table.rows.remove(i) =~= front.rows);
    } else {
        assert(front.wf()) by {
            assert forall|a: int| 0 <= a < front.rows.len() implies 1 <= (#[trigger] front.rows[a]).id
                <= front.last_id by {
                assert(front.rows[a] == table.rows[a]);
            }
            assert forall|a: int, b: int| 0 <= a < b < front.rows.len() implies (#[trigger] front.rows[a]).id
                < (#[trigger] front.rows[b]).id by {
                assert(front.rows[a] == table.rows[a]);
                assert(front.rows[b] == table.rows[b]);
            }
        }
        lemma_delete_present(front, i);
        assert(table.rows[i].id < table.rows.last().id);
        assert(front.rows.remove(i).push(table.rows.last()) =~= table.rows.remove(i));
    }
    let after = table.deleted(id);
    assert(after.wf()) by {
        assert forall|a: int| 0 <= a < after.rows.len() implies 1 <= (#[trigger] after.rows[a]).id
            <= after.last_id by {
            if a < i {
                assert(after.rows[a] == table.rows[a]);
            } else {
                assert(after.rows[a] == table.rows[a + 1]);
            }
        }
        assert forall|a: int, b: int| 0 <= a < b < after.rows.len() implies (#[trigger] after.rows[a]).id
            < (#[trigger] after.rows[b]).id by {
            let a0 = if a < i { a } else { a + 1 };
            let b0 = if b < i { b } else { b + 1 };
            assert(after.rows[a] == table.rows[a0]);
            assert(after.rows[b] == table.rows[b0]);
        }
    }
}

/// The table of tasks, kept in memory.
///
/// Rows stay in the order in which they were added. Every new task gets the
/// id after the highest one given out so far, whether or not that task is
/// still there, so an id is never used twice.
#[derive(Debug)]
pub struct TaskTable {
    rows: Vec<Task>,
    last_id: i32,
}

impl View for TaskTable {
    type V = TableView;

    closed spec fn view(&self) -> TableView {
        TableView { rows: task_views(self.rows@), last_id: self.last_id as int }
    }
}

impl TaskTable {
    /// Whether the table is in a state that its operations keep it in. Every
    /// table made by [`TaskTable::new`] and changed by the operations below is.
    pub open spec fn wf(&self) -> bool {
        self@.wf()
    }

    /// A table without rows, from which no id was given out yet.
    pub fn new() -> (table: TaskTable)
        ensures
            table.wf(),
            table@ == TableView::empty(),
    {
        let table = TaskTable { rows: Vec::new(), last_id: 0 };
        assert(table@.rows =~= Seq::<TaskView>::empty());
        table
    }

    /// The table that holds the tasks of a listing, if they can be the rows
    /// of a table: if their ids are positive and ascend from each to the
    /// next. The next task added gets the id after the last of the listing.
    pub fn from_listing(tasks: Vec<Task>) -> (restored: Option<TaskTable>)
        ensures
            match restored {
                Some(table) => table.wf() && table@ == TableView::of_rows(task_views(tasks@)),
                None => !TableView::of_rows(task_views(tasks@)).wf(),
            },
    {
        let ghost rows = task_views(tasks@);
        let mut last_id: i32 = 0;
        let mut i: usize = 0;
        while i < tasks.len()
            invariant
                i <= tasks.len(),
                rows == task_views(tasks@),
                0 <= last_id,
                i == 0 ==> last_id == 0,
                i > 0 ==> last_id == rows[i - 1].id,
                forall|j: int| 0 <= j < i ==> 1 <= (#[trigger] rows[j]).id <= last_id,
                forall|j: int, k: int|
                    0 <= j < k < i ==> (#[trigger] rows[j]).id < (#[trigger] rows[k]).id,
            decreases tasks.len() - i,
        {
            let id: i32 = tasks[i].id;
            assert(rows[i as int].id == id);
            if id <= last_id {
                proof {
                    let table = TableView::of_rows(rows);
                    if table.wf() {
                        assert(1 <= table.rows[i as int].id);
                        if i > 0 {
                            assert(table.rows[i - 1].id < table.rows[i as int].id);
                        }
                    }
                }
                return None;
            }
            last_id = id;
            i = i + 1;
        }
        Some(TaskTable { rows: tasks, last_id })
    }

    /// Adds a task named `name` after the rows that are there.
    ///
    /// Fails with `WriteFailed`, and changes nothing, when the ids are used
    /// up; succeeds otherwise.
    pub fn insert(&mut self, name: &str) -> (outcome: Result<(), TodoError>)
        requires
            old(self).wf(),
        ensures
            final(self).wf(),
            old(self)@.can_insert() ==> outcome == Ok::<(), TodoError>(()) && final(self)@ == old(
                self,
            )@.inserted(name@),
            !old(self)@.can_insert() ==> outcome == Err::<(), TodoError>(TodoError::WriteFailed)
                && final(self)@ == old(self)@,
    {
        if self.last_id == i32::MAX {
            return Err(TodoError::WriteFailed);
        }
        let id: i32 = self.last_id + 1;
        let ghost before = self.rows@;
        self.last_id = id;
        self.rows.push(Task::new(id, name.to_owned()));
        proof {
            assert(task_views(self.rows@) =~= task_views(before).push(
                TaskView { id: id as int, name: name@ },
            ));
            lemma_insert_appends(old(self)@, name@);
        }
        Ok(())
    }

    /// The tasks in the order in which they were added.
    pub fn list_all(&self) -> (tasks: Vec<Task>)
        ensures
            task_views(tasks@) == self@.rows,
    {
        let mut tasks: Vec<Task> = Vec::new();
        let mut i: usize = 0;
        while i < self.rows.len()
            invariant
                i <= self.rows.len(),
                tasks@ == self.rows@.take(i as int),
            decreases self.rows.len() - i,
        {
            tasks.push(self.rows[i].duplicate());
            proof {
                assert(tasks@ =~= self.rows@.take(i + 1));
            }
            i = i + 1;
        }
        proof {
            assert(self.rows@.take(i as int) =~= self.rows@);
        }
        tasks
    }

    /// Removes the task with the given id and returns how many rows went: one
    /// if a row had that id, none otherwise.
    pub fn delete(&mut self, id: i32) -> (removed: usize)
        requires
            old(self).wf(),
        ensures
            final(self).wf(),
            final(self)@ == old(self)@.deleted(id as int),
            removed == (if old(self)@.holds(id as int) { 1usize } else { 0usize }),
    {
        let ghost before = self@;
        let mut i: usize = 0;
        while i < self.rows.len()
            invariant
                i <= self.rows.len(),
                self@ == before,
                before == old(self)@,
                before.wf(),
                forall|j: int| 0 <= j < i ==> (#[trigger] before.rows[j]).id != id,
            decreases self.rows.len() - i,
        {
            if self.rows[i].id == id {
                proof {
                    assert(before.rows[i as int].id == id);
                    lemma_delete_present(before, i as int);
                }
                let ghost rows_before = self.rows@;
                self.rows.remove(i);
                proof {
                    assert(task_views(self.rows@) =~= task_views(rows_before).remove(i as int));
                    assert(before.holds(id as int));
                }
                return 1;
            }
            i = i + 1;
        }
        proof {
            assert(!before.holds(id as int));
            lemma_delete_absent(before, id as int);
        }
        0
    }
}

} // verus!
