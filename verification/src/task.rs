use vstd::prelude::*;

verus! {

/// A task as specifications see it: its stable id and the characters of its name.
pub struct TaskView {
    pub id: int,
    pub name: Seq<char>,
}

/// A single entry of the list: the id the store gave it and its description.
#[derive(Clone, Debug, PartialEq, Eq)]
pub struct Task {
    pub id: i32,
    pub name: String,
}

impl View for Task {
    type V = TaskView;

    open spec fn view(&self) -> TaskView {
        TaskView { id: self.id as int, name: self.name@ }
    }
}

/// The tasks of a listing as specifications see them, in the same order.
pub open spec fn task_views(tasks: Seq<Task>) -> Seq<TaskView> {
    tasks.map_values(|task: Task| task@)
}

impl Task {
    /// A task with the given id and name.
    pub fn new(id: i32, name: String) -> (task: Task)
        ensures
            task@ == (TaskView { id: id as int, name: name@ }),
    {
        Task { id, name }
    }

    /// A second task with the same id and name.
    pub fn duplicate(&self) -> (twin: Task)
        ensures
            twin == *self,
    {
        Task { id: self.id, name: self.name.clone() }
    }
}

} // verus!
