use vstd::prelude::*;
use vstd::string::StringExecFns;

verus! {

/// What can go wrong while a command runs.
#[derive(Clone, Copy, Debug, PartialEq, Eq, Structural)]
pub enum TodoError {
    /// The store could not be opened or created, or its table could not be set up.
    StorageUnavailable,
    /// The tasks could not be read from the store.
    ReadFailed,
    /// A task could not be written to or removed from the store.
    WriteFailed,
    /// The text given as a position does not denote one.
    InvalidPosition,
    /// No task is shown at the position given.
    PositionNotFound,
    /// A command that takes an argument was the last word on the line.
    MissingArgument,
}

/// The step of the work on the store at which a failure was met.
#[derive(Clone, Copy, Debug, PartialEq, Eq, Structural)]
pub enum Stage {
    /// Opening or creating the store.
    OpenStore,
    /// Making sure that the table of tasks exists.
    CreateTable,
    /// Preparing the scan of the table.
    PrepareListing,
    /// Starting the scan of the table.
    QueryListing,
    /// Reading one row of the scan.
    ReadRow,
    /// Writing a new task.
    AddTask,
    /// Removing a task.
    DeleteTask,
}

/// The kind of error that a failure at `stage` is.
pub open spec fn error_at(stage: Stage) -> TodoError {
    match stage {
        Stage::OpenStore => TodoError::StorageUnavailable,
        Stage::CreateTable => TodoError::StorageUnavailable,
        Stage::PrepareListing => TodoError::ReadFailed,
        Stage::QueryListing => TodoError::ReadFailed,
        Stage::ReadRow => TodoError::ReadFailed,
        Stage::AddTask => TodoError::WriteFailed,
        Stage::DeleteTask => TodoError::WriteFailed,
    }
}

/// Whether a failure at `stage` ends the run.
///
/// A store that cannot be opened, set up or scanned does, and so does a task
/// that cannot be added. A row that cannot be read is passed over, and a
/// removal that fails is reported and no more.
pub open spec fn ends_run_at(stage: Stage) -> bool {
    !(stage is ReadRow) && !(stage is DeleteTask)
}

/// What is said of an error of each kind.
pub open spec fn error_message(error: TodoError) -> Seq<char> {
    match error {
        TodoError::StorageUnavailable => "Storage unavailable"@,
        TodoError::ReadFailed => "Read failed"@,
        TodoError::WriteFailed => "Write failed"@,
        TodoError::InvalidPosition => "Invalid ID format"@,
        TodoError::PositionNotFound => "Id not found :("@,
        TodoError::MissingArgument => "Argument needed"@,
    }
}

impl Stage {
    /// The kind of error that a failure at this stage is.
    pub fn error(self) -> (error: TodoError)
        ensures
            error == error_at(self),
    {
        match self {
            Stage::OpenStore => TodoError::StorageUnavailable,
            Stage::CreateTable => TodoError::StorageUnavailable,
            Stage::PrepareListing => TodoError::ReadFailed,
            Stage::QueryListing => TodoError::ReadFailed,
            Stage::ReadRow => TodoError::ReadFailed,
            Stage::AddTask => TodoError::WriteFailed,
            Stage::DeleteTask => TodoError::WriteFailed,
        }
    }

    /// Whether a failure at this stage ends the run, with status 1.
    pub fn ends_run(self) -> (ends: bool)
        ensures
            ends == ends_run_at(self),
    {
        match self {
            Stage::ReadRow => false,
            Stage::DeleteTask => false,
            _ => true,
        }
    }
}

impl TodoError {
    /// What to say of this error.
    pub fn message(self) -> (text: String)
        ensures
            text@ == error_message(self),
    {
        match self {
            TodoError::StorageUnavailable => String::from_str("Storage unavailable"),
            TodoError::ReadFailed => String::from_str("Read failed"),
            TodoError::WriteFailed => String::from_str("Write failed"),
            TodoError::InvalidPosition => String::from_str("Invalid ID format"),
            TodoError::PositionNotFound => String::from_str("Id not found :("),
            TodoError::MissingArgument => String::from_str("Argument needed"),
        }
    }
}

} // verus!
