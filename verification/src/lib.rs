//! A todo list: tasks kept in the order they were added, shown under 1-based
//! display positions, and struck off by position.
//!
//! The library holds everything that is decided or computed. [`parse_config`]
//! splits a command line into commands, [`resolve_position`] finds the task
//! that a typed position means, and [`display_todo_list`] words a listing. A
//! [`Session`] strings these together: turn by turn it says which lines to
//! show and what to do on the store, and takes what came of it. Reading and
//! writing a store on disk is left to the program around the library.
//!
//! [`TaskTable`] keeps the table of tasks in memory. It can serve a session in
//! place of a store on disk, as [`run`] does, and it is what the laws on
//! adding, listing and removing are stated of.

pub mod dispatch;
pub mod error;
pub mod listing;
pub mod memory;
pub mod position;
pub mod report;
pub mod session;
pub mod table;
pub mod task;
pub mod text;

pub use dispatch::{parse_config, Command, Verb};
pub use error::{Stage, TodoError};
pub use listing::{readable_tasks, unreadable_reports};
pub use memory::{add_todo, remove_todo, run, serve};
pub use position::{parse_position, resolve_position};
pub use report::{
    added_report_text, announcement_text, complaint_text, display_help, display_todo_list,
    failure_report_text, removal_report_text,
};
pub use session::{Answer, Line, Request, Session, Turn};
pub use table::TaskTable;
pub use task::Task;
pub use text::decimal_string;
