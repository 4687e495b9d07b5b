//! A personal daily-task log: task records, calendar-date resolution, a
//! task store over SQLite and the grouping of tasks by date for display.

pub mod calendar;
pub mod cmd_handler;
pub mod database;
pub mod grouping;
pub mod table;
pub mod task;

pub use calendar::{construct_timestamp, iso_format_timestamp, CalDate};
pub use task::{GroupedTasks, Status, Task, TaskError};
