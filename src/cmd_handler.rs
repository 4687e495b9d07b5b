use vstd::prelude::*;

use crate::calendar::{
    construct_timestamp, iso_format_timestamp, iso_text, month_window, month_window_of,
    resolve_date, CalDate,
};
use crate::database::{
    delete_task, get_tasks_by_date, insert_task, rows_read_as, update_task_description,
    update_task_status, TaskRow,
};
use crate::grouping::{group_by_date, is_grouping};
use crate::task::{is_blank, GroupedTasks, Status, Task, TaskError};

verus! {

/// The tasks dated from `start_date` to `end_date` inclusive (or on
/// `start_date` alone), grouped by date with the most recent date first and
/// each date's tasks in ascending id order.
pub fn list_grouped(db_conn: &rusqlite::Connection, start_date: &str, end_date: Option<&str>) -> (r:
    Result<Vec<GroupedTasks>, TaskError>)
    ensures
        r is Err ==> r == Err::<Vec<GroupedTasks>, TaskError>(TaskError::StorageUnavailable) || r
            == Err::<Vec<GroupedTasks>, TaskError>(TaskError::DataCorruption),
        r is Ok ==> exists|rows: Seq<TaskRow>, ts: Seq<Task>| #[trigger]
            groups_of_rows(rows, ts, r->Ok_0@),
{
    match get_tasks_by_date(db_conn, start_date, end_date) {
        Ok(tasks) => {
            let groups = group_by_date(&tasks);
            let r: Result<Vec<GroupedTasks>, TaskError> = Ok(groups);
            proof {
                let rows = choose|rows: Seq<TaskRow>| #[trigger] rows_read_as(rows, tasks@);
                assert(groups_of_rows(rows, tasks@, r->Ok_0@));
            }
            r
        },
        Err(e) => Err(e),
    }
}

/// `gs` groups the tasks `ts` that the store rows `rows` hold.
pub open spec fn groups_of_rows(rows: Seq<TaskRow>, ts: Seq<Task>, gs: Seq<GroupedTasks>) -> bool {
    rows_read_as(rows, ts) && is_grouping(ts, gs)
}

/// Position `index` (1-based) names one of the tasks `ts` that the rows `rows` hold.
pub open spec fn selects_read_task(rows: Seq<TaskRow>, ts: Seq<Task>, index: int) -> bool {
    rows_read_as(rows, ts) && 1 <= index <= ts.len()
}

/// The id of the task at 1-based position `index` among `tasks`, or `NotFound`
/// where there is no such position.
pub fn task_id_at(tasks: &Vec<Task>, index: usize) -> (r: Result<String, TaskError>)
    ensures
        1 <= index <= tasks@.len() ==> r == Ok::<String, TaskError>(tasks@[index - 1].id),
        !(1 <= index <= tasks@.len()) ==> r == Err::<String, TaskError>(TaskError::NotFound),
{
    if index == 0 || index > tasks.len() {
        return Err(TaskError::NotFound);
    }
    Ok(tasks[index - 1].id.clone())
}

/// Sets the status of the task at 1-based position `index` among the tasks
/// of `date` in ascending id order. A position outside the day's tasks fails
/// with `NotFound` before anything is written.
pub fn mark_by_index(db_conn: &rusqlite::Connection, date: &CalDate, index: usize, status: Status) -> (r:
    Result<(), TaskError>)
    requires
        date.valid(),
    ensures
        r is Err ==> r == Err::<(), TaskError>(TaskError::NotFound) || r == Err::<(), TaskError>(
            TaskError::StorageUnavailable,
        ) || r == Err::<(), TaskError>(TaskError::DataCorruption),
        index == 0 ==> r == Err::<(), TaskError>(TaskError::NotFound),
        r is Ok ==> exists|rows: Seq<TaskRow>, ts: Seq<Task>| #[trigger]
            selects_read_task(rows, ts, index as int),
{
    if index == 0 {
        return Err(TaskError::NotFound);
    }
    let day = iso_format_timestamp(date);
    let tasks = get_tasks_by_date(db_conn, day.as_str(), None)?;
    let id = task_id_at(&tasks, index)?;
    proof {
        let rows = choose|rows: Seq<TaskRow>| #[trigger] rows_read_as(rows, tasks@);
        assert(selects_read_task(rows, tasks@, index as int));
    }
    update_task_status(db_conn, id.as_str(), status)
}

/// The `YYYY-MM-DD` texts of the first and the last day of the month listing
/// (see `month_window`), or `InvalidDate`.
pub fn month_listing_bounds(today: CalDate, month: Option<u32>) -> (r: Result<(String, String), TaskError>)
    requires
        today.valid(),
    ensures
        month_window_of(today, month) is None <==> r == Err::<(String, String), TaskError>(
            TaskError::InvalidDate,
        ),
        r is Err ==> r == Err::<(String, String), TaskError>(TaskError::InvalidDate),
        r is Ok ==> {
            let w = month_window_of(today, month)->Some_0;
            &&& 0 <= w.0.year <= 9999 ==> r->Ok_0.0@ == iso_text(w.0)
            &&& 0 <= w.1.year <= 9999 ==> r->Ok_0.1@ == iso_text(w.1)
        },
{
    let (first, last) = month_window(today, month)?;
    Ok((iso_format_timestamp(&first), iso_format_timestamp(&last)))
}

/// The tasks of the month of `today` (or of the given month in the year of
/// `today`) from its first day up to the day of `today`, grouped by date.
pub fn handle_cmd_list(db_conn: &rusqlite::Connection, today: CalDate, month: Option<u32>) -> (r:
    Result<Vec<GroupedTasks>, TaskError>)
    requires
        today.valid(),
    ensures
        month_window_of(today, month) is None <==> r == Err::<Vec<GroupedTasks>, TaskError>(
            TaskError::InvalidDate,
        ),
        r is Ok ==> exists|rows: Seq<TaskRow>, ts: Seq<Task>| #[trigger]
            groups_of_rows(rows, ts, r->Ok_0@),
{
    let (start_date, end_date) = month_listing_bounds(today, month)?;
    list_grouped(db_conn, start_date.as_str(), Some(end_date.as_str()))
}

/// The tasks of the date resolved from `base` and the overrides, grouped as
/// `list_grouped` does: a date without tasks gives no group.
pub fn handle_cmd_show(
    db_conn: &rusqlite::Connection,
    base: CalDate,
    year: Option<u32>,
    month: Option<u32>,
    day: Option<u32>,
) -> (r: Result<Vec<GroupedTasks>, TaskError>)
    requires
        base.valid(),
    ensures
        resolve_date(base, year, month, day) is None <==> r == Err::<Vec<GroupedTasks>, TaskError>(
            TaskError::InvalidDate,
        ),
        r is Ok ==> exists|rows: Seq<TaskRow>, ts: Seq<Task>| #[trigger]
            groups_of_rows(rows, ts, r->Ok_0@),
{
    let timestamp = construct_timestamp(base, year, month, day)?;
    let start_date = iso_format_timestamp(&timestamp);
    list_grouped(db_conn, start_date.as_str(), None)
}

/// Adds a task with status `Todo` on the date resolved from `base` and the
/// overrides, and returns its id.
pub fn handle_cmd_add(
    db_conn: &rusqlite::Connection,
    description: &str,
    base: CalDate,
    year: Option<u32>,
    month: Option<u32>,
    day: Option<u32>,
) -> (r: Result<String, TaskError>)
    requires
        base.valid(),
    ensures
        resolve_date(base, year, month, day) is None <==> r == Err::<String, TaskError>(
            TaskError::InvalidDate,
        ),
        resolve_date(base, year, month, day) is Some ==> (is_blank(description@) <==> r
            == Err::<String, TaskError>(TaskError::DescriptionEmpty)),
        r is Ok ==> r->Ok_0@.len() == 26,
{
    let timestamp = construct_timestamp(base, year, month, day)?;
    insert_task(db_conn, description, Status::Todo, &timestamp)
}

/// Replaces the description of the task with the given id.
pub fn handle_cmd_update(db_conn: &rusqlite::Connection, task_id: &str, description: &str) -> (r:
    Result<(), TaskError>)
    ensures
        is_blank(description@) <==> r == Err::<(), TaskError>(TaskError::DescriptionEmpty),
        r is Err && !is_blank(description@) ==> r == Err::<(), TaskError>(TaskError::NotFound)
            || r == Err::<(), TaskError>(TaskError::StorageUnavailable),
{
    update_task_description(db_conn, task_id, description)
}

/// Removes the task with the given id.
pub fn handle_cmd_delete(db_conn: &rusqlite::Connection, task_id: &str) -> (r: Result<(), TaskError>)
    ensures
        r is Err ==> r == Err::<(), TaskError>(TaskError::NotFound) || r == Err::<(), TaskError>(
            TaskError::StorageUnavailable,
        ),
{
    delete_task(db_conn, task_id)
}

/// Marks the task at 1-based position `task_index` of `today`'s tasks as done.
pub fn handle_cmd_mark(db_conn: &rusqlite::Connection, today: &CalDate, task_index: u8) -> (r:
    Result<(), TaskError>)
    requires
        today.valid(),
    ensures
        r is Err ==> r == Err::<(), TaskError>(TaskError::NotFound) || r == Err::<(), TaskError>(
            TaskError::StorageUnavailable,
        ) || r == Err::<(), TaskError>(TaskError::DataCorruption),
        task_index == 0 ==> r == Err::<(), TaskError>(TaskError::NotFound),
        r is Ok ==> exists|rows: Seq<TaskRow>, ts: Seq<Task>| #[trigger]
            selects_read_task(rows, ts, task_index as int),
{
    mark_by_index(db_conn, today, task_index as usize, Status::Done)
}

/// Marks the task at 1-based position `task_index` of `today`'s tasks as to do.
pub fn handle_cmd_unmark(db_conn: &rusqlite::Connection, today: &CalDate, task_index: u8) -> (r:
    Result<(), TaskError>)
    requires
        today.valid(),
    ensures
        r is Err ==> r == Err::<(), TaskError>(TaskError::NotFound) || r == Err::<(), TaskError>(
            TaskError::StorageUnavailable,
        ) || r == Err::<(), TaskError>(TaskError::DataCorruption),
        task_index == 0 ==> r == Err::<(), TaskError>(TaskError::NotFound),
        r is Ok ==> exists|rows: Seq<TaskRow>, ts: Seq<Task>| #[trigger]
            selects_read_task(rows, ts, task_index as int),
{
    mark_by_index(db_conn, today, task_index as usize, Status::Todo)
}

} // verus!
