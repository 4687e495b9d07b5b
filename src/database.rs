use vstd::prelude::*;

use crate::calendar::{iso_format_timestamp, iso_text, CalDate};
use crate::task::{is_blank, is_blank_text, status_of_token, token_of, Status, Task, TaskError};

verus! {

/// An open SQLite database, as rusqlite hands it out.
#[verifier::external_type_specification]
#[verifier::external_body]
pub struct ExConnection(rusqlite::Connection);

/// rusqlite's error type.
#[verifier::external_type_specification]
#[verifier::external_body]
pub struct ExSqlError(rusqlite::Error);

/// A stored task as text: id, description, status token and date.
pub type TaskRow = (String, String, String, String);

/// Relies on rusqlite's `Connection::execute`: runs one statement with the
/// texts bound to `?1`, `?2`, ... and returns how many rows it changed.
/// What it returns depends on the database file, so nothing more is stated.
#[verifier::external_body]
fn execute_statement(conn: &rusqlite::Connection, sql: &str, params: &Vec<String>) -> (r: Result<
    usize,
    rusqlite::Error,
>) {
    conn.execute(sql, rusqlite::params_from_iter(params.iter()))
}

/// Relies on rusqlite's `Statement::query_map` (on a statement from
/// `Connection::prepare`): runs a query with the texts bound to `?1`, `?2`, ...
/// and reads the first four columns of each row as text, in the query's order.
/// What it returns depends on the database file, so nothing more is stated.
#[verifier::external_body]
fn query_task_rows(conn: &rusqlite::Connection, sql: &str, params: &Vec<String>) -> (r: Result<
    Vec<TaskRow>,
    rusqlite::Error,
>) {
    let mut stmt = conn.prepare(sql)?;
    let rows = stmt.query_map(
        rusqlite::params_from_iter(params.iter()),
        |row| Ok((row.get(0)?, row.get(1)?, row.get(2)?, row.get(3)?)),
    )?;
    rows.collect()
}

/// Relies on ulid's `Ulid::new` and its text form: a fresh identifier of 26
/// characters that begins with the time of its creation.
#[verifier::external_body]
fn mint_task_id() -> (r: String)
    ensures
        r@.len() == 26,
{
    ulid::Ulid::new().to_string()
}

/// What the outcome of a write on one record means: no row changed means no task had the id.
pub open spec fn outcome_of_write(res: Result<usize, rusqlite::Error>) -> Result<(), TaskError> {
    match res {
        Ok(n) => if n == 0 {
            Err(TaskError::NotFound)
        } else {
            Ok(())
        },
        Err(_) => Err(TaskError::StorageUnavailable),
    }
}

/// Turns the outcome of a write on one record into the library's result: no
/// row changed means no task had the id.
pub fn write_outcome(res: Result<usize, rusqlite::Error>) -> (r: Result<(), TaskError>)
    ensures
        r == outcome_of_write(res),
{
    match res {
        Ok(n) => if n == 0 {
            Err(TaskError::NotFound)
        } else {
            Ok(())
        },
        Err(_) => Err(TaskError::StorageUnavailable),
    }
}

/// The task that a stored row holds, if its status token is known.
pub open spec fn task_of_row(row: TaskRow) -> Option<Task> {
    match status_of_token(row.2@) {
        Some(s) => Some(Task { id: row.0, description: row.1, status: s, date: row.3 }),
        None => None,
    }
}

/// Every row holds a known status token.
pub open spec fn rows_readable(rows: Seq<TaskRow>) -> bool {
    forall|i: int| 0 <= i < rows.len() ==> (#[trigger] task_of_row(rows[i])) is Some
}

/// `ts` is what the readable rows `rows` hold, row for row.
pub open spec fn rows_read_as(rows: Seq<TaskRow>, ts: Seq<Task>) -> bool {
    &&& rows_readable(rows)
    &&& ts.len() == rows.len()
    &&& forall|i: int| 0 <= i < rows.len() ==> task_of_row(#[trigger] rows[i]) == Some(ts[i])
}

/// Reads stored rows as tasks, in order. A row with an unknown status token
/// fails the whole read with `DataCorruption`: no row is dropped or defaulted.
pub fn tasks_from_rows(rows: Vec<TaskRow>) -> (r: Result<Vec<Task>, TaskError>)
    ensures
        r is Ok <==> rows_readable(rows@),
        r is Err ==> r == Err::<Vec<Task>, TaskError>(TaskError::DataCorruption),
        r is Ok ==> r->Ok_0@.len() == rows@.len() && forall|i: int|
            0 <= i < rows@.len() ==> task_of_row(#[trigger] rows@[i]) == Some(r->Ok_0@[i]),
{
    let mut tasks: Vec<Task> = Vec::new();
    let mut i: usize = 0;
    while i < rows.len()
        invariant
            i <= rows@.len(),
            tasks@.len() == i,
            forall|k: int| 0 <= k < i ==> task_of_row(#[trigger] rows@[k]) == Some(tasks@[k]),
        decreases rows.len() - i,
    {
        let row = &rows[i];
        match Status::from_token(row.2.as_str()) {
            Some(s) => {
                tasks.push(
                    Task {
                        id: row.0.clone(),
                        description: row.1.clone(),
                        status: s,
                        date: row.3.clone(),
                    },
                );
            },
            None => {
                assert(task_of_row(rows@[i as int]) is None);
                return Err(TaskError::DataCorruption);
            },
        }
        i = i + 1;
    }
    Ok(tasks)
}

/// The values bound to an insert: id, description, status token and ISO date.
pub fn insert_params(id: &String, desc: &str, status: Status, timestamp: &CalDate) -> (r: Vec<
    String,
>)
    requires
        timestamp.valid(),
    ensures
        r@.len() == 4,
        r@[0]@ == id@,
        r@[1]@ == desc@,
        r@[2]@ == token_of(status),
        0 <= timestamp.year <= 9999 ==> r@[3]@ == iso_text(*timestamp),
{
    vec![id.clone(), desc.to_owned(), status.as_token().to_owned(), iso_format_timestamp(timestamp)]
}

/// The values bound to a date-range query: the first and the last date, the
/// first date twice where no last date is given.
pub fn range_params(start_date: &str, end_date: Option<&str>) -> (r: Vec<String>)
    ensures
        r@.len() == 2,
        r@[0]@ == start_date@,
        r@[1]@ == match end_date {
            Some(e) => e@,
            None => start_date@,
        },
{
    let end = match end_date {
        Some(e) => e,
        None => start_date,
    };
    vec![start_date.to_owned(), end.to_owned()]
}

/// The values bound to a description update: the new text, then the id.
pub fn description_params(task_id: &str, desc: &str) -> (r: Vec<String>)
    ensures
        r@.len() == 2,
        r@[0]@ == desc@,
        r@[1]@ == task_id@,
{
    vec![desc.to_owned(), task_id.to_owned()]
}

/// The values bound to a status update: the status token, then the id.
pub fn status_params(task_id: &str, status: Status) -> (r: Vec<String>)
    ensures
        r@.len() == 2,
        r@[0]@ == token_of(status),
        r@[1]@ == task_id@,
{
    vec![status.as_token().to_owned(), task_id.to_owned()]
}

/// The value bound to a delete: the id.
pub fn id_params(task_id: &str) -> (r: Vec<String>)
    ensures
        r@.len() == 1,
        r@[0]@ == task_id@,
{
    vec![task_id.to_owned()]
}

/// Creates the task table unless it exists; existing rows are kept.
pub fn create_task_table(conn: &rusqlite::Connection) -> (r: Result<(), TaskError>)
    ensures
        r is Err ==> r == Err::<(), TaskError>(TaskError::StorageUnavailable),
{
    let params: Vec<String> = Vec::new();
    match execute_statement(
        conn,
        "CREATE TABLE IF NOT EXISTS tasks (
            id TEXT PRIMARY KEY,
            description TEXT NOT NULL,
            status TEXT NOT NULL,
            date TEXT NOT NULL
        )",
        &params,
    ) {
        Ok(_) => Ok(()),
        Err(_) => Err(TaskError::StorageUnavailable),
    }
}

/// Stores a new task on the given date and returns its freshly minted id.
/// A blank description is refused before anything is written.
pub fn insert_task(
    db_conn: &rusqlite::Connection,
    desc: &str,
    status: Status,
    timestamp: &CalDate,
) -> (r: Result<String, TaskError>)
    requires
        timestamp.valid(),
    ensures
        is_blank(desc@) <==> r == Err::<String, TaskError>(TaskError::DescriptionEmpty),
        r is Err && !is_blank(desc@) ==> r == Err::<String, TaskError>(
            TaskError::StorageUnavailable,
        ),
        r is Ok ==> r->Ok_0@.len() == 26,
{
    if is_blank_text(desc) {
        return Err(TaskError::DescriptionEmpty);
    }
    let doc_id = mint_task_id();
    let params = insert_params(&doc_id, desc, status, timestamp);
    match execute_statement(
        db_conn,
        "INSERT INTO tasks (id, description, status, date) VALUES (?1, ?2, ?3, ?4)",
        &params,
    ) {
        Ok(_) => Ok(doc_id),
        Err(_) => Err(TaskError::StorageUnavailable),
    }
}

/// The tasks dated from `start_date` to `end_date` inclusive (on `start_date`
/// alone where no end is given), in ascending id order.
pub fn get_tasks_by_date(
    db_conn: &rusqlite::Connection,
    start_date: &str,
    end_date: Option<&str>,
) -> (r: Result<Vec<Task>, TaskError>)
    ensures
        r is Err ==> r == Err::<Vec<Task>, TaskError>(TaskError::StorageUnavailable) || r
            == Err::<Vec<Task>, TaskError>(TaskError::DataCorruption),
        r is Ok ==> exists|rows: Seq<TaskRow>| #[trigger] rows_read_as(rows, r->Ok_0@),
{
    let params = range_params(start_date, end_date);
    match query_task_rows(
        db_conn,
        "SELECT id, description, status, date FROM tasks WHERE date BETWEEN ?1 AND ?2 ORDER BY id",
        &params,
    ) {
        Ok(rows) => {
            let ghost read = rows@;
            let r = tasks_from_rows(rows);
            proof {
                if r is Ok {
                    assert(rows_read_as(read, r->Ok_0@));
                }
            }
            r
        },
        Err(_) => Err(TaskError::StorageUnavailable),
    }
}

/// Replaces the description of the task with the given id.
pub fn update_task_description(db_conn: &rusqlite::Connection, task_id: &str, desc: &str) -> (r:
    Result<(), TaskError>)
    ensures
        is_blank(desc@) <==> r == Err::<(), TaskError>(TaskError::DescriptionEmpty),
        r is Err && !is_blank(desc@) ==> r == Err::<(), TaskError>(TaskError::NotFound) || r
            == Err::<(), TaskError>(TaskError::StorageUnavailable),
{
    if is_blank_text(desc) {
        return Err(TaskError::DescriptionEmpty);
    }
    let params = description_params(task_id, desc);
    write_outcome(
        execute_statement(db_conn, "UPDATE tasks SET description = ?1 WHERE id = ?2", &params),
    )
}

/// Sets the status of the task with the given id.
pub fn update_task_status(db_conn: &rusqlite::Connection, task_id: &str, status: Status) -> (r:
    Result<(), TaskError>)
    ensures
        r is Err ==> r == Err::<(), TaskError>(TaskError::NotFound) || r == Err::<(), TaskError>(
            TaskError::StorageUnavailable,
        ),
{
    let params = status_params(task_id, status);
    write_outcome(execute_statement(db_conn, "UPDATE tasks SET status = ?1 WHERE id = ?2", &params))
}

/// Removes the task with the given id.
pub fn delete_task(db_conn: &rusqlite::Connection, task_id: &str) -> (r: Result<(), TaskError>)
    ensures
        r is Err ==> r == Err::<(), TaskError>(TaskError::NotFound) || r == Err::<(), TaskError>(
            TaskError::StorageUnavailable,
        ),
{
    let params = id_params(task_id);
    write_outcome(execute_statement(db_conn, "DELETE FROM tasks WHERE id = ?1", &params))
}

} // verus!
