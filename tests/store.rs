use daily_dose::cmd_handler::{
    handle_cmd_add, handle_cmd_delete, handle_cmd_list, handle_cmd_mark, handle_cmd_show,
    handle_cmd_unmark, handle_cmd_update, list_grouped, mark_by_index, task_id_at,
};
use daily_dose::cmd_handler::month_listing_bounds;
use daily_dose::database::{
    description_params, id_params, insert_params, range_params, status_params,
    create_task_table, delete_task, get_tasks_by_date, insert_task, tasks_from_rows,
    update_task_description, update_task_status, write_outcome,
};
use daily_dose::{CalDate, Status, Task, TaskError};
use rusqlite::Connection;

fn date(year: i32, month: u32, day: u32) -> CalDate {
    CalDate { year, month, day }
}

fn store() -> Connection {
    let conn = Connection::open_in_memory().unwrap();
    create_task_table(&conn).unwrap();
    conn
}

/// Waits until the clock has moved on, so that the next id sorts after the last.
fn next_millisecond() {
    let start = std::time::Instant::now();
    while start.elapsed().as_millis() < 2 {}
}

fn row_count(conn: &Connection) -> i64 {
    conn.query_row("SELECT COUNT(*) FROM tasks", [], |r| r.get(0)).unwrap()
}

fn statuses(conn: &Connection, day: &str) -> Vec<Status> {
    get_tasks_by_date(conn, day, None).unwrap().iter().map(|t| t.status).collect()
}

#[test]
fn table_creation_keeps_rows() {
    let conn = store();
    insert_task(&conn, "keep", Status::Todo, &date(2024, 1, 1)).unwrap();
    create_task_table(&conn).unwrap();
    assert_eq!(row_count(&conn), 1);
}

#[test]
fn inserted_task_reads_back() {
    let conn = store();
    let id = insert_task(&conn, "write report", Status::InProgress, &date(2024, 3, 5)).unwrap();
    assert_eq!(id.len(), 26);
    let tasks = get_tasks_by_date(&conn, "2024-03-05", None).unwrap();
    assert_eq!(tasks.len(), 1);
    assert_eq!(tasks[0].id, id);
    assert_eq!(tasks[0].description, "write report");
    assert_eq!(tasks[0].status, Status::InProgress);
    assert_eq!(tasks[0].date, "2024-03-05");
}

#[test]
fn every_status_survives_storage() {
    let conn = store();
    for s in [Status::Todo, Status::InProgress, Status::Done, Status::Blocked] {
        let id = insert_task(&conn, "t", s, &date(2024, 2, 2)).unwrap();
        let tasks = get_tasks_by_date(&conn, "2024-02-02", None).unwrap();
        let found = tasks.iter().find(|t| t.id == id).unwrap();
        assert_eq!(found.status, s);
    }
}

#[test]
fn ids_are_distinct() {
    let conn = store();
    let a = insert_task(&conn, "a", Status::Todo, &date(2024, 2, 2)).unwrap();
    let b = insert_task(&conn, "b", Status::Todo, &date(2024, 2, 2)).unwrap();
    assert_ne!(a, b);
}

#[test]
fn range_fetch_is_inclusive() {
    let conn = store();
    insert_task(&conn, "before", Status::Todo, &date(2024, 5, 31)).unwrap();
    insert_task(&conn, "first", Status::Todo, &date(2024, 6, 1)).unwrap();
    insert_task(&conn, "last", Status::Todo, &date(2024, 6, 3)).unwrap();
    insert_task(&conn, "after", Status::Todo, &date(2024, 6, 4)).unwrap();
    let tasks = get_tasks_by_date(&conn, "2024-06-01", Some("2024-06-03")).unwrap();
    let mut names: Vec<&str> = tasks.iter().map(|t| t.description.as_str()).collect();
    names.sort();
    assert_eq!(names, vec!["first", "last"]);
}

#[test]
fn mark_twice_stays_done() {
    let conn = store();
    let id = insert_task(&conn, "t", Status::Todo, &date(2024, 7, 7)).unwrap();
    assert_eq!(update_task_status(&conn, &id, Status::Done), Ok(()));
    assert_eq!(statuses(&conn, "2024-07-07"), vec![Status::Done]);
    assert_eq!(update_task_status(&conn, &id, Status::Done), Ok(()));
    assert_eq!(statuses(&conn, "2024-07-07"), vec![Status::Done]);
}

#[test]
fn mark_by_position_twice_stays_done() {
    let conn = store();
    let today = date(2024, 7, 7);
    insert_task(&conn, "t", Status::Todo, &today).unwrap();
    assert_eq!(handle_cmd_mark(&conn, &today, 1), Ok(()));
    assert_eq!(handle_cmd_mark(&conn, &today, 1), Ok(()));
    assert_eq!(statuses(&conn, "2024-07-07"), vec![Status::Done]);
    assert_eq!(handle_cmd_unmark(&conn, &today, 1), Ok(()));
    assert_eq!(statuses(&conn, "2024-07-07"), vec![Status::Todo]);
}

#[test]
fn empty_description_rejected() {
    let conn = store();
    let id = insert_task(&conn, "keep", Status::Todo, &date(2024, 1, 1)).unwrap();
    assert_eq!(
        insert_task(&conn, "", Status::Todo, &date(2024, 1, 1)),
        Err(TaskError::DescriptionEmpty)
    );
    assert_eq!(
        insert_task(&conn, "   ", Status::Todo, &date(2024, 1, 1)),
        Err(TaskError::DescriptionEmpty)
    );
    assert_eq!(update_task_description(&conn, &id, ""), Err(TaskError::DescriptionEmpty));
    assert_eq!(row_count(&conn), 1);
    let tasks = get_tasks_by_date(&conn, "2024-01-01", None).unwrap();
    assert_eq!(tasks[0].description, "keep");
}

#[test]
fn description_update_applies() {
    let conn = store();
    let id = insert_task(&conn, "old", Status::Todo, &date(2024, 1, 1)).unwrap();
    assert_eq!(handle_cmd_update(&conn, &id, "new"), Ok(()));
    let tasks = get_tasks_by_date(&conn, "2024-01-01", None).unwrap();
    assert_eq!(tasks[0].description, "new");
}

#[test]
fn index_out_of_range_changes_nothing() {
    let conn = store();
    let today = date(2024, 8, 8);
    insert_task(&conn, "one", Status::Todo, &today).unwrap();
    insert_task(&conn, "two", Status::Todo, &today).unwrap();
    assert_eq!(mark_by_index(&conn, &today, 3, Status::Done), Err(TaskError::NotFound));
    assert_eq!(handle_cmd_mark(&conn, &today, 3), Err(TaskError::NotFound));
    assert_eq!(mark_by_index(&conn, &today, 0, Status::Done), Err(TaskError::NotFound));
    assert_eq!(statuses(&conn, "2024-08-08"), vec![Status::Todo, Status::Todo]);
}

#[test]
fn unknown_id_not_found() {
    let conn = store();
    insert_task(&conn, "one", Status::Todo, &date(2024, 8, 8)).unwrap();
    assert_eq!(delete_task(&conn, "NOPE"), Err(TaskError::NotFound));
    assert_eq!(update_task_description(&conn, "NOPE", "x"), Err(TaskError::NotFound));
    assert_eq!(update_task_status(&conn, "NOPE", Status::Done), Err(TaskError::NotFound));
    assert_eq!(handle_cmd_delete(&conn, "NOPE"), Err(TaskError::NotFound));
    assert_eq!(row_count(&conn), 1);
}

#[test]
fn delete_removes_task() {
    let conn = store();
    let id = insert_task(&conn, "one", Status::Todo, &date(2024, 8, 8)).unwrap();
    assert_eq!(handle_cmd_delete(&conn, &id), Ok(()));
    assert_eq!(row_count(&conn), 0);
    assert_eq!(delete_task(&conn, &id), Err(TaskError::NotFound));
}

#[test]
fn end_to_end_grouping() {
    let conn = store();
    insert_task(&conn, "A", Status::Todo, &date(2024, 6, 1)).unwrap();
    next_millisecond();
    insert_task(&conn, "B", Status::Todo, &date(2024, 6, 2)).unwrap();
    next_millisecond();
    insert_task(&conn, "C", Status::Todo, &date(2024, 6, 2)).unwrap();
    let groups = list_grouped(&conn, "2024-06-01", Some("2024-06-02")).unwrap();
    assert_eq!(groups.len(), 2);
    assert_eq!(groups[0].date, "2024-06-02");
    let first: Vec<&str> = groups[0].tasks.iter().map(|t| t.description.as_str()).collect();
    assert_eq!(first, vec!["B", "C"]);
    assert_eq!(groups[1].date, "2024-06-01");
    let second: Vec<&str> = groups[1].tasks.iter().map(|t| t.description.as_str()).collect();
    assert_eq!(second, vec!["A"]);
}

#[test]
fn empty_range_gives_no_groups() {
    let conn = store();
    assert!(list_grouped(&conn, "2024-06-01", Some("2024-06-30")).unwrap().is_empty());
}

#[test]
fn month_listing_covers_first_to_today() {
    let conn = store();
    insert_task(&conn, "early", Status::Todo, &date(2024, 6, 1)).unwrap();
    insert_task(&conn, "today", Status::Todo, &date(2024, 6, 10)).unwrap();
    insert_task(&conn, "later", Status::Todo, &date(2024, 6, 11)).unwrap();
    insert_task(&conn, "may", Status::Todo, &date(2024, 5, 3)).unwrap();
    let groups = handle_cmd_list(&conn, date(2024, 6, 10), None).unwrap();
    let dates: Vec<&str> = groups.iter().map(|g| g.date.as_str()).collect();
    assert_eq!(dates, vec!["2024-06-10", "2024-06-01"]);
    let may = handle_cmd_list(&conn, date(2024, 6, 10), Some(5)).unwrap();
    assert_eq!(may.len(), 1);
    assert_eq!(may[0].date, "2024-05-03");
    assert_eq!(handle_cmd_list(&conn, date(2024, 5, 31), Some(6)).unwrap_err(), TaskError::InvalidDate);
}

#[test]
fn add_and_show_resolve_the_date() {
    let conn = store();
    let base = date(2024, 4, 15);
    let id = handle_cmd_add(&conn, "plan", base, None, Some(3), Some(31)).unwrap();
    let shown = handle_cmd_show(&conn, base, None, Some(3), Some(31)).unwrap();
    assert_eq!(shown.len(), 1);
    assert_eq!(shown[0].date, "2024-03-31");
    assert_eq!(shown[0].tasks.len(), 1);
    assert_eq!(shown[0].tasks[0].id, id);
    assert_eq!(
        handle_cmd_add(&conn, "plan", base, None, Some(2), Some(30)),
        Err(TaskError::InvalidDate)
    );
    assert_eq!(handle_cmd_add(&conn, "", base, None, None, None), Err(TaskError::DescriptionEmpty));
    let empty = handle_cmd_show(&conn, base, None, None, None).unwrap();
    assert!(empty.is_empty());
}

#[test]
fn corrupt_status_fails_the_read() {
    let conn = store();
    insert_task(&conn, "fine", Status::Todo, &date(2024, 9, 9)).unwrap();
    conn.execute(
        "INSERT INTO tasks (id, description, status, date) VALUES ('Z', 'bad', 'finished', '2024-09-09')",
        [],
    )
    .unwrap();
    assert_eq!(get_tasks_by_date(&conn, "2024-09-09", None).unwrap_err(), TaskError::DataCorruption);
}

#[test]
fn rows_become_tasks() {
    let rows = vec![(
        "01".to_string(),
        "d".to_string(),
        "Done".to_string(),
        "2024-01-01".to_string(),
    )];
    let tasks = tasks_from_rows(rows).unwrap();
    assert_eq!(tasks[0].status, Status::Done);
    assert_eq!(tasks[0].id, "01");
    let bad = vec![("01".to_string(), "d".to_string(), "x".to_string(), "2024-01-01".to_string())];
    assert_eq!(tasks_from_rows(bad).unwrap_err(), TaskError::DataCorruption);
}

#[test]
fn write_outcome_reads_changed_rows() {
    assert_eq!(write_outcome(Ok(1)), Ok(()));
    assert_eq!(write_outcome(Ok(3)), Ok(()));
    assert_eq!(write_outcome(Ok(0)), Err(TaskError::NotFound));
    assert_eq!(
        write_outcome(Err(rusqlite::Error::QueryReturnedNoRows)),
        Err(TaskError::StorageUnavailable)
    );
}

#[test]
fn position_selects_task_id() {
    let tasks = vec![
        Task { id: "a".to_string(), description: "x".to_string(), status: Status::Todo, date: "d".to_string() },
        Task { id: "b".to_string(), description: "y".to_string(), status: Status::Todo, date: "d".to_string() },
    ];
    assert_eq!(task_id_at(&tasks, 1), Ok("a".to_string()));
    assert_eq!(task_id_at(&tasks, 2), Ok("b".to_string()));
    assert_eq!(task_id_at(&tasks, 3), Err(TaskError::NotFound));
    assert_eq!(task_id_at(&tasks, 0), Err(TaskError::NotFound));
}

#[test]
fn bound_values_are_in_column_order() {
    let id = "01ID".to_string();
    assert_eq!(
        insert_params(&id, "write", Status::InProgress, &date(2024, 3, 5)),
        vec!["01ID", "write", "in_progress", "2024-03-05"]
    );
    assert_eq!(range_params("2024-01-01", Some("2024-01-31")), vec!["2024-01-01", "2024-01-31"]);
    assert_eq!(range_params("2024-01-01", None), vec!["2024-01-01", "2024-01-01"]);
    assert_eq!(description_params("01ID", "new"), vec!["new", "01ID"]);
    assert_eq!(status_params("01ID", Status::Done), vec!["done", "01ID"]);
    assert_eq!(id_params("01ID"), vec!["01ID"]);
}

#[test]
fn month_listing_bounds_are_iso_texts() {
    assert_eq!(
        month_listing_bounds(date(2024, 6, 17), None),
        Ok(("2024-06-01".to_string(), "2024-06-17".to_string()))
    );
    assert_eq!(
        month_listing_bounds(date(2024, 6, 17), Some(2)),
        Ok(("2024-02-01".to_string(), "2024-02-17".to_string()))
    );
    assert_eq!(month_listing_bounds(date(2024, 3, 30), Some(2)), Err(TaskError::InvalidDate));
}

#[test]
fn unmark_out_of_range_changes_nothing() {
    let conn = store();
    let today = date(2024, 8, 9);
    let id = insert_task(&conn, "one", Status::Done, &today).unwrap();
    assert_eq!(handle_cmd_unmark(&conn, &today, 2), Err(TaskError::NotFound));
    assert_eq!(handle_cmd_unmark(&conn, &today, 0), Err(TaskError::NotFound));
    assert_eq!(statuses(&conn, "2024-08-09"), vec![Status::Done]);
    assert_eq!(get_tasks_by_date(&conn, "2024-08-09", None).unwrap()[0].id, id);
}

#[test]
fn mark_touches_only_the_chosen_task() {
    let conn = store();
    let today = date(2024, 8, 10);
    insert_task(&conn, "one", Status::Todo, &today).unwrap();
    next_millisecond();
    insert_task(&conn, "two", Status::Blocked, &today).unwrap();
    insert_task(&conn, "other day", Status::Todo, &date(2024, 8, 11)).unwrap();
    assert_eq!(handle_cmd_mark(&conn, &today, 2), Ok(()));
    assert_eq!(statuses(&conn, "2024-08-10"), vec![Status::Todo, Status::Done]);
    assert_eq!(statuses(&conn, "2024-08-11"), vec![Status::Todo]);
}

#[test]
fn exact_fetch_equals_one_day_range() {
    let conn = store();
    insert_task(&conn, "a", Status::Todo, &date(2024, 8, 12)).unwrap();
    insert_task(&conn, "b", Status::Todo, &date(2024, 8, 13)).unwrap();
    let exact = get_tasks_by_date(&conn, "2024-08-12", None).unwrap();
    let range = get_tasks_by_date(&conn, "2024-08-12", Some("2024-08-12")).unwrap();
    assert_eq!(exact.len(), 1);
    assert_eq!(exact[0].id, range[0].id);
    assert_eq!(range.len(), 1);
}
