//! End-to-end tests of the store: migrations, the task repository,
//! rollover, occurrence generation, notes, and check-ins, all against
//! an in-memory store.

use dayrally::dates::Date;
use dayrally::migrate::{open_db, run_migrations};
use dayrally::model::{CheckinInput, CheckinPersonInput, NoteInput, TaskInput};
use dayrally::tasks;

fn ymd(y: i64, m: i64, d: i64) -> Date {
    Date { year: y, month: m, day: d }
}

fn fresh() -> rusqlite::Connection {
    open_db(":memory:").expect("open in-memory store")
}

fn task_input(title: &str, date: &str) -> TaskInput {
    TaskInput {
        title: title.to_string(),
        notes: None,
        tags: vec![],
        target_date: date.to_string(),
        status: "todo".to_string(),
        progress_percent: 0,
        deadline_at: None,
        is_recurring: false,
        recurrence_type: None,
        recurrence_interval: None,
        recurrence_weekdays: None,
        timer_enabled: false,
        timer_minutes: None,
    }
}

fn count_where(conn: &rusqlite::Connection, sql: &str) -> i64 {
    conn.query_row(sql, [], |row| row.get(0)).unwrap()
}

#[test]
fn migrations_record_every_version() {
    let conn = fresh();
    let n = count_where(&conn, "SELECT COUNT(*) FROM schema_migrations");
    assert_eq!(n, 8);
    let again = run_migrations(&mut open_db(":memory:").unwrap()).unwrap();
    assert_eq!(again.len(), 0);
}

#[test]
fn migration_recovers_partial_tags_column() {
    // a store where an older build added the tags column but died
    // before recording the version row
    let mut conn = rusqlite::Connection::open_in_memory().unwrap();
    conn.execute_batch("PRAGMA foreign_keys = ON;").unwrap();
    conn.execute_batch(
        "CREATE TABLE schema_migrations (version INTEGER PRIMARY KEY, applied_at TEXT NOT NULL)",
    )
    .unwrap();
    conn.execute_batch(dayrally::migrate::MIGRATION_1_SQL).unwrap();
    conn.execute_batch(dayrally::migrate::MIGRATION_2_SQL).unwrap();
    conn.execute_batch(dayrally::migrate::MIGRATION_3_SQL).unwrap();
    conn.execute_batch(dayrally::migrate::MIGRATION_4_SQL).unwrap();
    conn.execute_batch(dayrally::migrate::MIGRATION_5_SQL).unwrap();
    conn.execute_batch(dayrally::migrate::MIGRATION_6_SQL).unwrap();
    conn.execute_batch(dayrally::migrate::MIGRATION_7_SQL).unwrap();
    for v in 1..=7 {
        conn.execute(
            "INSERT INTO schema_migrations (version, applied_at) VALUES (?1, 'x')",
            [v as i64],
        )
        .unwrap();
    }
    // the column exists, the bookkeeping row does not
    conn.execute_batch(dayrally::migrate::MIGRATION_8_SQL).unwrap();
    let ran = run_migrations(&mut conn).expect("recovery must not error");
    assert!(!ran.contains(&8));
    let recorded = count_where(&conn, "SELECT COUNT(*) FROM schema_migrations WHERE version = 8");
    assert_eq!(recorded, 1);
}

#[test]
fn create_clamps_and_defaults() {
    let mut conn = fresh();
    let mut inp = task_input("a", "2026-02-06");
    inp.progress_percent = 150;
    inp.timer_enabled = true;
    let t = tasks::create_task(&mut conn, inp).unwrap();
    assert_eq!(t.progress_percent, 100);
    assert_eq!(t.timer_minutes, Some(25));
    assert_eq!(t.timer_state, Some("idle".to_string()));
    assert_eq!(t.sort_order, 1);
    assert!(!t.rolled_over);
    let mut low = task_input("b", "2026-02-06");
    low.progress_percent = -3;
    let t2 = tasks::create_task(&mut conn, low).unwrap();
    assert_eq!(t2.progress_percent, 0);
    assert_eq!(t2.sort_order, 2);
    let got = tasks::get_task(&conn, &t.id).unwrap();
    assert_eq!(got.title, "a");
}

#[test]
fn tags_are_mirrored_into_the_tag_table() {
    let mut conn = fresh();
    let mut inp = task_input("a", "2026-02-06");
    inp.tags = vec!["Work".to_string(), "work ".to_string(), " ".to_string()];
    let t = tasks::create_task(&mut conn, inp).unwrap();
    assert_eq!(t.tags, vec!["Work".to_string()]);
    let names = tasks::list_tags(&conn).unwrap();
    assert_eq!(names, vec!["Work".to_string()]);
    let links = count_where(&conn, "SELECT COUNT(*) FROM task_tags");
    assert_eq!(links, 1);
}

#[test]
fn done_sinks_to_the_bottom_of_the_partition() {
    let mut conn = fresh();
    let t1 = tasks::create_task(&mut conn, task_input("a", "2026-02-06")).unwrap();
    let t2 = tasks::create_task(&mut conn, task_input("b", "2026-02-06")).unwrap();
    assert_eq!((t1.sort_order, t2.sort_order), (1, 2));
    let done = tasks::update_status(&mut conn, &t1.id, "done").unwrap();
    assert_eq!(done.status, "done");
    assert_eq!(done.sort_order, 3);
    // a non-done status change keeps the position
    let b = tasks::update_status(&mut conn, &t2.id, "in_progress").unwrap();
    assert_eq!(b.sort_order, 2);
}

#[test]
fn move_adjacent_on_the_first_item_up_is_a_no_op() {
    let mut conn = fresh();
    let t1 = tasks::create_task(&mut conn, task_input("a", "2026-02-06")).unwrap();
    let t2 = tasks::create_task(&mut conn, task_input("b", "2026-02-06")).unwrap();
    tasks::move_task(&mut conn, &t1.id, "up").unwrap();
    assert_eq!(tasks::get_task(&conn, &t1.id).unwrap().sort_order, 1);
    assert_eq!(tasks::get_task(&conn, &t2.id).unwrap().sort_order, 2);
    // moving the second one up swaps the two
    tasks::move_task(&mut conn, &t2.id, "up").unwrap();
    assert_eq!(tasks::get_task(&conn, &t1.id).unwrap().sort_order, 2);
    assert_eq!(tasks::get_task(&conn, &t2.id).unwrap().sort_order, 1);
    assert!(tasks::move_task(&mut conn, &t1.id, "sideways").is_err());
}

#[test]
fn reorder_assigns_positions_by_list_order() {
    let mut conn = fresh();
    let a = tasks::create_task(&mut conn, task_input("a", "2026-02-06")).unwrap();
    let b = tasks::create_task(&mut conn, task_input("b", "2026-02-06")).unwrap();
    let c = tasks::create_task(&mut conn, task_input("c", "2026-02-06")).unwrap();
    tasks::reorder_tasks(&mut conn, &vec![b.id.clone(), a.id.clone(), c.id.clone()]).unwrap();
    let b2 = tasks::get_task(&conn, &b.id).unwrap().sort_order;
    let a2 = tasks::get_task(&conn, &a.id).unwrap().sort_order;
    let c2 = tasks::get_task(&conn, &c.id).unwrap().sort_order;
    assert_eq!((b2, a2, c2), (1, 2, 3));
    assert!(b2 < a2 && a2 < c2);
}

#[test]
fn rollover_moves_overdue_once() {
    let mut conn = fresh();
    let t = tasks::create_task(&mut conn, task_input("late", "2026-02-05")).unwrap();
    let fresh_t = tasks::create_task(&mut conn, task_input("today", "2026-02-06")).unwrap();
    let done = tasks::create_task(&mut conn, task_input("done", "2026-02-04")).unwrap();
    tasks::update_status(&mut conn, &done.id, "done").unwrap();
    let today = ymd(2026, 2, 6);
    let moved = tasks::rollover_tasks_on(&mut conn, &today).unwrap();
    assert_eq!(moved, 1);
    let rolled = tasks::get_task(&conn, &t.id).unwrap();
    assert_eq!(rolled.target_date, "2026-02-06");
    assert!(rolled.rolled_over);
    assert_eq!(rolled.rolled_from_date, Some("2026-02-05".to_string()));
    // the sweep is idempotent within the day
    let moved_again = tasks::rollover_tasks_on(&mut conn, &today).unwrap();
    assert_eq!(moved_again, 0);
    let still = tasks::get_task(&conn, &t.id).unwrap();
    assert_eq!(still.rolled_from_date, Some("2026-02-05".to_string()));
    assert_eq!(tasks::get_task(&conn, &fresh_t.id).unwrap().rolled_over, false);
}

fn daily_recurring(title: &str, date: &str) -> TaskInput {
    let mut inp = task_input(title, date);
    inp.is_recurring = true;
    inp.recurrence_type = Some("daily".to_string());
    inp.recurrence_interval = Some(1);
    inp
}

#[test]
fn completed_recurring_task_generates_exactly_one_occurrence() {
    let mut conn = fresh();
    let t = tasks::create_task(&mut conn, daily_recurring("standup", "2026-02-06")).unwrap();
    tasks::update_status(&mut conn, &t.id, "done").unwrap();
    let today = ymd(2026, 2, 6);
    tasks::ensure_recurrences_on(&mut conn, &today).unwrap();
    let generated = count_where(
        &conn,
        "SELECT COUNT(*) FROM tasks WHERE target_date = '2026-02-07' AND status = 'todo'",
    );
    assert_eq!(generated, 1);
    // a second sweep does not duplicate it
    tasks::ensure_recurrences_on(&mut conn, &today).unwrap();
    let after = count_where(&conn, "SELECT COUNT(*) FROM tasks WHERE target_date = '2026-02-07'");
    assert_eq!(after, 1);
}

#[test]
fn mark_done_generates_the_next_occurrence() {
    let mut conn = fresh();
    let t = tasks::create_task(&mut conn, daily_recurring("standup", "2026-02-06")).unwrap();
    let done = tasks::mark_done_and_generate_next(&mut conn, &t.id).unwrap();
    assert_eq!(done.status, "done");
    let generated = count_where(&conn, "SELECT COUNT(*) FROM tasks WHERE target_date = '2026-02-07'");
    assert_eq!(generated, 1);
    // completing again changes nothing further
    tasks::mark_done_and_generate_next(&mut conn, &t.id).unwrap();
    let after = count_where(&conn, "SELECT COUNT(*) FROM tasks WHERE target_date = '2026-02-07'");
    assert_eq!(after, 1);
}

#[test]
fn stale_recurring_task_is_advanced_in_place() {
    let mut conn = fresh();
    let t = tasks::create_task(&mut conn, daily_recurring("water plants", "2026-02-01")).unwrap();
    let today = ymd(2026, 2, 6);
    tasks::ensure_recurrences_on(&mut conn, &today).unwrap();
    let moved = tasks::get_task(&conn, &t.id).unwrap();
    assert_eq!(moved.target_date, "2026-02-06");
    assert_eq!(moved.status, "todo");
    let total = count_where(&conn, "SELECT COUNT(*) FROM tasks");
    assert_eq!(total, 1);
}

#[test]
fn update_task_resets_rollover_and_keeps_position_in_place() {
    let mut conn = fresh();
    let t = tasks::create_task(&mut conn, task_input("a", "2026-02-05")).unwrap();
    tasks::rollover_tasks_on(&mut conn, &ymd(2026, 2, 6)).unwrap();
    let mut inp = task_input("a2", "2026-02-06");
    inp.tags = vec!["x".to_string()];
    let updated = tasks::update_task(&mut conn, &t.id, inp).unwrap();
    assert_eq!(updated.title, "a2");
    assert!(!updated.rolled_over);
    assert_eq!(updated.rolled_from_date, None);
    assert_eq!(updated.tags, vec!["x".to_string()]);
}

#[test]
fn timers_write_their_state_fields() {
    let mut conn = fresh();
    let mut inp = task_input("a", "2026-02-06");
    inp.timer_enabled = true;
    inp.timer_minutes = Some(0);
    let t = tasks::create_task(&mut conn, inp).unwrap();
    assert_eq!(t.timer_minutes, Some(1));
    tasks::start_timer(&mut conn, &t.id, "2026-02-06T10:25:00Z").unwrap();
    let running = tasks::get_task(&conn, &t.id).unwrap();
    assert_eq!(running.timer_state, Some("running".to_string()));
    assert_eq!(running.timer_ends_at, Some("2026-02-06T10:25:00Z".to_string()));
    tasks::stop_timer(&mut conn, &t.id).unwrap();
    let paused = tasks::get_task(&conn, &t.id).unwrap();
    assert_eq!(paused.timer_state, Some("paused".to_string()));
    assert_eq!(paused.timer_ends_at, None);
    tasks::finish_timer(&mut conn, &t.id).unwrap();
    let finished = tasks::get_task(&conn, &t.id).unwrap();
    assert_eq!(finished.timer_state, Some("finished".to_string()));
}

#[test]
fn delete_task_removes_its_tag_links() {
    let mut conn = fresh();
    let mut inp = task_input("a", "2026-02-06");
    inp.tags = vec!["x".to_string()];
    let t = tasks::create_task(&mut conn, inp).unwrap();
    assert_eq!(count_where(&conn, "SELECT COUNT(*) FROM task_tags"), 1);
    tasks::delete_task(&mut conn, &t.id).unwrap();
    assert_eq!(count_where(&conn, "SELECT COUNT(*) FROM tasks"), 0);
    assert_eq!(count_where(&conn, "SELECT COUNT(*) FROM task_tags"), 0);
    assert!(tasks::get_task(&conn, &t.id).is_err());
}

#[test]
fn notes_crud_and_folder_deletion() {
    let mut conn = fresh();
    let n = dayrally::notes::create_note(
        &mut conn,
        NoteInput {
            title: "   ".to_string(),
            body_markdown: "body".to_string(),
            tags: vec!["x".to_string()],
            folder_id: None,
        },
    )
    .unwrap();
    assert_eq!(n.title, "Untitled note");
    let f = dayrally::notes::create_note_folder(&mut conn, " Inbox ").unwrap();
    assert_eq!(f.name, "Inbox");
    assert!(dayrally::notes::create_note_folder(&mut conn, "  ").is_err());
    let n2 = dayrally::notes::update_note(
        &mut conn,
        &n.id,
        NoteInput {
            title: "kept".to_string(),
            body_markdown: "b2".to_string(),
            tags: vec![],
            folder_id: Some(f.id.clone()),
        },
    )
    .unwrap();
    assert_eq!(n2.folder_id, Some(f.id.clone()));
    // deleting the folder detaches the note but keeps it
    dayrally::notes::delete_note_folder(&mut conn, &f.id).unwrap();
    let after = dayrally::notes::get_note(&conn, &n.id).unwrap();
    assert_eq!(after.folder_id, None);
    assert!(dayrally::notes::delete_note_folder(&mut conn, &f.id).is_err());
    let att = dayrally::notes::create_note_attachment(&mut conn, &n.id, "f.png", "attachments/x/f.png")
        .unwrap();
    assert_eq!(dayrally::notes::list_note_attachments(&conn, &n.id).unwrap().len(), 1);
    assert_eq!(att.note_id, n.id);
    dayrally::notes::delete_note(&mut conn, &n.id).unwrap();
    assert_eq!(count_where(&conn, "SELECT COUNT(*) FROM note_attachments"), 0);
}

#[test]
fn checkins_validate_and_scan_reminders() {
    let mut conn = fresh();
    assert!(dayrally::checkins::create_checkin_person(
        &mut conn,
        CheckinPersonInput { name: "Ada".to_string(), relationship: "buddy".to_string() },
    )
    .is_err());
    let p = dayrally::checkins::create_checkin_person(
        &mut conn,
        CheckinPersonInput { name: " Ada ".to_string(), relationship: "manager".to_string() },
    )
    .unwrap();
    assert_eq!(p.name, "Ada");
    let c = dayrally::checkins::create_checkin(
        &mut conn,
        CheckinInput {
            person_id: p.id.clone(),
            checkin_date: "2026-02-01".to_string(),
            discussion: Some("  roadmap  ".to_string()),
            notes: Some("   ".to_string()),
            action_items: None,
            next_checkin_date: Some("2026-02-06".to_string()),
            reminder_enabled: true,
            reminder_time: Some("09:00".to_string()),
        },
    )
    .unwrap();
    assert_eq!(c.discussion, Some("roadmap".to_string()));
    assert_eq!(c.notes, None);
    assert_eq!(c.reminder_state, Some("scheduled".to_string()));
    let mut bad = CheckinInput {
        person_id: p.id.clone(),
        checkin_date: "2026-02-30".to_string(),
        discussion: None,
        notes: None,
        action_items: None,
        next_checkin_date: None,
        reminder_enabled: false,
        reminder_time: None,
    };
    assert!(dayrally::checkins::create_checkin(&mut conn, bad.clone()).is_err());
    bad.checkin_date = "2026-02-01".to_string();
    bad.person_id = "nobody".to_string();
    assert!(dayrally::checkins::create_checkin(&mut conn, bad).is_err());

    // not due the morning before the reminder time
    let early = dayrally::checkins::list_due_checkin_reminders(&conn, &ymd(2026, 2, 6), 8 * 60)
        .unwrap();
    assert_eq!(early.len(), 0);
    let due = dayrally::checkins::list_due_checkin_reminders(&conn, &ymd(2026, 2, 6), 9 * 60)
        .unwrap();
    assert_eq!(due.len(), 1);
    assert_eq!(due[0].person_name, "Ada");
    assert_eq!(due[0].checkin_id, c.id);
    dayrally::checkins::mark_checkin_reminder_sent(&mut conn, &c.id).unwrap();
    let after = dayrally::checkins::list_due_checkin_reminders(&conn, &ymd(2026, 2, 6), 9 * 60)
        .unwrap();
    assert_eq!(after.len(), 0);
    // deleting the person cascades to the check-ins
    dayrally::checkins::delete_checkin_person(&mut conn, &p.id).unwrap();
    assert_eq!(count_where(&conn, "SELECT COUNT(*) FROM checkins"), 0);
}

#[test]
fn list_views_partition_today_rolled_and_upcoming() {
    let mut conn = fresh();
    tasks::create_task(&mut conn, task_input("old", "2026-02-05")).unwrap();
    tasks::create_task(&mut conn, task_input("future", "2026-02-07")).unwrap();
    tasks::rollover_tasks_on(&mut conn, &ymd(2026, 2, 6)).unwrap();
    // the raw rows are all there even if today's clock differs from the
    // fixed dates used above
    assert_eq!(count_where(&conn, "SELECT COUNT(*) FROM tasks"), 2);
    assert_eq!(
        count_where(
            &conn,
            "SELECT COUNT(*) FROM tasks WHERE target_date = '2026-02-06' AND rolled_over = 1",
        ),
        1,
    );
}
