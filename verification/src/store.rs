//! The SQLite-backed store, behind trusted statement wrappers.
//!
//! Each table's contents are named by an uninterpreted function from the
//! connection to a map of plain values; every wrapper states, against
//! those names, exactly what its one statement does per SQLite's
//! documented semantics. A failing statement leaves the store unchanged
//! (statement-level atomicity); wrappers around multi-statement work say
//! so where they hold a transaction. Text columns order under SQLite's
//! BINARY collation, which on UTF-8 text is the code-point order
//! `seq_lt` describes.
//!
//! The store serves one process at a time; the contents names assume
//! every change goes through this connection.

use vstd::prelude::*;
use crate::model::{
    Checkin, CheckinPerson, CheckinPersonV, CheckinV, Note, NoteAttachment, NoteAttachmentV,
    NoteFolder, NoteFolderV, NoteV, Task, TaskV,
};
use crate::tags::{ascii_lower, clean_tags_spec, parse_tags, seq_le, split_commas};
use crate::dates::{check_date, date_valid, Date};

verus! {

#[verifier::external_type_specification]
#[verifier::external_body]
pub struct ExConnection(rusqlite::Connection);

#[verifier::external_type_specification]
#[verifier::external_body]
pub struct ExRow<'a>(rusqlite::Row<'a>);

#[verifier::external_type_specification]
#[verifier::external_body]
pub struct ExSqlError(rusqlite::Error);

/// A positional SQL statement argument.
pub enum Arg {
    Null,
    Int(i64),
    Text(String),
}

/// A row of the tags table.
pub struct TagRow {
    pub id: String,
    pub name: String,
    pub created_at: String,
}

#[verifier::ext_equal]
pub struct TagRowV {
    pub id: Seq<char>,
    pub name: Seq<char>,
    pub created_at: Seq<char>,
}

impl View for TagRow {
    type V = TagRowV;

    open spec fn view(&self) -> TagRowV {
        TagRowV { id: self.id@, name: self.name@, created_at: self.created_at@ }
    }
}

/// The tasks table: id to row.
pub uninterp spec fn tasks_table(c: rusqlite::Connection) -> Map<Seq<char>, TaskV>;

/// The tags table: id to row.
pub uninterp spec fn tags_table(c: rusqlite::Connection) -> Map<Seq<char>, TagRowV>;

/// The task-tag join table: the set of (task id, tag id) pairs.
pub uninterp spec fn task_tags_rel(c: rusqlite::Connection) -> Set<(Seq<char>, Seq<char>)>;

/// The notes table: id to row.
pub uninterp spec fn notes_table(c: rusqlite::Connection) -> Map<Seq<char>, NoteV>;

/// The note folders table: id to row.
pub uninterp spec fn folders_table(c: rusqlite::Connection) -> Map<Seq<char>, NoteFolderV>;

/// The note attachments table: id to row.
pub uninterp spec fn attachments_table(c: rusqlite::Connection) -> Map<Seq<char>, NoteAttachmentV>;

/// The check-in people table: id to row.
pub uninterp spec fn people_table(c: rusqlite::Connection) -> Map<Seq<char>, CheckinPersonV>;

/// The check-ins table: id to row.
pub uninterp spec fn checkins_table(c: rusqlite::Connection) -> Map<Seq<char>, CheckinV>;

/// The set of schema versions recorded as applied; empty while the
/// bookkeeping table does not exist yet.
pub uninterp spec fn applied_versions(c: rusqlite::Connection) -> Set<int>;

/// Whether the tasks table already has the denormalized `tags` column.
pub uninterp spec fn tasks_have_tags_column(c: rusqlite::Connection) -> bool;

/// Whether the join table's foreign keys still point at a retired table.
pub uninterp spec fn join_table_stale(c: rusqlite::Connection) -> bool;

/// The task family of tables, bundled for preservation clauses.
pub open spec fn task_state(c: rusqlite::Connection) -> (
    Map<Seq<char>, TaskV>,
    Map<Seq<char>, TagRowV>,
    Set<(Seq<char>, Seq<char>)>,
) {
    (tasks_table(c), tags_table(c), task_tags_rel(c))
}

/// The note family of tables, bundled for preservation clauses.
pub open spec fn notes_state(c: rusqlite::Connection) -> (
    Map<Seq<char>, NoteV>,
    Map<Seq<char>, NoteFolderV>,
    Map<Seq<char>, NoteAttachmentV>,
) {
    (notes_table(c), folders_table(c), attachments_table(c))
}

/// The check-in family of tables, bundled for preservation clauses.
pub open spec fn checkin_state(c: rusqlite::Connection) -> (
    Map<Seq<char>, CheckinPersonV>,
    Map<Seq<char>, CheckinV>,
) {
    (people_table(c), checkins_table(c))
}

/// The schema bookkeeping, bundled for preservation clauses.
pub open spec fn schema_state(c: rusqlite::Connection) -> (Set<int>, bool, bool) {
    (applied_versions(c), tasks_have_tags_column(c), join_table_stale(c))
}

/// The sub-map of entries whose value the predicate keeps.
pub open spec fn retain_values<K, V>(m: Map<K, V>, keep: spec_fn(V) -> bool) -> Map<K, V> {
    Map::new(|k: K| m.dom().contains(k) && keep(m[k]), |k: K| m[k])
}

/// A task row as stored: the tags column round-trips through its
/// comma-separated storage form.
pub open spec fn stored_task(t: TaskV, csv: Seq<char>) -> TaskV {
    TaskV { tags: clean_tags_spec(split_commas(csv)), ..t }
}

/// A note row as stored, with the tags column round-tripped likewise.
pub open spec fn stored_note(n: NoteV, csv: Seq<char>) -> NoteV {
    NoteV { tags: clean_tags_spec(split_commas(csv)), ..n }
}

/// The order `ORDER BY target_date, sort_order, created_at` gives rows.
pub open spec fn task_row_le(a: TaskV, b: TaskV) -> bool {
    ||| crate::tags::seq_lt(a.target_date, b.target_date)
    ||| (a.target_date == b.target_date && a.sort_order < b.sort_order)
    ||| (a.target_date == b.target_date && a.sort_order == b.sort_order
        && seq_le(a.created_at, b.created_at))
}

/// Relies on rusqlite `Connection::execute`: runs one SQL statement
/// with positional arguments. Carries no contract of its own; the
/// statement wrappers calling it do.
#[verifier::external_body]
pub(crate) fn exec_args(conn: &rusqlite::Connection, sql: &str, args: Vec<Arg>) -> (r: Result<usize, String>) {
    let vals: Vec<rusqlite::types::Value> = args
        .into_iter()
        .map(|a| match a {
            Arg::Null => rusqlite::types::Value::Null,
            Arg::Int(i) => rusqlite::types::Value::Integer(i),
            Arg::Text(s) => rusqlite::types::Value::Text(s),
        })
        .collect();
    conn.execute(sql, rusqlite::params_from_iter(vals)).map_err(|e| e.to_string())
}

/// One column value of a read row, as plain data.
pub enum SqlVal {
    Null,
    Int(i64),
    Text(String),
}

fn sv_text(v: SqlVal) -> (r: Result<String, String>) {
    match v {
        SqlVal::Text(s) => Ok(s),
        _ => Err(String::from_str("expected a text column")),
    }
}

fn sv_opt_text(v: SqlVal) -> (r: Result<Option<String>, String>) {
    match v {
        SqlVal::Null => Ok(None),
        SqlVal::Text(s) => Ok(Some(s)),
        _ => Err(String::from_str("expected text or null")),
    }
}

fn sv_i64(v: SqlVal) -> (r: Result<i64, String>) {
    match v {
        SqlVal::Int(x) => Ok(x),
        _ => Err(String::from_str("expected an integer column")),
    }
}

fn sv_i32(v: SqlVal) -> (r: Result<i32, String>) {
    match v {
        SqlVal::Int(x) => if i32::MIN as i64 <= x && x <= i32::MAX as i64 {
            Ok(x as i32)
        } else {
            Err(String::from_str("integer column out of range"))
        },
        _ => Err(String::from_str("expected an integer column")),
    }
}

fn sv_opt_i32(v: SqlVal) -> (r: Result<Option<i32>, String>) {
    match v {
        SqlVal::Null => Ok(None),
        other => match sv_i32(other) {
            Ok(x) => Ok(Some(x)),
            Err(e) => Err(e),
        },
    }
}

fn sv_bool(v: SqlVal) -> (r: Result<bool, String>) {
    match sv_i64(v) {
        Ok(x) => Ok(x == 1),
        Err(e) => Err(e),
    }
}

/// Decodes one task row from its column values, in the canonical task
/// column order; the tags column is parsed from its storage form.
fn task_from_vals(vals: Vec<SqlVal>) -> (r: Result<Task, String>) {
    let mut v = vals;
    if v.len() != 21 {
        return Err(String::from_str("malformed task row"));
    }
    let id = sv_text(v.remove(0))?;
    let title = sv_text(v.remove(0))?;
    let notes = sv_opt_text(v.remove(0))?;
    let target_date = sv_text(v.remove(0))?;
    let status = sv_text(v.remove(0))?;
    let progress_percent = sv_i32(v.remove(0))?;
    let deadline_at = sv_opt_text(v.remove(0))?;
    let is_recurring = sv_bool(v.remove(0))?;
    let recurrence_type = sv_opt_text(v.remove(0))?;
    let recurrence_interval = sv_opt_i32(v.remove(0))?;
    let recurrence_weekdays = sv_opt_text(v.remove(0))?;
    let timer_enabled = sv_bool(v.remove(0))?;
    let timer_minutes = sv_opt_i32(v.remove(0))?;
    let timer_state = sv_opt_text(v.remove(0))?;
    let timer_ends_at = sv_opt_text(v.remove(0))?;
    let rolled_over = sv_bool(v.remove(0))?;
    let rolled_from_date = sv_opt_text(v.remove(0))?;
    let tags_csv = sv_text(v.remove(0))?;
    let sort_order = sv_i64(v.remove(0))?;
    let created_at = sv_text(v.remove(0))?;
    let updated_at = sv_text(v.remove(0))?;
    Ok(Task {
        id,
        title,
        notes,
        tags: parse_tags(tags_csv.as_str()),
        target_date,
        status,
        progress_percent,
        deadline_at,
        is_recurring,
        recurrence_type,
        recurrence_interval,
        recurrence_weekdays,
        timer_enabled,
        timer_minutes,
        timer_state,
        timer_ends_at,
        rolled_over,
        rolled_from_date,
        sort_order,
        created_at,
        updated_at,
    })
}

/// Relies on rusqlite `Row::get`: hands each column of a task row to
/// the verified decoder as a plain value.
#[verifier::external_body]
fn task_from_row(row: &rusqlite::Row<'_>) -> Result<Task, rusqlite::Error> {
    let mut vals: Vec<SqlVal> = Vec::new();
    for i in 0..21 {
        vals.push(match row.get::<usize, rusqlite::types::Value>(i)? {
            rusqlite::types::Value::Null => SqlVal::Null,
            rusqlite::types::Value::Integer(x) => SqlVal::Int(x),
            rusqlite::types::Value::Text(s) => SqlVal::Text(s),
            _ => SqlVal::Null,
        });
    }
    task_from_vals(vals).map_err(|_| rusqlite::Error::InvalidQuery)
}

/// Relies on rusqlite `Connection::prepare` and `Statement::query_map`:
/// runs one task SELECT without parameters. No contract of its own.
#[verifier::external_body]
fn query_tasks(conn: &rusqlite::Connection, sql: &str) -> (r: Result<Vec<Task>, String>) {
    let mut stmt = conn.prepare(sql).map_err(|e| e.to_string())?;
    let rows = stmt.query_map([], task_from_row).map_err(|e| e.to_string())?;
    let mut out = Vec::new();
    for row in rows {
        out.push(row.map_err(|e| e.to_string())?);
    }
    Ok(out)
}

/// The canonical task column list, in the order `task_args` writes and
/// `task_from_row` reads.
const TASK_COLS: &'static str =
    "id, title, notes, target_date, status, progress_percent, deadline_at, is_recurring, recurrence_type, recurrence_interval, recurrence_weekdays, timer_enabled, timer_minutes, timer_state, timer_ends_at, rolled_over, rolled_from_date, tags, sort_order, created_at, updated_at";

/// The statement arguments of a task row, in the canonical column
/// order, with the tags column given in storage form.
fn task_args(t: &Task, tags_csv: &String) -> Vec<Arg> {
    let mut args: Vec<Arg> = Vec::new();
    args.push(Arg::Text(t.id.clone()));
    args.push(Arg::Text(t.title.clone()));
    args.push(opt_text(&t.notes));
    args.push(Arg::Text(t.target_date.clone()));
    args.push(Arg::Text(t.status.clone()));
    args.push(Arg::Int(t.progress_percent as i64));
    args.push(opt_text(&t.deadline_at));
    args.push(Arg::Int(if t.is_recurring { 1 } else { 0 }));
    args.push(opt_text(&t.recurrence_type));
    args.push(opt_int(&t.recurrence_interval));
    args.push(opt_text(&t.recurrence_weekdays));
    args.push(Arg::Int(if t.timer_enabled { 1 } else { 0 }));
    args.push(opt_int(&t.timer_minutes));
    args.push(opt_text(&t.timer_state));
    args.push(opt_text(&t.timer_ends_at));
    args.push(Arg::Int(if t.rolled_over { 1 } else { 0 }));
    args.push(opt_text(&t.rolled_from_date));
    args.push(Arg::Text(tags_csv.clone()));
    args.push(Arg::Int(t.sort_order));
    args.push(Arg::Text(t.created_at.clone()));
    args.push(Arg::Text(t.updated_at.clone()));
    args
}

fn opt_text(v: &Option<String>) -> Arg {
    match v {
        Some(s) => Arg::Text(s.clone()),
        None => Arg::Null,
    }
}

fn opt_int(v: &Option<i32>) -> Arg {
    match v {
        Some(x) => Arg::Int(*x as i64),
        None => Arg::Null,
    }
}

/// Relies on rusqlite running `SELECT .. FROM tasks ORDER BY
/// target_date ASC, sort_order ASC, created_at ASC`: returns every task
/// row exactly once, in that order.
#[verifier::external_body]
pub(crate) fn select_all_tasks(conn: &rusqlite::Connection) -> (r: Result<Vec<Task>, String>)
    ensures
        r matches Ok(v) ==> {
            &&& forall|i: int| 0 <= i < v@.len()
                ==> #[trigger] tasks_table(*conn).contains_pair(v@[i].id@, v@[i]@)
            &&& forall|k: Seq<char>| #[trigger] tasks_table(*conn).dom().contains(k)
                ==> exists|i: int| 0 <= i < v@.len() && #[trigger] v@[i].id@ == k
            &&& forall|i: int, j: int|
                #![trigger v@[i].id@, v@[j].id@]
                0 <= i < j < v@.len() ==> v@[i].id@ != v@[j].id@
            &&& forall|i: int, j: int|
                #![trigger v@[i]@, v@[j]@]
                0 <= i < j < v@.len() ==> task_row_le(v@[i]@, v@[j]@)
        },
{
    let mut sql = String::from("SELECT ");
    sql.push_str(TASK_COLS);
    sql.push_str(" FROM tasks ORDER BY target_date ASC, sort_order ASC, created_at ASC");
    query_tasks(conn, &sql)
}

/// Relies on rusqlite running `INSERT INTO tasks (..) VALUES (..)`:
/// adds the row under its id, failing (and changing nothing) if the id
/// exists; no other table changes.
#[verifier::external_body]
pub(crate) fn insert_task_row(
    conn: &mut rusqlite::Connection,
    t: &Task,
    tags_csv: &String,
) -> (r: Result<(), String>)
    ensures
        r is Ok ==> !tasks_table(*old(conn)).dom().contains(t.id@),
        r is Ok ==> tasks_table(*final(conn)) == tasks_table(*old(conn)).insert(
            t.id@,
            stored_task(t@, tags_csv@),
        ),
        r is Err ==> tasks_table(*final(conn)) == tasks_table(*old(conn)),
        tags_table(*final(conn)) == tags_table(*old(conn)),
        task_tags_rel(*final(conn)) == task_tags_rel(*old(conn)),
        notes_state(*final(conn)) == notes_state(*old(conn)),
        checkin_state(*final(conn)) == checkin_state(*old(conn)),
        schema_state(*final(conn)) == schema_state(*old(conn)),
{
    let mut sql = String::from("INSERT INTO tasks (");
    sql.push_str(TASK_COLS);
    sql.push_str(") VALUES (?1, ?2, ?3, ?4, ?5, ?6, ?7, ?8, ?9, ?10, ?11, ?12, ?13, ?14, ?15, ?16, ?17, ?18, ?19, ?20, ?21)");
    exec_args(conn, &sql, task_args(t, tags_csv)).map(|_| ())
}

/// Relies on rusqlite running `UPDATE tasks SET .. WHERE id = ?1`:
/// replaces the row under the task's id when it exists, a no-op when it
/// does not; no other table changes.
#[verifier::external_body]
pub(crate) fn update_task_row(
    conn: &mut rusqlite::Connection,
    t: &Task,
    tags_csv: &String,
) -> (r: Result<(), String>)
    ensures
        r is Ok ==> tasks_table(*final(conn)) == if tasks_table(*old(conn)).dom().contains(t.id@) {
            tasks_table(*old(conn)).insert(t.id@, stored_task(t@, tags_csv@))
        } else {
            tasks_table(*old(conn))
        },
        r is Err ==> tasks_table(*final(conn)) == tasks_table(*old(conn)),
        tags_table(*final(conn)) == tags_table(*old(conn)),
        task_tags_rel(*final(conn)) == task_tags_rel(*old(conn)),
        notes_state(*final(conn)) == notes_state(*old(conn)),
        checkin_state(*final(conn)) == checkin_state(*old(conn)),
        schema_state(*final(conn)) == schema_state(*old(conn)),
{
    exec_args(
        conn,
        "UPDATE tasks SET title = ?2, notes = ?3, target_date = ?4, status = ?5, progress_percent = ?6, deadline_at = ?7, is_recurring = ?8, recurrence_type = ?9, recurrence_interval = ?10, recurrence_weekdays = ?11, timer_enabled = ?12, timer_minutes = ?13, timer_state = ?14, timer_ends_at = ?15, rolled_over = ?16, rolled_from_date = ?17, tags = ?18, sort_order = ?19, created_at = ?20, updated_at = ?21 WHERE id = ?1",
        task_args(t, tags_csv),
    ).map(|_| ())
}

/// Relies on rusqlite running `DELETE FROM tasks WHERE id = ?1` with
/// foreign keys on: removes the row and, by `ON DELETE CASCADE`, its
/// join-table links; no other table changes.
#[verifier::external_body]
pub(crate) fn delete_task_row(conn: &mut rusqlite::Connection, id: &String) -> (r: Result<
    (),
    String,
>)
    ensures
        r is Ok ==> tasks_table(*final(conn)) == tasks_table(*old(conn)).remove(id@),
        r is Ok ==> task_tags_rel(*final(conn)) == task_tags_rel(*old(conn)).filter(
            |p: (Seq<char>, Seq<char>)| p.0 != id@,
        ),
        r is Err ==> tasks_table(*final(conn)) == tasks_table(*old(conn))
            && task_tags_rel(*final(conn)) == task_tags_rel(*old(conn)),
        tags_table(*final(conn)) == tags_table(*old(conn)),
        notes_state(*final(conn)) == notes_state(*old(conn)),
        checkin_state(*final(conn)) == checkin_state(*old(conn)),
        schema_state(*final(conn)) == schema_state(*old(conn)),
{
    let mut args: Vec<Arg> = Vec::new();
    args.push(Arg::Text(id.clone()));
    exec_args(conn, "DELETE FROM tasks WHERE id = ?1", args).map(|_| ())
}

/// Relies on rusqlite `Row::get`: reads one tag row (id, name,
/// created_at).
#[verifier::external_body]
fn tag_from_row(row: &rusqlite::Row<'_>) -> Result<TagRow, rusqlite::Error> {
    Ok(TagRow { id: row.get(0)?, name: row.get(1)?, created_at: row.get(2)? })
}

/// Relies on rusqlite running `SELECT id, name, created_at FROM tags
/// ORDER BY name`: every tag row exactly once, named in ascending
/// BINARY order.
#[verifier::external_body]
pub(crate) fn select_all_tags(conn: &rusqlite::Connection) -> (r: Result<Vec<TagRow>, String>)
    ensures
        r matches Ok(v) ==> {
            &&& forall|i: int| 0 <= i < v@.len()
                ==> #[trigger] tags_table(*conn).contains_pair(v@[i].id@, v@[i]@)
            &&& forall|k: Seq<char>| #[trigger] tags_table(*conn).dom().contains(k)
                ==> exists|i: int| 0 <= i < v@.len() && #[trigger] v@[i].id@ == k
            &&& forall|i: int, j: int|
                #![trigger v@[i].id@, v@[j].id@]
                0 <= i < j < v@.len() ==> v@[i].id@ != v@[j].id@
            &&& forall|i: int, j: int|
                #![trigger v@[i].name@, v@[j].name@]
                0 <= i < j < v@.len() ==> seq_le(v@[i].name@, v@[j].name@)
        },
{
    let mut stmt = conn
        .prepare("SELECT id, name, created_at FROM tags ORDER BY name ASC")
        .map_err(|e| e.to_string())?;
    let rows = stmt.query_map([], tag_from_row).map_err(|e| e.to_string())?;
    let mut out = Vec::new();
    for row in rows {
        out.push(row.map_err(|e| e.to_string())?);
    }
    Ok(out)
}

/// Relies on rusqlite running `INSERT INTO tags (..) VALUES (..)`: adds
/// the row under its id; fails (changing nothing) on a duplicate id or
/// name; no other table changes.
#[verifier::external_body]
pub(crate) fn insert_tag_row(conn: &mut rusqlite::Connection, t: &TagRow) -> (r: Result<
    (),
    String,
>)
    ensures
        r is Ok ==> !tags_table(*old(conn)).dom().contains(t.id@),
        r is Ok ==> tags_table(*final(conn)) == tags_table(*old(conn)).insert(t.id@, t@),
        r is Err ==> tags_table(*final(conn)) == tags_table(*old(conn)),
        tasks_table(*final(conn)) == tasks_table(*old(conn)),
        task_tags_rel(*final(conn)) == task_tags_rel(*old(conn)),
        notes_state(*final(conn)) == notes_state(*old(conn)),
        checkin_state(*final(conn)) == checkin_state(*old(conn)),
        schema_state(*final(conn)) == schema_state(*old(conn)),
{
    let mut args: Vec<Arg> = Vec::new();
    args.push(Arg::Text(t.id.clone()));
    args.push(Arg::Text(t.name.clone()));
    args.push(Arg::Text(t.created_at.clone()));
    exec_args(conn, "INSERT INTO tags (id, name, created_at) VALUES (?1, ?2, ?3)", args)
        .map(|_| ())
}

/// Relies on rusqlite running `DELETE FROM task_tags WHERE task_id =
/// ?1`: removes the task's join links; no other table changes.
#[verifier::external_body]
pub(crate) fn delete_task_tag_links(conn: &mut rusqlite::Connection, task_id: &String) -> (r:
    Result<(), String>)
    ensures
        r is Ok ==> task_tags_rel(*final(conn)) == task_tags_rel(*old(conn)).filter(
            |p: (Seq<char>, Seq<char>)| p.0 != task_id@,
        ),
        r is Err ==> task_tags_rel(*final(conn)) == task_tags_rel(*old(conn)),
        tasks_table(*final(conn)) == tasks_table(*old(conn)),
        tags_table(*final(conn)) == tags_table(*old(conn)),
        notes_state(*final(conn)) == notes_state(*old(conn)),
        checkin_state(*final(conn)) == checkin_state(*old(conn)),
        schema_state(*final(conn)) == schema_state(*old(conn)),
{
    let mut args: Vec<Arg> = Vec::new();
    args.push(Arg::Text(task_id.clone()));
    exec_args(conn, "DELETE FROM task_tags WHERE task_id = ?1", args).map(|_| ())
}

/// Relies on rusqlite running `INSERT OR IGNORE INTO task_tags ..`:
/// adds the link, keeping the set unchanged when it is already present;
/// fails (changing nothing) when an endpoint is missing; no other table
/// changes.
#[verifier::external_body]
pub(crate) fn insert_task_tag_link(
    conn: &mut rusqlite::Connection,
    task_id: &String,
    tag_id: &String,
) -> (r: Result<(), String>)
    ensures
        r is Ok ==> task_tags_rel(*final(conn)) == task_tags_rel(*old(conn)).insert(
            (task_id@, tag_id@),
        ),
        r is Err ==> task_tags_rel(*final(conn)) == task_tags_rel(*old(conn)),
        tasks_table(*final(conn)) == tasks_table(*old(conn)),
        tags_table(*final(conn)) == tags_table(*old(conn)),
        notes_state(*final(conn)) == notes_state(*old(conn)),
        checkin_state(*final(conn)) == checkin_state(*old(conn)),
        schema_state(*final(conn)) == schema_state(*old(conn)),
{
    let mut args: Vec<Arg> = Vec::new();
    args.push(Arg::Text(task_id.clone()));
    args.push(Arg::Text(tag_id.clone()));
    exec_args(
        conn,
        "INSERT OR IGNORE INTO task_tags (task_id, tag_id) VALUES (?1, ?2)",
        args,
    ).map(|_| ())
}

/// Relies on rusqlite `Row::get`: reads one note row, the tags column
/// parsed from storage form.
#[verifier::external_body]
fn note_from_row(row: &rusqlite::Row<'_>) -> Result<Note, rusqlite::Error> {
    let tags_csv: String = row.get(3)?;
    Ok(Note {
        id: row.get(0)?,
        title: row.get(1)?,
        body_markdown: row.get(2)?,
        tags: parse_tags(&tags_csv),
        folder_id: row.get(4)?,
        created_at: row.get(5)?,
        updated_at: row.get(6)?,
    })
}

/// Relies on rusqlite running `SELECT .. FROM notes ORDER BY updated_at
/// DESC`: every note row exactly once, most recently updated first.
#[verifier::external_body]
pub(crate) fn select_all_notes(conn: &rusqlite::Connection) -> (r: Result<Vec<Note>, String>)
    ensures
        r matches Ok(v) ==> {
            &&& forall|i: int| 0 <= i < v@.len()
                ==> #[trigger] notes_table(*conn).contains_pair(v@[i].id@, v@[i]@)
            &&& forall|k: Seq<char>| #[trigger] notes_table(*conn).dom().contains(k)
                ==> exists|i: int| 0 <= i < v@.len() && #[trigger] v@[i].id@ == k
            &&& forall|i: int, j: int|
                #![trigger v@[i].id@, v@[j].id@]
                0 <= i < j < v@.len() ==> v@[i].id@ != v@[j].id@
            &&& forall|i: int, j: int|
                #![trigger v@[i].updated_at@, v@[j].updated_at@]
                0 <= i < j < v@.len() ==> seq_le(v@[j].updated_at@, v@[i].updated_at@)
        },
{
    let mut stmt = conn
        .prepare(
            "SELECT id, title, body_markdown, tags, folder_id, created_at, updated_at FROM notes ORDER BY updated_at DESC",
        )
        .map_err(|e| e.to_string())?;
    let rows = stmt.query_map([], note_from_row).map_err(|e| e.to_string())?;
    let mut out = Vec::new();
    for row in rows {
        out.push(row.map_err(|e| e.to_string())?);
    }
    Ok(out)
}

fn note_args(n: &Note, tags_csv: &String) -> Vec<Arg> {
    let mut args: Vec<Arg> = Vec::new();
    args.push(Arg::Text(n.id.clone()));
    args.push(Arg::Text(n.title.clone()));
    args.push(Arg::Text(n.body_markdown.clone()));
    args.push(Arg::Text(tags_csv.clone()));
    args.push(opt_text(&n.folder_id));
    args.push(Arg::Text(n.created_at.clone()));
    args.push(Arg::Text(n.updated_at.clone()));
    args
}

/// Relies on rusqlite running `INSERT INTO notes (..) VALUES (..)`:
/// adds the row under its id, failing (changing nothing) if the id
/// exists; no other table changes.
#[verifier::external_body]
pub(crate) fn insert_note_row(
    conn: &mut rusqlite::Connection,
    n: &Note,
    tags_csv: &String,
) -> (r: Result<(), String>)
    ensures
        r is Ok ==> !notes_table(*old(conn)).dom().contains(n.id@),
        r is Ok ==> notes_table(*final(conn)) == notes_table(*old(conn)).insert(
            n.id@,
            stored_note(n@, tags_csv@),
        ),
        r is Err ==> notes_table(*final(conn)) == notes_table(*old(conn)),
        folders_table(*final(conn)) == folders_table(*old(conn)),
        attachments_table(*final(conn)) == attachments_table(*old(conn)),
        task_state(*final(conn)) == task_state(*old(conn)),
        checkin_state(*final(conn)) == checkin_state(*old(conn)),
        schema_state(*final(conn)) == schema_state(*old(conn)),
{
    exec_args(
        conn,
        "INSERT INTO notes (id, title, body_markdown, tags, folder_id, created_at, updated_at) VALUES (?1, ?2, ?3, ?4, ?5, ?6, ?7)",
        note_args(n, tags_csv),
    ).map(|_| ())
}

/// Relies on rusqlite running `UPDATE notes SET .. WHERE id = ?1`:
/// replaces the row when its id exists, a no-op when it does not; no
/// other table changes.
#[verifier::external_body]
pub(crate) fn update_note_row(
    conn: &mut rusqlite::Connection,
    n: &Note,
    tags_csv: &String,
) -> (r: Result<(), String>)
    ensures
        r is Ok ==> notes_table(*final(conn)) == if notes_table(*old(conn)).dom().contains(n.id@) {
            notes_table(*old(conn)).insert(n.id@, stored_note(n@, tags_csv@))
        } else {
            notes_table(*old(conn))
        },
        r is Err ==> notes_table(*final(conn)) == notes_table(*old(conn)),
        folders_table(*final(conn)) == folders_table(*old(conn)),
        attachments_table(*final(conn)) == attachments_table(*old(conn)),
        task_state(*final(conn)) == task_state(*old(conn)),
        checkin_state(*final(conn)) == checkin_state(*old(conn)),
        schema_state(*final(conn)) == schema_state(*old(conn)),
{
    exec_args(
        conn,
        "UPDATE notes SET title = ?2, body_markdown = ?3, tags = ?4, folder_id = ?5, created_at = ?6, updated_at = ?7 WHERE id = ?1",
        note_args(n, tags_csv),
    ).map(|_| ())
}

/// Relies on rusqlite running `DELETE FROM notes WHERE id = ?1` with
/// foreign keys on: removes the row and, by `ON DELETE CASCADE`, the
/// note's attachments; no other table changes.
#[verifier::external_body]
pub(crate) fn delete_note_row(conn: &mut rusqlite::Connection, id: &String) -> (r: Result<
    (),
    String,
>)
    ensures
        r is Ok ==> notes_table(*final(conn)) == notes_table(*old(conn)).remove(id@),
        r is Ok ==> attachments_table(*final(conn)) == retain_values(
            attachments_table(*old(conn)),
            |a: NoteAttachmentV| a.note_id != id@,
        ),
        r is Err ==> notes_table(*final(conn)) == notes_table(*old(conn))
            && attachments_table(*final(conn)) == attachments_table(*old(conn)),
        folders_table(*final(conn)) == folders_table(*old(conn)),
        task_state(*final(conn)) == task_state(*old(conn)),
        checkin_state(*final(conn)) == checkin_state(*old(conn)),
        schema_state(*final(conn)) == schema_state(*old(conn)),
{
    let mut args: Vec<Arg> = Vec::new();
    args.push(Arg::Text(id.clone()));
    exec_args(conn, "DELETE FROM notes WHERE id = ?1", args).map(|_| ())
}

/// Relies on rusqlite `Row::get`: reads one folder row.
#[verifier::external_body]
fn folder_from_row(row: &rusqlite::Row<'_>) -> Result<NoteFolder, rusqlite::Error> {
    Ok(NoteFolder {
        id: row.get(0)?,
        name: row.get(1)?,
        created_at: row.get(2)?,
        updated_at: row.get(3)?,
    })
}

/// Relies on rusqlite running `SELECT .. FROM note_folders ORDER BY
/// lower(name) ASC`: every folder row exactly once; SQLite's `lower()`
/// folds ASCII letters only.
#[verifier::external_body]
pub(crate) fn select_all_folders(conn: &rusqlite::Connection) -> (r: Result<Vec<NoteFolder>, String>)
    ensures
        r matches Ok(v) ==> {
            &&& forall|i: int| 0 <= i < v@.len()
                ==> #[trigger] folders_table(*conn).contains_pair(v@[i].id@, v@[i]@)
            &&& forall|k: Seq<char>| #[trigger] folders_table(*conn).dom().contains(k)
                ==> exists|i: int| 0 <= i < v@.len() && #[trigger] v@[i].id@ == k
            &&& forall|i: int, j: int|
                #![trigger v@[i].id@, v@[j].id@]
                0 <= i < j < v@.len() ==> v@[i].id@ != v@[j].id@
            &&& forall|i: int, j: int|
                #![trigger v@[i].name@, v@[j].name@]
                0 <= i < j < v@.len() ==> seq_le(ascii_lower(v@[i].name@), ascii_lower(v@[j].name@))
        },
{
    let mut stmt = conn
        .prepare(
            "SELECT id, name, created_at, updated_at FROM note_folders ORDER BY lower(name) ASC",
        )
        .map_err(|e| e.to_string())?;
    let rows = stmt.query_map([], folder_from_row).map_err(|e| e.to_string())?;
    let mut out = Vec::new();
    for row in rows {
        out.push(row.map_err(|e| e.to_string())?);
    }
    Ok(out)
}

/// Relies on rusqlite running `INSERT INTO note_folders (..)`: adds the
/// row under its id, failing (changing nothing) if the id exists; no
/// other table changes.
#[verifier::external_body]
pub(crate) fn insert_folder_row(conn: &mut rusqlite::Connection, f: &NoteFolder) -> (r: Result<
    (),
    String,
>)
    ensures
        r is Ok ==> !folders_table(*old(conn)).dom().contains(f.id@),
        r is Ok ==> folders_table(*final(conn)) == folders_table(*old(conn)).insert(f.id@, f@),
        r is Err ==> folders_table(*final(conn)) == folders_table(*old(conn)),
        notes_table(*final(conn)) == notes_table(*old(conn)),
        attachments_table(*final(conn)) == attachments_table(*old(conn)),
        task_state(*final(conn)) == task_state(*old(conn)),
        checkin_state(*final(conn)) == checkin_state(*old(conn)),
        schema_state(*final(conn)) == schema_state(*old(conn)),
{
    let mut args: Vec<Arg> = Vec::new();
    args.push(Arg::Text(f.id.clone()));
    args.push(Arg::Text(f.name.clone()));
    args.push(Arg::Text(f.created_at.clone()));
    args.push(Arg::Text(f.updated_at.clone()));
    exec_args(
        conn,
        "INSERT INTO note_folders (id, name, created_at, updated_at) VALUES (?1, ?2, ?3, ?4)",
        args,
    ).map(|_| ())
}

/// The notes map after a folder is deleted: notes that pointed at it
/// point at no folder.
pub open spec fn notes_folder_cleared(m: Map<Seq<char>, NoteV>, folder_id: Seq<char>) -> Map<
    Seq<char>,
    NoteV,
> {
    m.map_values(
        |n: NoteV| if n.folder_id == Some(folder_id) {
            NoteV { folder_id: None, ..n }
        } else {
            n
        },
    )
}

/// Relies on rusqlite `Connection::unchecked_transaction`: inside one
/// transaction, points the folder's notes at no folder and deletes the
/// folder row; commits, or rolls the whole of it back on failure.
#[verifier::external_body]
pub(crate) fn delete_folder_and_refs(conn: &mut rusqlite::Connection, folder_id: &String) -> (r:
    Result<(), String>)
    ensures
        r is Ok ==> folders_table(*final(conn)) == folders_table(*old(conn)).remove(folder_id@),
        r is Ok ==> notes_table(*final(conn)) == notes_folder_cleared(
            notes_table(*old(conn)),
            folder_id@,
        ),
        r is Err ==> folders_table(*final(conn)) == folders_table(*old(conn))
            && notes_table(*final(conn)) == notes_table(*old(conn)),
        attachments_table(*final(conn)) == attachments_table(*old(conn)),
        task_state(*final(conn)) == task_state(*old(conn)),
        checkin_state(*final(conn)) == checkin_state(*old(conn)),
        schema_state(*final(conn)) == schema_state(*old(conn)),
{
    let tx = conn.unchecked_transaction().map_err(|e| e.to_string())?;
    tx.execute("UPDATE notes SET folder_id = NULL WHERE folder_id = ?1", [folder_id])
        .map_err(|e| e.to_string())?;
    tx.execute("DELETE FROM note_folders WHERE id = ?1", [folder_id])
        .map_err(|e| e.to_string())?;
    tx.commit().map_err(|e| e.to_string())
}

/// Relies on rusqlite `Row::get`: reads one attachment row.
#[verifier::external_body]
fn attachment_from_row(row: &rusqlite::Row<'_>) -> Result<NoteAttachment, rusqlite::Error> {
    Ok(NoteAttachment {
        id: row.get(0)?,
        note_id: row.get(1)?,
        filename: row.get(2)?,
        path_relative: row.get(3)?,
        created_at: row.get(4)?,
    })
}

/// Relies on rusqlite running `SELECT .. FROM note_attachments WHERE
/// note_id = ?1 ORDER BY created_at DESC`: exactly the note's
/// attachment rows, newest first.
#[verifier::external_body]
pub(crate) fn select_attachments_of_note(
    conn: &rusqlite::Connection,
    note_id: &String,
) -> (r: Result<Vec<NoteAttachment>, String>)
    ensures
        r matches Ok(v) ==> {
            &&& forall|i: int| 0 <= i < v@.len()
                ==> #[trigger] attachments_table(*conn).contains_pair(v@[i].id@, v@[i]@)
                    && v@[i].note_id@ == note_id@
            &&& forall|k: Seq<char>| #[trigger] attachments_table(*conn).dom().contains(k)
                && attachments_table(*conn)[k].note_id == note_id@
                ==> exists|i: int| 0 <= i < v@.len() && #[trigger] v@[i].id@ == k
            &&& forall|i: int, j: int|
                #![trigger v@[i].id@, v@[j].id@]
                0 <= i < j < v@.len() ==> v@[i].id@ != v@[j].id@
            &&& forall|i: int, j: int|
                #![trigger v@[i].created_at@, v@[j].created_at@]
                0 <= i < j < v@.len() ==> seq_le(v@[j].created_at@, v@[i].created_at@)
        },
{
    let mut stmt = conn
        .prepare(
            "SELECT id, note_id, filename, path_relative, created_at FROM note_attachments WHERE note_id = ?1 ORDER BY created_at DESC",
        )
        .map_err(|e| e.to_string())?;
    let rows = stmt.query_map([note_id], attachment_from_row).map_err(|e| e.to_string())?;
    let mut out = Vec::new();
    for row in rows {
        out.push(row.map_err(|e| e.to_string())?);
    }
    Ok(out)
}

/// Relies on rusqlite running `INSERT INTO note_attachments (..)`: adds
/// the row under its id, failing (changing nothing) if the id exists or
/// the note does not; no other table changes.
#[verifier::external_body]
pub(crate) fn insert_attachment_row(conn: &mut rusqlite::Connection, a: &NoteAttachment) -> (r:
    Result<(), String>)
    ensures
        r is Ok ==> !attachments_table(*old(conn)).dom().contains(a.id@),
        r is Ok ==> attachments_table(*final(conn)) == attachments_table(*old(conn)).insert(
            a.id@,
            a@,
        ),
        r is Err ==> attachments_table(*final(conn)) == attachments_table(*old(conn)),
        notes_table(*final(conn)) == notes_table(*old(conn)),
        folders_table(*final(conn)) == folders_table(*old(conn)),
        task_state(*final(conn)) == task_state(*old(conn)),
        checkin_state(*final(conn)) == checkin_state(*old(conn)),
        schema_state(*final(conn)) == schema_state(*old(conn)),
{
    let mut args: Vec<Arg> = Vec::new();
    args.push(Arg::Text(a.id.clone()));
    args.push(Arg::Text(a.note_id.clone()));
    args.push(Arg::Text(a.filename.clone()));
    args.push(Arg::Text(a.path_relative.clone()));
    args.push(Arg::Text(a.created_at.clone()));
    exec_args(
        conn,
        "INSERT INTO note_attachments (id, note_id, filename, path_relative, created_at) VALUES (?1, ?2, ?3, ?4, ?5)",
        args,
    ).map(|_| ())
}

/// Relies on rusqlite `Row::get`: reads one check-in person row.
#[verifier::external_body]
fn person_from_row(row: &rusqlite::Row<'_>) -> Result<CheckinPerson, rusqlite::Error> {
    Ok(CheckinPerson {
        id: row.get(0)?,
        name: row.get(1)?,
        relationship: row.get(2)?,
        created_at: row.get(3)?,
        updated_at: row.get(4)?,
    })
}

/// Relies on rusqlite running `SELECT .. FROM checkin_people ORDER BY
/// lower(name) ASC, created_at ASC`: every person row exactly once, in
/// that order (SQLite's `lower()` folds ASCII letters only).
#[verifier::external_body]
pub(crate) fn select_all_people(conn: &rusqlite::Connection) -> (r: Result<
    Vec<CheckinPerson>,
    String,
>)
    ensures
        r matches Ok(v) ==> {
            &&& forall|i: int| 0 <= i < v@.len()
                ==> #[trigger] people_table(*conn).contains_pair(v@[i].id@, v@[i]@)
            &&& forall|k: Seq<char>| #[trigger] people_table(*conn).dom().contains(k)
                ==> exists|i: int| 0 <= i < v@.len() && #[trigger] v@[i].id@ == k
            &&& forall|i: int, j: int|
                #![trigger v@[i].id@, v@[j].id@]
                0 <= i < j < v@.len() ==> v@[i].id@ != v@[j].id@
            &&& forall|i: int, j: int|
                #![trigger v@[i]@, v@[j]@]
                0 <= i < j < v@.len() ==> seq_le(ascii_lower(v@[i]@.name), ascii_lower(v@[j]@.name))
                    || (ascii_lower(v@[i]@.name) == ascii_lower(v@[j]@.name)
                        && seq_le(v@[i]@.created_at, v@[j]@.created_at))
        },
{
    let mut stmt = conn
        .prepare(
            "SELECT id, name, relationship, created_at, updated_at FROM checkin_people ORDER BY lower(name) ASC, created_at ASC",
        )
        .map_err(|e| e.to_string())?;
    let rows = stmt.query_map([], person_from_row).map_err(|e| e.to_string())?;
    let mut out = Vec::new();
    for row in rows {
        out.push(row.map_err(|e| e.to_string())?);
    }
    Ok(out)
}

/// Relies on rusqlite running `INSERT INTO checkin_people (..)`: adds
/// the row under its id, failing (changing nothing) if the id exists;
/// no other table changes.
#[verifier::external_body]
pub(crate) fn insert_person_row(conn: &mut rusqlite::Connection, p: &CheckinPerson) -> (r: Result<
    (),
    String,
>)
    ensures
        r is Ok ==> !people_table(*old(conn)).dom().contains(p.id@),
        r is Ok ==> people_table(*final(conn)) == people_table(*old(conn)).insert(p.id@, p@),
        r is Err ==> people_table(*final(conn)) == people_table(*old(conn)),
        checkins_table(*final(conn)) == checkins_table(*old(conn)),
        task_state(*final(conn)) == task_state(*old(conn)),
        notes_state(*final(conn)) == notes_state(*old(conn)),
        schema_state(*final(conn)) == schema_state(*old(conn)),
{
    let mut args: Vec<Arg> = Vec::new();
    args.push(Arg::Text(p.id.clone()));
    args.push(Arg::Text(p.name.clone()));
    args.push(Arg::Text(p.relationship.clone()));
    args.push(Arg::Text(p.created_at.clone()));
    args.push(Arg::Text(p.updated_at.clone()));
    exec_args(
        conn,
        "INSERT INTO checkin_people (id, name, relationship, created_at, updated_at) VALUES (?1, ?2, ?3, ?4, ?5)",
        args,
    ).map(|_| ())
}

/// Relies on rusqlite running `DELETE FROM checkin_people WHERE id =
/// ?1` with foreign keys on: removes the row and, by `ON DELETE
/// CASCADE`, the person's check-ins; no other table changes.
#[verifier::external_body]
pub(crate) fn delete_person_row(conn: &mut rusqlite::Connection, id: &String) -> (r: Result<
    (),
    String,
>)
    ensures
        r is Ok ==> people_table(*final(conn)) == people_table(*old(conn)).remove(id@),
        r is Ok ==> checkins_table(*final(conn)) == retain_values(
            checkins_table(*old(conn)),
            |c: CheckinV| c.person_id != id@,
        ),
        r is Err ==> people_table(*final(conn)) == people_table(*old(conn))
            && checkins_table(*final(conn)) == checkins_table(*old(conn)),
        task_state(*final(conn)) == task_state(*old(conn)),
        notes_state(*final(conn)) == notes_state(*old(conn)),
        schema_state(*final(conn)) == schema_state(*old(conn)),
{
    let mut args: Vec<Arg> = Vec::new();
    args.push(Arg::Text(id.clone()));
    exec_args(conn, "DELETE FROM checkin_people WHERE id = ?1", args).map(|_| ())
}

/// Relies on rusqlite `Row::get`: reads one check-in row.
#[verifier::external_body]
fn checkin_from_row(row: &rusqlite::Row<'_>) -> Result<Checkin, rusqlite::Error> {
    Ok(Checkin {
        id: row.get(0)?,
        person_id: row.get(1)?,
        checkin_date: row.get(2)?,
        discussion: row.get(3)?,
        notes: row.get(4)?,
        action_items: row.get(5)?,
        next_checkin_date: row.get(6)?,
        reminder_enabled: row.get::<_, i64>(7)? == 1,
        reminder_time: row.get(8)?,
        reminder_state: row.get(9)?,
        created_at: row.get(10)?,
        updated_at: row.get(11)?,
    })
}

/// The order `ORDER BY checkin_date DESC, updated_at DESC` gives rows.
pub open spec fn checkin_row_le(a: CheckinV, b: CheckinV) -> bool {
    ||| crate::tags::seq_lt(b.checkin_date, a.checkin_date)
    ||| (a.checkin_date == b.checkin_date && seq_le(b.updated_at, a.updated_at))
}

/// Relies on rusqlite running `SELECT .. FROM checkins ORDER BY
/// checkin_date DESC, updated_at DESC`: every check-in row exactly
/// once, in that order.
#[verifier::external_body]
pub(crate) fn select_all_checkins(conn: &rusqlite::Connection) -> (r: Result<Vec<Checkin>, String>)
    ensures
        r matches Ok(v) ==> {
            &&& forall|i: int| 0 <= i < v@.len()
                ==> #[trigger] checkins_table(*conn).contains_pair(v@[i].id@, v@[i]@)
            &&& forall|k: Seq<char>| #[trigger] checkins_table(*conn).dom().contains(k)
                ==> exists|i: int| 0 <= i < v@.len() && #[trigger] v@[i].id@ == k
            &&& forall|i: int, j: int|
                #![trigger v@[i].id@, v@[j].id@]
                0 <= i < j < v@.len() ==> v@[i].id@ != v@[j].id@
            &&& forall|i: int, j: int|
                #![trigger v@[i]@, v@[j]@]
                0 <= i < j < v@.len() ==> checkin_row_le(v@[i]@, v@[j]@)
        },
{
    let mut stmt = conn
        .prepare(
            "SELECT id, person_id, checkin_date, discussion, notes, action_items, next_checkin_date, reminder_enabled, reminder_time, reminder_state, created_at, updated_at FROM checkins ORDER BY checkin_date DESC, updated_at DESC",
        )
        .map_err(|e| e.to_string())?;
    let rows = stmt.query_map([], checkin_from_row).map_err(|e| e.to_string())?;
    let mut out = Vec::new();
    for row in rows {
        out.push(row.map_err(|e| e.to_string())?);
    }
    Ok(out)
}

fn checkin_args(c: &Checkin) -> Vec<Arg> {
    let mut args: Vec<Arg> = Vec::new();
    args.push(Arg::Text(c.id.clone()));
    args.push(Arg::Text(c.person_id.clone()));
    args.push(Arg::Text(c.checkin_date.clone()));
    args.push(opt_text(&c.discussion));
    args.push(opt_text(&c.notes));
    args.push(opt_text(&c.action_items));
    args.push(opt_text(&c.next_checkin_date));
    args.push(Arg::Int(if c.reminder_enabled { 1 } else { 0 }));
    args.push(opt_text(&c.reminder_time));
    args.push(opt_text(&c.reminder_state));
    args.push(Arg::Text(c.created_at.clone()));
    args.push(Arg::Text(c.updated_at.clone()));
    args
}

/// Relies on rusqlite running `INSERT INTO checkins (..)`: adds the row
/// under its id, failing (changing nothing) if the id exists or the
/// person does not; no other table changes.
#[verifier::external_body]
pub(crate) fn insert_checkin_row(conn: &mut rusqlite::Connection, c: &Checkin) -> (r: Result<
    (),
    String,
>)
    ensures
        r is Ok ==> !checkins_table(*old(conn)).dom().contains(c.id@),
        r is Ok ==> checkins_table(*final(conn)) == checkins_table(*old(conn)).insert(c.id@, c@),
        r is Err ==> checkins_table(*final(conn)) == checkins_table(*old(conn)),
        people_table(*final(conn)) == people_table(*old(conn)),
        task_state(*final(conn)) == task_state(*old(conn)),
        notes_state(*final(conn)) == notes_state(*old(conn)),
        schema_state(*final(conn)) == schema_state(*old(conn)),
{
    exec_args(
        conn,
        "INSERT INTO checkins (id, person_id, checkin_date, discussion, notes, action_items, next_checkin_date, reminder_enabled, reminder_time, reminder_state, created_at, updated_at) VALUES (?1, ?2, ?3, ?4, ?5, ?6, ?7, ?8, ?9, ?10, ?11, ?12)",
        checkin_args(c),
    ).map(|_| ())
}

/// Relies on rusqlite running `UPDATE checkins SET .. WHERE id = ?1`:
/// replaces the row when its id exists, a no-op when it does not; no
/// other table changes.
#[verifier::external_body]
pub(crate) fn update_checkin_row(conn: &mut rusqlite::Connection, c: &Checkin) -> (r: Result<
    (),
    String,
>)
    ensures
        r is Ok ==> checkins_table(*final(conn)) == if checkins_table(*old(conn)).dom().contains(
            c.id@,
        ) {
            checkins_table(*old(conn)).insert(c.id@, c@)
        } else {
            checkins_table(*old(conn))
        },
        r is Err ==> checkins_table(*final(conn)) == checkins_table(*old(conn)),
        people_table(*final(conn)) == people_table(*old(conn)),
        task_state(*final(conn)) == task_state(*old(conn)),
        notes_state(*final(conn)) == notes_state(*old(conn)),
        schema_state(*final(conn)) == schema_state(*old(conn)),
{
    exec_args(
        conn,
        "UPDATE checkins SET person_id = ?2, checkin_date = ?3, discussion = ?4, notes = ?5, action_items = ?6, next_checkin_date = ?7, reminder_enabled = ?8, reminder_time = ?9, reminder_state = ?10, created_at = ?11, updated_at = ?12 WHERE id = ?1",
        checkin_args(c),
    ).map(|_| ())
}

/// Relies on rusqlite running `DELETE FROM checkins WHERE id = ?1`:
/// removes the row; no other table changes.
#[verifier::external_body]
pub(crate) fn delete_checkin_row(conn: &mut rusqlite::Connection, id: &String) -> (r: Result<
    (),
    String,
>)
    ensures
        r is Ok ==> checkins_table(*final(conn)) == checkins_table(*old(conn)).remove(id@),
        r is Err ==> checkins_table(*final(conn)) == checkins_table(*old(conn)),
        people_table(*final(conn)) == people_table(*old(conn)),
        task_state(*final(conn)) == task_state(*old(conn)),
        notes_state(*final(conn)) == notes_state(*old(conn)),
        schema_state(*final(conn)) == schema_state(*old(conn)),
{
    let mut args: Vec<Arg> = Vec::new();
    args.push(Arg::Text(id.clone()));
    exec_args(conn, "DELETE FROM checkins WHERE id = ?1", args).map(|_| ())
}

/// Relies on chrono `Utc::now().to_rfc3339()`: the current instant as
/// text; nothing can be promised of the clock.
#[verifier::external_body]
pub(crate) fn now_rfc3339() -> String {
    chrono::Utc::now().to_rfc3339()
}

/// Relies on chrono `Local::now()` and `Datelike`: the local calendar
/// date as plain year, month, day values; nothing can be promised of
/// the clock, callers validate the triple.
#[verifier::external_body]
pub(crate) fn local_now_ymd() -> (i64, i64, i64) {
    let now = chrono::Local::now();
    (
        chrono::Datelike::year(&now) as i64,
        chrono::Datelike::month(&now) as i64,
        chrono::Datelike::day(&now) as i64,
    )
}

/// Relies on uuid `Uuid::new_v4`: a fresh random identifier in
/// hyphenated text form; nothing is promised of its value.
#[verifier::external_body]
pub(crate) fn new_uuid() -> String {
    uuid::Uuid::new_v4().to_string()
}

/// Today's local date, rejected when the system clock is outside the
/// four-digit-year calendar this store works in.
pub fn today_date() -> (r: Result<Date, String>)
    ensures
        r matches Ok(d) ==> date_valid(d) && 1 <= d.year <= 9999,
{
    let (y, m, d) = local_now_ymd();
    let date = Date { year: y, month: m, day: d };
    if check_date(&date) && date.year <= 9999 {
        Ok(date)
    } else {
        Err(String::from_str("system clock is outside the supported calendar"))
    }
}

} // verus!
