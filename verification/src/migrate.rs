//! The schema-migration runner: applies every schema version not yet
//! recorded, in ascending order, with a recovery path for the known
//! partial failure around the denormalized tags column, and two
//! version-independent schema repairs.

use vstd::prelude::*;
use crate::store::{
    applied_versions, checkin_state, join_table_stale, notes_state, schema_state, task_state,
    task_tags_rel, tags_table, tasks_have_tags_column, tasks_table, Arg,
};

verus! {

/// Schema versions, each with the DDL that brings the store to it.
pub const MIGRATION_1_SQL: &'static str =
    "CREATE TABLE IF NOT EXISTS tasks (id TEXT PRIMARY KEY, title TEXT NOT NULL, target_date TEXT NOT NULL, status TEXT NOT NULL DEFAULT 'todo', created_at TEXT NOT NULL, updated_at TEXT NOT NULL);";

pub const MIGRATION_2_SQL: &'static str =
    "ALTER TABLE tasks ADD COLUMN notes TEXT; ALTER TABLE tasks ADD COLUMN progress_percent INTEGER NOT NULL DEFAULT 0; ALTER TABLE tasks ADD COLUMN deadline_at TEXT;";

pub const MIGRATION_3_SQL: &'static str =
    "ALTER TABLE tasks ADD COLUMN is_recurring INTEGER NOT NULL DEFAULT 0; ALTER TABLE tasks ADD COLUMN recurrence_type TEXT; ALTER TABLE tasks ADD COLUMN recurrence_interval INTEGER; ALTER TABLE tasks ADD COLUMN recurrence_weekdays TEXT; ALTER TABLE tasks ADD COLUMN timer_enabled INTEGER NOT NULL DEFAULT 0; ALTER TABLE tasks ADD COLUMN timer_minutes INTEGER; ALTER TABLE tasks ADD COLUMN timer_state TEXT; ALTER TABLE tasks ADD COLUMN timer_ends_at TEXT; ALTER TABLE tasks ADD COLUMN rolled_over INTEGER NOT NULL DEFAULT 0; ALTER TABLE tasks ADD COLUMN rolled_from_date TEXT;";

pub const MIGRATION_4_SQL: &'static str =
    "ALTER TABLE tasks ADD COLUMN sort_order INTEGER NOT NULL DEFAULT 0; CREATE INDEX IF NOT EXISTS idx_tasks_partition ON tasks(target_date, rolled_over, sort_order);";

pub const MIGRATION_5_SQL: &'static str =
    "CREATE TABLE IF NOT EXISTS notes (id TEXT PRIMARY KEY, title TEXT NOT NULL, body_markdown TEXT NOT NULL, tags TEXT NOT NULL DEFAULT '', folder_id TEXT, created_at TEXT NOT NULL, updated_at TEXT NOT NULL); CREATE TABLE IF NOT EXISTS note_attachments (id TEXT PRIMARY KEY, note_id TEXT NOT NULL, filename TEXT NOT NULL, path_relative TEXT NOT NULL, created_at TEXT NOT NULL, FOREIGN KEY(note_id) REFERENCES notes(id) ON DELETE CASCADE);";

pub const MIGRATION_6_SQL: &'static str =
    "CREATE TABLE IF NOT EXISTS note_folders (id TEXT PRIMARY KEY, name TEXT NOT NULL, created_at TEXT NOT NULL, updated_at TEXT NOT NULL);";

pub const MIGRATION_7_SQL: &'static str =
    "CREATE TABLE IF NOT EXISTS checkin_people (id TEXT PRIMARY KEY, name TEXT NOT NULL, relationship TEXT NOT NULL, created_at TEXT NOT NULL, updated_at TEXT NOT NULL); CREATE TABLE IF NOT EXISTS checkins (id TEXT PRIMARY KEY, person_id TEXT NOT NULL, checkin_date TEXT NOT NULL, discussion TEXT, notes TEXT, action_items TEXT, next_checkin_date TEXT, reminder_enabled INTEGER NOT NULL DEFAULT 0, reminder_time TEXT, reminder_state TEXT, created_at TEXT NOT NULL, updated_at TEXT NOT NULL, FOREIGN KEY(person_id) REFERENCES checkin_people(id) ON DELETE CASCADE);";

pub const MIGRATION_8_SQL: &'static str =
    "ALTER TABLE tasks ADD COLUMN tags TEXT NOT NULL DEFAULT '';";

/// A version list as mathematical integers.
pub open spec fn as_ints(s: Seq<i64>) -> Seq<int> {
    s.map_values(|x: i64| x as int)
}

/// Every schema version this build knows.
pub open spec fn all_versions() -> Set<int> {
    set![1int, 2int, 3int, 4int, 5int, 6int, 7int, 8int]
}

/// Relies on rusqlite `Connection::open` and a `PRAGMA foreign_keys =
/// ON` batch: a connection to the store file (or to a fresh in-memory
/// store); nothing is promised of what the store holds.
#[verifier::external_body]
pub(crate) fn open_database(path: &str) -> (r: Result<rusqlite::Connection, String>) {
    let conn = rusqlite::Connection::open(path).map_err(|e| e.to_string())?;
    conn.execute_batch("PRAGMA foreign_keys = ON;").map_err(|e| e.to_string())?;
    Ok(conn)
}

/// Relies on rusqlite running `CREATE TABLE IF NOT EXISTS
/// schema_migrations ..`: afterwards the bookkeeping table exists; the
/// recorded set (empty when the table was absent) and all other tables
/// are unchanged.
#[verifier::external_body]
pub(crate) fn ensure_migrations_table(conn: &mut rusqlite::Connection) -> (r: Result<(), String>)
    ensures
        applied_versions(*final(conn)) == applied_versions(*old(conn)),
        tasks_have_tags_column(*final(conn)) == tasks_have_tags_column(*old(conn)),
        join_table_stale(*final(conn)) == join_table_stale(*old(conn)),
        task_state(*final(conn)) == task_state(*old(conn)),
        notes_state(*final(conn)) == notes_state(*old(conn)),
        checkin_state(*final(conn)) == checkin_state(*old(conn)),
{
    conn.execute(
        "CREATE TABLE IF NOT EXISTS schema_migrations (version INTEGER PRIMARY KEY, applied_at TEXT NOT NULL)",
        [],
    ).map_err(|e| e.to_string())?;
    Ok(())
}

/// Relies on rusqlite running `SELECT version FROM schema_migrations`:
/// exactly the recorded versions.
#[verifier::external_body]
pub(crate) fn read_applied_versions(conn: &rusqlite::Connection) -> (r: Result<Vec<i64>, String>)
    ensures
        r matches Ok(v) ==> {
            &&& forall|i: int| 0 <= i < v@.len()
                ==> applied_versions(*conn).contains(#[trigger] v@[i] as int)
            &&& forall|x: int| #[trigger] applied_versions(*conn).contains(x)
                ==> exists|i: int| 0 <= i < v@.len() && #[trigger] v@[i] as int == x
        },
{
    let mut stmt = conn
        .prepare("SELECT version FROM schema_migrations")
        .map_err(|e| e.to_string())?;
    let rows = stmt.query_map([], |row| row.get::<_, i64>(0)).map_err(|e| e.to_string())?;
    let mut out = Vec::new();
    for row in rows {
        out.push(row.map_err(|e| e.to_string())?);
    }
    Ok(out)
}

/// Relies on rusqlite running `INSERT INTO schema_migrations ..`:
/// records the version; everything else is unchanged.
#[verifier::external_body]
pub(crate) fn record_version(
    conn: &mut rusqlite::Connection,
    version: i64,
    applied_at: &String,
) -> (r: Result<(), String>)
    ensures
        r is Ok ==> applied_versions(*final(conn)) == applied_versions(*old(conn)).insert(
            version as int,
        ),
        r is Err ==> applied_versions(*final(conn)) == applied_versions(*old(conn)),
        tasks_have_tags_column(*final(conn)) == tasks_have_tags_column(*old(conn)),
        join_table_stale(*final(conn)) == join_table_stale(*old(conn)),
        task_state(*final(conn)) == task_state(*old(conn)),
        notes_state(*final(conn)) == notes_state(*old(conn)),
        checkin_state(*final(conn)) == checkin_state(*old(conn)),
{
    let mut args: Vec<Arg> = Vec::new();
    args.push(Arg::Int(version));
    args.push(Arg::Text(applied_at.clone()));
    crate::store::exec_args(conn, "INSERT INTO schema_migrations (version, applied_at) VALUES (?1, ?2)", args).map(|_| ())
}

/// Relies on rusqlite `Connection::execute_batch` over the fixed DDL of
/// one schema version: none of the scripts touches the bookkeeping
/// table, none before the last adds the tasks `tags` column, and none
/// touches the join table.
#[verifier::external_body]
pub(crate) fn apply_migration(conn: &mut rusqlite::Connection, version: i64) -> (r: Result<
    (),
    String,
>)
    requires
        1 <= version <= 8,
    ensures
        applied_versions(*final(conn)) == applied_versions(*old(conn)),
        join_table_stale(*final(conn)) == join_table_stale(*old(conn)),
        version != 8 ==> tasks_have_tags_column(*final(conn)) == tasks_have_tags_column(
            *old(conn),
        ),
        r is Ok && version == 8 ==> tasks_have_tags_column(*final(conn)),
{
    let sql = match version {
        1 => MIGRATION_1_SQL,
        2 => MIGRATION_2_SQL,
        3 => MIGRATION_3_SQL,
        4 => MIGRATION_4_SQL,
        5 => MIGRATION_5_SQL,
        6 => MIGRATION_6_SQL,
        7 => MIGRATION_7_SQL,
        _ => MIGRATION_8_SQL,
    };
    conn.execute_batch(sql).map_err(|e| e.to_string())
}

/// Relies on rusqlite running `PRAGMA table_info(tasks)`: whether the
/// tasks table has a column named `tags`.
#[verifier::external_body]
pub(crate) fn probe_tags_column(conn: &rusqlite::Connection) -> (r: Result<bool, String>)
    ensures
        r matches Ok(b) ==> b == tasks_have_tags_column(*conn),
{
    let mut stmt = conn.prepare("PRAGMA table_info(tasks)").map_err(|e| e.to_string())?;
    let rows = stmt.query_map([], |row| row.get::<_, String>(1)).map_err(|e| e.to_string())?;
    for row in rows {
        if row.map_err(|e| e.to_string())? == "tags" {
            return Ok(true);
        }
    }
    Ok(false)
}

/// Relies on rusqlite running `PRAGMA foreign_key_list(task_tags)`:
/// whether any foreign key of the join table still references the
/// retired `tasks_old` table.
#[verifier::external_body]
pub(crate) fn probe_join_table_stale(conn: &rusqlite::Connection) -> (r: Result<bool, String>)
    ensures
        r matches Ok(b) ==> b == join_table_stale(*conn),
{
    let mut stmt = conn.prepare("PRAGMA foreign_key_list(task_tags)").map_err(|e| e.to_string())?;
    let rows = stmt.query_map([], |row| row.get::<_, String>(2)).map_err(|e| e.to_string())?;
    for row in rows {
        if row.map_err(|e| e.to_string())? == "tasks_old" {
            return Ok(true);
        }
    }
    Ok(false)
}

/// Relies on rusqlite running `ALTER TABLE tasks ADD COLUMN tags ..`:
/// afterwards the column exists; the bookkeeping and the join-table
/// flag are unchanged.
#[verifier::external_body]
pub(crate) fn add_tags_column(conn: &mut rusqlite::Connection) -> (r: Result<(), String>)
    ensures
        r is Ok ==> tasks_have_tags_column(*final(conn)),
        applied_versions(*final(conn)) == applied_versions(*old(conn)),
        join_table_stale(*final(conn)) == join_table_stale(*old(conn)),
        tags_table(*final(conn)) == tags_table(*old(conn)),
        task_tags_rel(*final(conn)) == task_tags_rel(*old(conn)),
        notes_state(*final(conn)) == notes_state(*old(conn)),
        checkin_state(*final(conn)) == checkin_state(*old(conn)),
{
    conn.execute("ALTER TABLE tasks ADD COLUMN tags TEXT NOT NULL DEFAULT ''", [])
        .map_err(|e| e.to_string())?;
    Ok(())
}

/// Relies on rusqlite running `CREATE TABLE IF NOT EXISTS` for the tags
/// and join tables plus their indexes: creates them empty only where
/// absent (a missing table holds nothing, so contents are preserved
/// either way, and a freshly created join table references the live
/// tables, so the stale flag is preserved too); everything else is
/// unchanged.
#[verifier::external_body]
pub(crate) fn ensure_tag_tables(conn: &mut rusqlite::Connection) -> (r: Result<(), String>)
    ensures
        applied_versions(*final(conn)) == applied_versions(*old(conn)),
        tasks_have_tags_column(*final(conn)) == tasks_have_tags_column(*old(conn)),
        join_table_stale(*final(conn)) == join_table_stale(*old(conn)),
        tasks_table(*final(conn)) == tasks_table(*old(conn)),
        tags_table(*final(conn)) == tags_table(*old(conn)),
        task_tags_rel(*final(conn)) == task_tags_rel(*old(conn)),
        notes_state(*final(conn)) == notes_state(*old(conn)),
        checkin_state(*final(conn)) == checkin_state(*old(conn)),
{
    conn.execute_batch(
        "CREATE TABLE IF NOT EXISTS tags (id TEXT PRIMARY KEY, name TEXT NOT NULL UNIQUE, created_at TEXT NOT NULL); CREATE TABLE IF NOT EXISTS task_tags (task_id TEXT NOT NULL, tag_id TEXT NOT NULL, PRIMARY KEY (task_id, tag_id), FOREIGN KEY(task_id) REFERENCES tasks(id) ON DELETE CASCADE, FOREIGN KEY(tag_id) REFERENCES tags(id) ON DELETE CASCADE); CREATE INDEX IF NOT EXISTS idx_task_tags_task ON task_tags(task_id); CREATE INDEX IF NOT EXISTS idx_task_tags_tag ON task_tags(tag_id);",
    ).map_err(|e| e.to_string())
}

/// Relies on rusqlite `Connection::unchecked_transaction` and
/// `execute_batch` over the rebuild script, with foreign keys off
/// around it: inside one transaction it renames the stale join table
/// aside, recreates it against the live tables, copies only the links
/// whose endpoints still exist (orphans are dropped), and drops the old
/// table; on failure the dropped transaction rolls the whole repair
/// back, so nothing partially commits.
#[verifier::external_body]
pub(crate) fn rebuild_join_table(conn: &mut rusqlite::Connection) -> (r: Result<(), String>)
    ensures
        r is Ok ==> !join_table_stale(*final(conn)),
        r is Err ==> join_table_stale(*final(conn)) == join_table_stale(*old(conn)),
        r is Ok ==> task_tags_rel(*final(conn)) == task_tags_rel(*old(conn)).filter(
            |p: (Seq<char>, Seq<char>)| tasks_table(*old(conn)).dom().contains(p.0)
                && tags_table(*old(conn)).dom().contains(p.1),
        ),
        r is Err ==> task_tags_rel(*final(conn)) == task_tags_rel(*old(conn)),
        tasks_table(*final(conn)) == tasks_table(*old(conn)),
        tags_table(*final(conn)) == tags_table(*old(conn)),
        tasks_have_tags_column(*final(conn)) == tasks_have_tags_column(*old(conn)),
        applied_versions(*final(conn)) == applied_versions(*old(conn)),
        notes_state(*final(conn)) == notes_state(*old(conn)),
        checkin_state(*final(conn)) == checkin_state(*old(conn)),
{
    conn.execute_batch("PRAGMA foreign_keys = OFF;").map_err(|e| e.to_string())?;
    let rebuild = match conn.unchecked_transaction() {
        Ok(tx) => tx.execute_batch(
            "ALTER TABLE task_tags RENAME TO task_tags_old; CREATE TABLE task_tags (task_id TEXT NOT NULL, tag_id TEXT NOT NULL, PRIMARY KEY (task_id, tag_id), FOREIGN KEY(task_id) REFERENCES tasks(id) ON DELETE CASCADE, FOREIGN KEY(tag_id) REFERENCES tags(id) ON DELETE CASCADE); INSERT INTO task_tags (task_id, tag_id) SELECT old.task_id, old.tag_id FROM task_tags_old old INNER JOIN tasks t ON t.id = old.task_id INNER JOIN tags g ON g.id = old.tag_id; DROP TABLE task_tags_old; CREATE INDEX IF NOT EXISTS idx_task_tags_task ON task_tags(task_id); CREATE INDEX IF NOT EXISTS idx_task_tags_tag ON task_tags(tag_id);",
        ).and_then(|_| tx.commit()),
        Err(e) => Err(e),
    };
    let _ = conn.execute_batch("PRAGMA foreign_keys = ON;");
    rebuild.map_err(|e| e.to_string())
}

/// Applies every schema version not yet recorded, in ascending order,
/// recording each only after its DDL succeeds. A missing version-8 row
/// over a store that already has the tasks `tags` column is recorded
/// without re-running the DDL. Returns the versions whose DDL actually
/// ran.
pub fn run_migrations(conn: &mut rusqlite::Connection) -> (r: Result<Vec<i64>, String>)
    ensures
        r matches Ok(ran) ==> {
            &&& applied_versions(*final(conn)) == applied_versions(*old(conn)).union(
                all_versions(),
            )
            &&& forall|v: int| #[trigger] as_ints(ran@).contains(v)
                <==> 1 <= v <= 8 && !applied_versions(*old(conn)).contains(v) && !(v == 8
                    && tasks_have_tags_column(*old(conn)))
        },
{
    ensure_migrations_table(conn)?;
    let applied = read_applied_versions(conn)?;
    let mut ran: Vec<i64> = Vec::new();
    let mut version: i64 = 1;
    let ghost applied0 = applied_versions(*conn);
    let ghost col0 = tasks_have_tags_column(*conn);
    while version <= 8
        invariant
            1 <= version <= 9,
            forall|i: int| 0 <= i < applied@.len()
                ==> applied0.contains(#[trigger] applied@[i] as int),
            forall|x: int| #[trigger] applied0.contains(x)
                ==> exists|i: int| 0 <= i < applied@.len() && #[trigger] applied@[i] as int == x,
            applied_versions(*conn) == applied0.union(
                Set::new(|v: int| 1 <= v < version && !applied0.contains(v)),
            ),
            version <= 8 ==> tasks_have_tags_column(*conn) == col0,
            forall|v: int| #[trigger] as_ints(ran@).contains(v)
                <==> 1 <= v < version && !applied0.contains(v) && !(v == 8 && col0),
        decreases 9 - version,
    {
        let already = contains_version(&applied, version);
        if !already {
            if version == 8 && probe_tags_column(conn)? {
                let now = crate::store::now_rfc3339();
                record_version(conn, version, &now)?;
            } else {
                apply_migration(conn, version)?;
                let now = crate::store::now_rfc3339();
                record_version(conn, version, &now)?;
                let ghost old_ran = ran@;
                ran.push(version);
                proof {
                    assert forall|v: int| #[trigger] as_ints(ran@).contains(v)
                        <==> 1 <= v < version + 1 && !applied0.contains(v) && !(v == 8
                            && col0) by {
                        lemma_map_int_push(old_ran, version as i64, v);
                    }
                }
            }
        }
        proof {
            assert(applied_versions(*conn) =~= applied0.union(
                Set::new(|v: int| 1 <= v < version + 1 && !applied0.contains(v)),
            ));
        }
        version = version + 1;
    }
    proof {
        assert(applied_versions(*conn) =~= applied0.union(all_versions()));
    }
    Ok(ran)
}

proof fn lemma_map_int_push(s: Seq<i64>, x: i64, v: int)
    ensures
        as_ints(s.push(x)).contains(v) <==> as_ints(s).contains(v) || v == x as int,
{
    assert(as_ints(s.push(x)) =~= as_ints(s).push(x as int));
    crate::tags::lemma_contains_push(as_ints(s), x as int, v);
}

fn contains_version(v: &Vec<i64>, x: i64) -> (b: bool)
    ensures
        b == v@.contains(x),
{
    let mut i: usize = 0;
    while i < v.len()
        invariant
            0 <= i <= v.len(),
            forall|k: int| 0 <= k < i ==> v@[k] != x,
        decreases v.len() - i,
    {
        if v[i] == x {
            return true;
        }
        i = i + 1;
    }
    false
}

/// The two version-independent schema repairs: ensure the denormalized
/// tags column and the tag tables exist, and rebuild the join table
/// when its foreign keys still point at a retired table. When the
/// column is already there, task data is untouched; on a store both
/// repairs already hold of, nothing changes at all, so a second run is
/// a no-op.
pub fn ensure_task_tags_schema(conn: &mut rusqlite::Connection) -> (r: Result<(), String>)
    ensures
        r is Ok ==> tasks_have_tags_column(*final(conn)) && !join_table_stale(*final(conn)),
        r is Ok ==> applied_versions(*final(conn)) == applied_versions(*old(conn)),
        notes_state(*final(conn)) == notes_state(*old(conn)),
        checkin_state(*final(conn)) == checkin_state(*old(conn)),
        tasks_have_tags_column(*old(conn)) ==> tasks_table(*final(conn)) == tasks_table(
            *old(conn),
        ) && tags_table(*final(conn)) == tags_table(*old(conn)),
        tasks_have_tags_column(*old(conn)) && !join_table_stale(*old(conn)) ==> task_state(
            *final(conn),
        ) == task_state(*old(conn)) && schema_state(*final(conn)) == schema_state(*old(conn)),
{
    if !probe_tags_column(conn)? {
        add_tags_column(conn)?;
    }
    ensure_tag_tables(conn)?;
    if probe_join_table_stale(conn)? {
        rebuild_join_table(conn)?;
    }
    Ok(())
}

/// Opens (or creates) the store behind a workspace path, brings its
/// schema to the current version, and runs the idempotent repairs.
pub fn open_db(path: &str) -> (r: Result<rusqlite::Connection, String>)
    ensures
        r matches Ok(conn) ==> {
            &&& applied_versions(conn).contains(8)
            &&& all_versions().subset_of(applied_versions(conn))
            &&& tasks_have_tags_column(conn)
            &&& !join_table_stale(conn)
        },
{
    let mut conn = open_database(path)?;
    run_migrations(&mut conn)?;
    ensure_task_tags_schema(&mut conn)?;
    proof {
        assert forall|v: int| all_versions().contains(v)
            implies applied_versions(conn).contains(v) by {}
        assert(all_versions().contains(8int));
    }
    Ok(conn)
}

} // verus!
