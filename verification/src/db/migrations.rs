//! Forward-only schema migrations keyed on `PRAGMA user_version`.
//!
//! Each migration is one version step, applied in its own transaction. To
//! evolve the schema, append a new step - never edit an existing one.
use vstd::prelude::*;
use crate::sql::{begin, col_int, commit, execute_batch, query_one, tx_conn, user_version_sql, DbError};
use crate::text::dec;

verus! {

/// Number of migration steps the code expects the database to be at.
pub const COUNT: usize = 4;

/// The SQL of migration step `i` (`i < COUNT`).
pub fn migration(i: usize) -> (sql: &'static str)
    requires
        i < COUNT,
    ensures
        sql@ == (if i == 0 {
            V1@
        } else if i == 1 {
            V2@
        } else if i == 2 {
            V3@
        } else {
            V4@
        }),
{
    if i == 0 {
        V1
    } else if i == 1 {
        V2
    } else if i == 2 {
        V3
    } else {
        V4
    }
}

/// The SQL of migration step `i`.
pub open spec fn migration_text(i: nat) -> Seq<char> {
    if i == 0 {
        V1@
    } else if i == 1 {
        V2@
    } else if i == 2 {
        V3@
    } else {
        V4@
    }
}

/// The batches that bring a database at version `from` up to `COUNT`: each
/// step's SQL, then the version it reaches.
pub open spec fn steps_from(from: nat) -> Seq<Seq<char>>
    decreases COUNT - from,
{
    if from >= COUNT {
        seq![]
    } else {
        seq![migration_text(from), "PRAGMA user_version = "@ + dec(from + 1)] + steps_from(from + 1)
    }
}

/// The texts of a list of batches.
pub open spec fn texts(v: Seq<String>) -> Seq<Seq<char>> {
    v.map_values(|s: String| s@)
}

/// Bring `conn` up to `COUNT`. A no-op if it is already current. Gives
/// back the batches it ran, in order: the steps from the stored version up
/// to `COUNT`, each followed by the version it reaches.
pub fn run(conn: &rusqlite::Connection) -> (r: Result<Vec<String>, DbError>)
    ensures
        r matches Ok(done) ==> exists|from: nat| texts(done@) == #[trigger] steps_from(from),
{
    let row = query_one(conn, "PRAGMA user_version", vec![])?;
    let v = col_int(&row, 0)?;
    let mut done: Vec<String> = Vec::new();
    if v < 0 {
        // a negative version reads as a huge one: nothing to apply
        proof {
            assert(texts(done@) =~= steps_from(COUNT as nat));
        }
        return Ok(done);
    }
    let mut version: u64 = v as u64;
    let ghost start: nat = v as nat;
    proof {
        assert(texts(done@) =~= Seq::<Seq<char>>::empty());
        assert(texts(done@) + steps_from(start) =~= steps_from(start));
    }
    while version < COUNT as u64
        invariant
            texts(done@) + steps_from(version as nat) == steps_from(start),
        decreases COUNT as u64 - version,
    {
        let tx = match begin(conn) {
            Ok(t) => t,
            Err(e) => return Err(DbError::Sql(e)),
        };
        let step = migration(version as usize);
        if let Err(e) = execute_batch(tx_conn(&tx), step) {
            return Err(DbError::Sql(e));
        }
        let ghost before = done@;
        let ghost at: nat = version as nat;
        done.push(step.to_owned());
        version += 1;
        let set = user_version_sql(version);
        if let Err(e) = execute_batch(tx_conn(&tx), set.as_str()) {
            return Err(DbError::Sql(e));
        }
        done.push(set);
        if let Err(e) = commit(tx) {
            return Err(DbError::Sql(e));
        }
        proof {
            assert(steps_from(at) == seq![migration_text(at), "PRAGMA user_version = "@ + dec(at + 1)] + steps_from(at + 1));
            assert(texts(done@) =~= texts(before) + seq![migration_text(at), "PRAGMA user_version = "@ + dec(at + 1)]);
            assert(texts(done@) + steps_from(version as nat) =~= texts(before) + steps_from(at));
        }
    }
    proof {
        assert(steps_from(version as nat) =~= Seq::<Seq<char>>::empty());
        assert(texts(done@) =~= steps_from(start));
    }
    Ok(done)
}

pub const V1: &'static str = "
CREATE TABLE projects (
    id          TEXT PRIMARY KEY,
    name        TEXT    NOT NULL,
    tracked     INTEGER NOT NULL DEFAULT 0,   -- display flag: show the time graph
    archived    INTEGER NOT NULL DEFAULT 0,
    created_at  TEXT    NOT NULL
);

CREATE TABLE tasks (
    id              TEXT PRIMARY KEY,
    project_id      TEXT REFERENCES projects(id) ON DELETE SET NULL,
    parent_task_id  TEXT REFERENCES tasks(id)    ON DELETE CASCADE,
    title           TEXT    NOT NULL,
    notes           TEXT    NOT NULL DEFAULT '',
    deadline        TEXT,
    tracked         INTEGER NOT NULL DEFAULT 0,   -- display flag only
    status          TEXT    NOT NULL DEFAULT 'todo',
    completed_at    TEXT,
    sort_order      REAL    NOT NULL DEFAULT 0,
    created_at      TEXT    NOT NULL
);
CREATE INDEX idx_tasks_parent  ON tasks(parent_task_id);
CREATE INDEX idx_tasks_project ON tasks(project_id);

CREATE TABLE time_entries (
    id          TEXT PRIMARY KEY,
    task_id     TEXT    NOT NULL REFERENCES tasks(id) ON DELETE CASCADE,
    start_ts    TEXT    NOT NULL,
    end_ts      TEXT,                            -- NULL = currently running
    source      TEXT    NOT NULL DEFAULT 'timer',-- 'timer' | 'manual'
    note        TEXT    NOT NULL DEFAULT '',
    created_at  TEXT    NOT NULL
);
CREATE INDEX idx_time_entries_task ON time_entries(task_id);

-- At most one running timer (end_ts IS NULL) across the whole app. A partial
-- UNIQUE index can't express this (SQLite treats NULLs as distinct and rejects
-- constant index expressions), so enforce it with triggers.
CREATE TRIGGER trg_one_running_timer_insert
BEFORE INSERT ON time_entries
WHEN NEW.end_ts IS NULL
BEGIN
    SELECT RAISE(ABORT, 'a timer is already running')
    WHERE EXISTS (SELECT 1 FROM time_entries WHERE end_ts IS NULL);
END;

CREATE TRIGGER trg_one_running_timer_update
BEFORE UPDATE ON time_entries
WHEN NEW.end_ts IS NULL AND OLD.end_ts IS NOT NULL
BEGIN
    SELECT RAISE(ABORT, 'a timer is already running')
    WHERE EXISTS (SELECT 1 FROM time_entries WHERE end_ts IS NULL AND id <> NEW.id);
END;
";

// A tiny key/value store for app-level state that isn't domain data: the
// timer heartbeat and user preferences.
pub const V2: &'static str = "
CREATE TABLE meta (
    key   TEXT PRIMARY KEY,
    value TEXT NOT NULL
);
";

// The "Recent actions" revert log. `id` orders entries (newest = highest)
// and is what "reset from here" ranges over; `payload` is kind-specific JSON
// with whatever before-state a revert needs.
pub const V3: &'static str = "
CREATE TABLE actions (
    id          INTEGER PRIMARY KEY,
    kind        TEXT NOT NULL,
    summary     TEXT NOT NULL,
    payload     TEXT NOT NULL,
    created_at  TEXT NOT NULL
);
";

// A task created through the quick-creation import can carry a one-off
// starting duration. It is display only, so a plain nullable column is all it
// needs.
pub const V4: &'static str = "
ALTER TABLE tasks ADD COLUMN initial_time_seconds INTEGER;
";

} // verus!
