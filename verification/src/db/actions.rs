//! The "Recent actions" revert log.
//!
//! Every user-triggered task mutation writes one row here right after it
//! succeeds, with enough before-state (as JSON) to reverse it. `id` is a
//! plain SQLite rowid, so it orders entries newest-last and "reset from
//! here" is every row with `id >= this one`, newest first.
//!
//! Reverting never itself writes a new row: it applies the inverse, then
//! deletes the row(s) it just undid, both inside one transaction, so a
//! mid-revert failure leaves neither the data nor the log half-changed.
//!
//! Time entries and the timer are deliberately not logged here: they carry
//! their own invariant (at most one open entry across the whole app).
use vstd::prelude::*;
use crate::db::{create_project, create_task, delete_project, delete_task, get_project, get_task, opt_str, rename_task, set_initial_time, set_task_deadline, set_task_notes, set_task_status};
use crate::domain::{opt_view, QuickCreateTask, Task, TaskStatus};
use crate::journal::{
    create_record, deadline_record, delete_record, import_record, notes_record, parent_slots, parent_slot,
    project_record, rename_record, reparent_record, revert_plan, snapshot_project_of,
    status_record, task_id_of, task_id_spec, ActionRecord, EntrySnapshot, RevertStep, TaskSnapshot,
    plan_spec, step_views, StepView, TaskSnap, EntrySnap, quote, create_payload, rename_payload,
    notes_payload, deadline_payload, status_payload, project_payload, reparent_payload, pairs_view,
    import_payload,
};
use crate::sql::{
    begin, col_int, col_opt_int, col_opt_text, col_text, commit, execute, opt_int_arg,
    opt_text_arg, query, query_one, query_opt, text_arg, tx_conn, DbError, Row, SqlArg,
};
use crate::text::{dec, push_str, string_of, trim, trim_str};
use crate::db::{opt_int_is, opt_text_is, task_row_ok};
use crate::db::entries::entry_row_ok;
use crate::sql::{int_at, opt_text_ok, text_at, run, fetch, stmt, stmt_of, stmts_view, opt_text_view, opt_int_view, copy_arg, ArgView, Stmt, StmtView};
use crate::db::{
    delete_task_stmt, rename_task_stmt, set_notes_stmt, set_deadline_stmts, set_status_stmt,
    delete_project_stmt, opt_str_view, create_task_sent, create_project_sent, inserts_task,
    insert_project_stmt, set_initial_time_stmt,
};

verus! {

/// The label of an action whose task has no project.
pub const NO_PROJECT_LABEL: &'static str = "Tasks w/o project";

/// One row of the log, as shown to the user.
pub struct ActionRow {
    pub id: i64,
    pub summary: String,
    pub created_at: String,
    /// The task's current project name, or "Tasks w/o project" when it has
    /// none - or, for a delete, no longer exists to ask.
    pub project_label: String,
}

/// The project label for one action row: the task's current project if the
/// task still exists, else (for a delete) the project it was in when
/// deleted, else [`NO_PROJECT_LABEL`]. A lookup that fails counts as not
/// found.
pub fn project_label_of(conn: &rusqlite::Connection, kind: &str, payload: &str) -> (r: String)
    ensures
        task_id_spec(kind@, payload@) is None && kind@ != "delete_task"@ ==> r@ == NO_PROJECT_LABEL@,
{
    let task = match task_id_of(kind, payload) {
        Some(id) => match get_task(conn, id.as_str()) {
            Ok(Some(t)) => Some(t),
            _ => None,
        },
        None => None,
    };
    let project_id = match task {
        Some(t) => t.project_id,
        None => if crate::db::same_text(kind, "delete_task") {
            snapshot_project_of(payload)
        } else {
            None
        },
    };
    let project = match project_id {
        Some(id) => match get_project(conn, id.as_str()) {
            Ok(Some(p)) => Some(p),
            _ => None,
        },
        None => None,
    };
    match project {
        Some(p) => p.name,
        None => NO_PROJECT_LABEL.to_owned(),
    }
}

/// Every logged action, newest first.
pub fn list_actions(conn: &rusqlite::Connection) -> (r: Result<Vec<ActionRow>, DbError>) {
    let rows = query(conn, "SELECT id, kind, summary, payload, created_at FROM actions ORDER BY id DESC", vec![])?;
    let mut out: Vec<ActionRow> = Vec::new();
    let mut k: usize = 0;
    while k < rows.len()
        invariant
            k <= rows.len(),
        decreases rows.len() - k,
    {
        let row = &rows[k];
        let id = col_int(row, 0)?;
        let kind = col_text(row, 1)?;
        let summary = col_text(row, 2)?;
        let payload = col_text(row, 3)?;
        let created_at = col_text(row, 4)?;
        let project_label = project_label_of(conn, kind.as_str(), payload.as_str());
        out.push(ActionRow { id, summary, created_at, project_label });
        k += 1;
    }
    Ok(out)
}

pub const INSERT_ACTION_SQL: &'static str = "INSERT INTO actions (kind, summary, payload, created_at)
         VALUES (?1, ?2, ?3, strftime('%Y-%m-%dT%H:%M:%S', 'now', 'localtime'))";

/// Append an action of `kind` to the log, with its summary and payload.
pub open spec fn insert_action_stmt(kind: Seq<char>, summary: Seq<char>, payload: Seq<char>) -> StmtView {
    stmt_of(INSERT_ACTION_SQL@, seq![ArgView::Text(kind), ArgView::Text(summary), ArgView::Text(payload)])
}

/// Append `rec` to the log.
pub open spec fn log_stmt(rec: ActionRecord) -> StmtView {
    insert_action_stmt(rec.kind@, rec.summary@, rec.payload@)
}

/// Append one action to the log.
pub fn insert_action(conn: &rusqlite::Connection, kind: &str, summary: &str, payload: &str) -> (r: Result<Vec<Stmt>, DbError>)
    ensures
        r matches Ok(sent) ==> stmts_view(sent@) == seq![insert_action_stmt(kind@, summary@, payload@)],
{
    let s = stmt(INSERT_ACTION_SQL, vec![text_arg(kind), text_arg(summary), text_arg(payload)]);
    proof {
        assert(s@.args =~= insert_action_stmt(kind@, summary@, payload@).args);
        assert(s@ == insert_action_stmt(kind@, summary@, payload@));
    }
    run(conn, &s)?;
    let sent = vec![s];
    proof {
        assert(stmts_view(sent@) =~= seq![insert_action_stmt(kind@, summary@, payload@)]);
    }
    Ok(sent)
}

fn insert_record(conn: &rusqlite::Connection, rec: ActionRecord) -> (r: Result<Vec<Stmt>, DbError>)
    ensures
        r matches Ok(sent) ==> stmts_view(sent@) == seq![log_stmt(rec)],
{
    insert_action(conn, rec.kind.as_str(), rec.summary.as_str(), rec.payload.as_str())
}

/// Write one built record to the log.
pub fn log_record(conn: &rusqlite::Connection, rec: ActionRecord) -> (r: Result<Vec<Stmt>, DbError>)
    ensures
        r matches Ok(sent) ==> stmts_view(sent@) == seq![log_stmt(rec)],
{
    insert_record(conn, rec)
}

// --- Per-task before-state, captured by the caller before it mutates ------------------

/// A task's project id together with every descendant's, as
/// `(task id, project id)` pairs ordered by task id - what
/// [`crate::db::set_task_project`] and [`crate::db::reparent_task`] (which
/// also moves the subtree's project) are about to overwrite.
pub fn capture_project_ids(conn: &rusqlite::Connection, task_id: &str) -> (r: Result<Vec<(String, Option<String>)>, DbError>) {
    let rows = query(
        conn,
        "WITH RECURSIVE subtree(id) AS (
             SELECT ?1
           UNION ALL
             SELECT t.id FROM tasks t JOIN subtree s ON t.parent_task_id = s.id
         )
         SELECT id, (SELECT project_id FROM tasks WHERE tasks.id = subtree.id) FROM subtree
         ORDER BY id",
        vec![text_arg(task_id)],
    )?;
    let mut out: Vec<(String, Option<String>)> = Vec::new();
    let mut k: usize = 0;
    while k < rows.len()
        invariant
            k <= rows.len(),
        decreases rows.len() - k,
    {
        let id = col_text(&rows[k], 0)?;
        let project = col_opt_text(&rows[k], 1)?;
        out.push((id, project));
        k += 1;
    }
    Ok(out)
}

// --- Logging, one function per kind of mutation ----------------------------------------

/// Log the creation of `task`.
pub fn log_create_task(conn: &rusqlite::Connection, task: &Task) -> (r: Result<Vec<Stmt>, DbError>)
    ensures
        r matches Ok(sent) ==> stmts_view(sent@) == seq![
            insert_action_stmt("create_task"@, "Created task "@ + quote(task.title@), create_payload(task.id@)),
        ],
{
    insert_record(conn, create_record(task.id.as_str(), task.title.as_str()))
}

/// Log a rename.
pub fn log_rename_task(conn: &rusqlite::Connection, task_id: &str, old_title: &str, new_title: &str) -> (r: Result<Vec<Stmt>, DbError>)
    ensures
        r matches Ok(sent) ==> stmts_view(sent@) == seq![
            insert_action_stmt(
                "rename_task"@,
                "Renamed "@ + quote(old_title@) + " to "@ + quote(new_title@),
                rename_payload(task_id@, old_title@),
            ),
        ],
{
    insert_record(conn, rename_record(task_id, old_title, new_title))
}

/// Log a notes edit.
pub fn log_set_notes(conn: &rusqlite::Connection, task_id: &str, title: &str, old_notes: &str) -> (r: Result<Vec<Stmt>, DbError>)
    ensures
        r matches Ok(sent) ==> stmts_view(sent@) == seq![
            insert_action_stmt("set_notes"@, "Edited notes on "@ + quote(title@), notes_payload(task_id@, old_notes@)),
        ],
{
    insert_record(conn, notes_record(task_id, title, old_notes))
}

/// Log a deadline change.
pub fn log_set_deadline(
    conn: &rusqlite::Connection,
    task_id: &str,
    title: &str,
    old_deadline: Option<&str>,
    new_deadline: Option<&str>,
) -> (r: Result<Vec<Stmt>, DbError>)
    ensures
        r matches Ok(sent) ==> stmts_view(sent@) == seq![
            insert_action_stmt(
                "set_deadline"@,
                match new_deadline {
                    Some(d) => "Set deadline on "@ + quote(title@) + " to "@ + d@,
                    None => "Cleared deadline on "@ + quote(title@),
                },
                deadline_payload(task_id@, opt_str_view(old_deadline)),
            ),
        ],
{
    insert_record(conn, deadline_record(task_id, title, old_deadline, new_deadline))
}

/// Log a status change.
pub fn log_set_status(conn: &rusqlite::Connection, task_id: &str, title: &str, old_status: TaskStatus, done: bool) -> (r: Result<Vec<Stmt>, DbError>)
    ensures
        r matches Ok(sent) ==> stmts_view(sent@) == seq![
            insert_action_stmt(
                "set_status"@,
                "Marked "@ + quote(title@) + (if done { " done"@ } else { " not done"@ }),
                status_payload(task_id@, old_status),
            ),
        ],
{
    insert_record(conn, status_record(task_id, title, old_status, done))
}

/// Log a move to another project.
pub fn log_set_project(
    conn: &rusqlite::Connection,
    task_id: &str,
    title: &str,
    old_project_ids: &Vec<(String, Option<String>)>,
    new_project_name: &str,
) -> (r: Result<Vec<Stmt>, DbError>)
    ensures
        r matches Ok(sent) ==> stmts_view(sent@) == seq![
            insert_action_stmt(
                "set_project"@,
                if new_project_name@.len() == 0 {
                    "Moved "@ + quote(title@) + " to Unfiled"@
                } else {
                    "Moved "@ + quote(title@) + " to project "@ + quote(new_project_name@)
                },
                project_payload(task_id@, pairs_view(old_project_ids@)),
            ),
        ],
{
    insert_record(conn, project_record(task_id, title, old_project_ids, new_project_name))
}

/// Log a re-parent.
pub fn log_reparent(
    conn: &rusqlite::Connection,
    task_id: &str,
    title: &str,
    old_parent_id: Option<&str>,
    old_sort_order: i64,
    old_project_ids: &Vec<(String, Option<String>)>,
    new_parent_title: &str,
) -> (r: Result<Vec<Stmt>, DbError>)
    ensures
        r matches Ok(sent) ==> stmts_view(sent@) == seq![
            insert_action_stmt(
                "reparent"@,
                "Moved "@ + quote(title@) + " under "@ + quote(new_parent_title@),
                reparent_payload(task_id@, opt_str_view(old_parent_id), old_sort_order, pairs_view(old_project_ids@)),
            ),
        ],
{
    insert_record(
        conn,
        reparent_record(task_id, title, old_parent_id, old_sort_order, old_project_ids, new_parent_title),
    )
}

/// A task snapshot from `id .. initial_time_seconds, completed_at`.
fn row_to_task_snapshot(row: &Row) -> (r: Result<TaskSnapshot, DbError>)
    ensures
        match r {
            Ok(t) => {
                &&& text_at(row@, 0) == Some(t.id@)
                &&& opt_text_is(row@, 1, t.parent_task_id)
                &&& opt_text_is(row@, 2, t.project_id)
                &&& text_at(row@, 3) == Some(t.title@)
                &&& text_at(row@, 4) == Some(t.notes@)
                &&& opt_text_is(row@, 5, t.deadline)
                &&& int_at(row@, 6) is Some && t.track == (int_at(row@, 6)->0 != 0)
                &&& text_at(row@, 7) == Some(t.status@)
                &&& int_at(row@, 8) == Some(t.sort_order)
                &&& text_at(row@, 9) == Some(t.created_at@)
                &&& opt_int_is(row@, 10, t.initial_time_seconds)
                &&& opt_text_is(row@, 11, t.completed_at)
            },
            Err(_) => !(task_row_ok(row@, 0) && opt_text_ok(row@, 11)),
        },
{
    let id = col_text(row, 0)?;
    let parent_task_id = col_opt_text(row, 1)?;
    let project_id = col_opt_text(row, 2)?;
    let title = col_text(row, 3)?;
    let notes = col_text(row, 4)?;
    let deadline = col_opt_text(row, 5)?;
    let track_flag = col_int(row, 6)?;
    let status = col_text(row, 7)?;
    let sort_order = col_int(row, 8)?;
    let created_at = col_text(row, 9)?;
    let initial_time_seconds = col_opt_int(row, 10)?;
    let completed_at = col_opt_text(row, 11)?;
    Ok(
        TaskSnapshot {
            id,
            parent_task_id,
            project_id,
            title,
            notes,
            deadline,
            track: track_flag != 0,
            status,
            sort_order,
            created_at,
            initial_time_seconds,
            completed_at,
        },
    )
}

/// An entry snapshot from the entry columns.
fn row_to_entry_snapshot(row: &Row) -> (r: Result<EntrySnapshot, DbError>)
    ensures
        match r {
            Ok(e) => {
                &&& text_at(row@, 0) == Some(e.id@)
                &&& text_at(row@, 1) == Some(e.task_id@)
                &&& text_at(row@, 2) == Some(e.start_ts@)
                &&& opt_text_is(row@, 3, e.end_ts)
                &&& text_at(row@, 4) == Some(e.source@)
                &&& text_at(row@, 5) == Some(e.note@)
                &&& text_at(row@, 6) == Some(e.created_at@)
            },
            Err(_) => !entry_row_ok(row@),
        },
{
    let id = col_text(row, 0)?;
    let task_id = col_text(row, 1)?;
    let start_ts = col_text(row, 2)?;
    let end_ts = col_opt_text(row, 3)?;
    let source = col_text(row, 4)?;
    let note = col_text(row, 5)?;
    let created_at = col_text(row, 6)?;
    Ok(EntrySnapshot { id, task_id, start_ts, end_ts, source, note, created_at })
}

/// The head of the query for the entries of a set of tasks.
pub const ENTRIES_OF_TASKS_HEAD: &'static str = "SELECT id, task_id, start_ts, end_ts, source, note, created_at FROM time_entries WHERE task_id IN (";

/// `?,?,..,?` with `n` placeholders (one when `n` is 0 or 1).
pub open spec fn placeholders(n: nat) -> Seq<char>
    decreases n,
{
    if n <= 1 {
        seq!['?']
    } else {
        placeholders((n - 1) as nat) + seq![',', '?']
    }
}

/// `SELECT <entry columns> FROM time_entries WHERE task_id IN (?,..,?)` with
/// `n >= 1` placeholders.
fn entries_of_tasks_sql(n: usize) -> (s: String)
    requires
        n >= 1,
    ensures
        s@ == ENTRIES_OF_TASKS_HEAD@ + placeholders(n as nat) + seq![')'],
{
    let mut out: Vec<char> = Vec::new();
    push_str(&mut out, ENTRIES_OF_TASKS_HEAD);
    let ghost head = out@;
    let mut i: usize = 0;
    while i < n
        invariant
            i <= n,
            head == ENTRIES_OF_TASKS_HEAD@,
            out@ == head + (if i == 0 { Seq::<char>::empty() } else { placeholders(i as nat) }),
        decreases n - i,
    {
        if i > 0 {
            out.push(',');
        }
        out.push('?');
        i += 1;
        proof {
            if i == 1 {
                assert(out@ =~= head + placeholders(1));
            } else {
                assert(out@ =~= head + placeholders(i as nat));
            }
        }
    }
    out.push(')');
    proof {
        assert(out@ =~= ENTRIES_OF_TASKS_HEAD@ + placeholders(n as nat) + seq![')']);
    }
    string_of(out.as_slice())
}

/// Snapshot `task_id` and its whole subtree (pre-order, so a parent always
/// precedes its children) plus every time entry against any of them - the
/// state [`crate::db::delete_task`] is about to cascade away.
fn subtree_snapshot(conn: &rusqlite::Connection, task_id: &str) -> (r: Result<(Vec<TaskSnapshot>, Vec<EntrySnapshot>), DbError>) {
    let rows = query(
        conn,
        "WITH RECURSIVE subtree(task_id, sort_path) AS (
             SELECT ?1, printf('%020.6f', (SELECT sort_order FROM tasks WHERE id = ?1))
           UNION ALL
             SELECT t.id, s.sort_path || '/' || printf('%020.6f', t.sort_order)
             FROM tasks t JOIN subtree s ON t.parent_task_id = s.task_id
         )
         SELECT id, parent_task_id, project_id, title, notes, deadline, tracked, status,
                CAST(sort_order AS INTEGER), created_at, initial_time_seconds, completed_at
         FROM tasks JOIN subtree ON tasks.id = subtree.task_id
         ORDER BY subtree.sort_path",
        vec![text_arg(task_id)],
    )?;
    let mut tasks: Vec<TaskSnapshot> = Vec::new();
    let mut k: usize = 0;
    while k < rows.len()
        invariant
            k <= rows.len(),
            tasks.len() == k,
        decreases rows.len() - k,
    {
        tasks.push(row_to_task_snapshot(&rows[k])?);
        k += 1;
    }
    let mut entries: Vec<EntrySnapshot> = Vec::new();
    if tasks.len() > 0 {
        let sql = entries_of_tasks_sql(tasks.len());
        let mut args: Vec<SqlArg> = Vec::new();
        let mut i: usize = 0;
        while i < tasks.len()
            invariant
                i <= tasks.len(),
            decreases tasks.len() - i,
        {
            args.push(text_arg(tasks[i].id.as_str()));
            i += 1;
        }
        let erows = query(conn, sql.as_str(), args)?;
        let mut j: usize = 0;
        while j < erows.len()
            invariant
                j <= erows.len(),
            decreases erows.len() - j,
        {
            entries.push(row_to_entry_snapshot(&erows[j])?);
            j += 1;
        }
    }
    Ok((tasks, entries))
}

/// Snapshot `task_id`'s subtree and log the delete about to happen to it.
/// Call this before [`crate::db::delete_task`] - the cascade destroys
/// exactly what this captures. A no-op (nothing logged) if `task_id` doesn't
/// exist.
pub fn capture_and_log_delete(conn: &rusqlite::Connection, task_id: &str) -> (r: Result<Vec<Stmt>, DbError>)
    ensures
        r matches Ok(sent) ==> sent@.len() <= 1 && forall|k: int| 0 <= k < sent@.len() ==> {
            &&& (#[trigger] sent@[k])@.sql == INSERT_ACTION_SQL@
            &&& sent@[k]@.args.len() == 3
            &&& sent@[k]@.args[0] == ArgView::Text("delete_task"@)
        },
{
    let (tasks, entries) = subtree_snapshot(conn, task_id)?;
    match delete_record(&tasks, &entries) {
        Some(rec) => {
            let ghost rv = rec;
            let sent = insert_record(conn, rec)?;
            proof {
                assert(stmts_view(sent@).len() == sent@.len());
                assert(stmts_view(sent@)[0] == sent@[0]@);
                assert(log_stmt(rv).args[0] == ArgView::Text(rv.kind@));
                assert(log_stmt(rv).args.len() == 3);
            }
            Ok(sent)
        },
        None => Ok(Vec::new()),
    }
}

/// One task that [`import_quick_creation`] created, with what it was
/// created from.
pub struct ImportedTask {
    /// The id the new task was given.
    pub id: String,
    /// The trimmed title it was created with.
    pub title: String,
    /// The task it was created under (`None`: a root task).
    pub parent_id: Option<String>,
    /// The project it was filed in directly (root tasks only; a subtask
    /// takes its parent's).
    pub project_id: Option<String>,
    /// The statements that created it: its insert, then its deadline,
    /// starting duration and notes where it has them.
    pub sent: Vec<Stmt>,
}

/// What [`import_quick_creation`] created.
pub struct ImportOutcome {
    pub project_id: String,
    pub task_count: usize,
    /// The created tasks, in input order.
    pub tasks: Vec<ImportedTask>,
    /// The statement that created the project.
    pub created: Vec<Stmt>,
    /// The statement that logged the import.
    pub logged: Vec<Stmt>,
}

/// What is written for an imported task `t` after its insert, as task
/// `id`: its deadline, its starting duration, and its notes when it has
/// any.
pub open spec fn task_extras(id: Seq<char>, t: QuickCreateTask) -> Seq<StmtView> {
    (match t.deadline {
        Some(d) => set_deadline_stmts(id, Some(d@)),
        None => seq![],
    }) + (match t.initial_time_seconds {
        Some(secs) => seq![set_initial_time_stmt(id, Some(secs))],
        None => seq![],
    }) + (if t.description@.len() > 0 {
        seq![set_notes_stmt(id, t.description@)]
    } else {
        seq![]
    })
}

/// The ids of the imported tasks, in order.
pub open spec fn imported_ids(made: Seq<ImportedTask>) -> Seq<Seq<char>> {
    Seq::new(made.len(), |k: int| made[k].id@)
}

/// The depths of a parsed import, in order.
pub open spec fn depths_spec(tasks: Seq<QuickCreateTask>) -> Seq<usize> {
    Seq::new(tasks.len(), |k: int| tasks[k].depth)
}

/// The depths of a parsed import, in order.
fn depths_of(tasks: &[QuickCreateTask]) -> (r: Vec<usize>)
    ensures
        r@ == depths_spec(tasks@),
{
    let mut out: Vec<usize> = Vec::new();
    let mut k: usize = 0;
    while k < tasks.len()
        invariant
            k <= tasks.len(),
            out.len() == k,
            forall|m: int| 0 <= m < k ==> #[trigger] out@[m] == tasks@[m].depth,
        decreases tasks.len() - k,
    {
        out.push(tasks[k].depth);
        k += 1;
    }
    assert(out@ == depths_spec(tasks@));
    out
}

/// Task `k` of an import, as created: its title trimmed, under the task
/// created at its parent slot (none without a slot), and filed directly in
/// the new project `project_id` when it is a root line (depth 0).
pub open spec fn imported_as(tasks: Seq<QuickCreateTask>, project_id: String, made: Seq<ImportedTask>, k: int) -> bool {
    &&& made[k].sent@.len() >= 1
    &&& inserts_task(made[k].sent@[0]@, made[k].id@, tasks[k].title@, opt_view(made[k].parent_id), opt_view(made[k].project_id))
    &&& stmts_view(made[k].sent@).skip(1) == task_extras(made[k].id@, tasks[k])
    &&& made[k].title@ == trim(tasks[k].title@)
    &&& made[k].parent_id == match parent_slot(depths_spec(tasks), k as nat) {
        Some(j) => Some(made[j as int].id),
        None => None::<String>,
    }
    &&& made[k].project_id == if tasks[k].depth == 0 { Some(project_id) } else { None::<String> }
}

/// The id of the task created at `slot`, if any.
fn slot_parent(slot: Option<usize>, made: &Vec<ImportedTask>) -> (r: Option<String>)
    requires
        slot matches Some(j) ==> j < made.len(),
    ensures
        r == match slot {
            Some(j) => Some(made@[j as int].id),
            None => None::<String>,
        },
{
    match slot {
        Some(j) => Some(made[j].id.clone()),
        None => None,
    }
}

/// Run a whole quick-creation import atomically: create the project, then
/// each task in `tasks`' order (already depth-validated by
/// [`crate::domain::parse_quick_creation`]) - a task's parent is the most
/// recently created task at `depth - 1` (see [`parent_slots`]) - then log
/// the whole batch as one undoable action. All-or-nothing: a failure partway
/// rolls back the whole import.
pub fn import_quick_creation(conn: &rusqlite::Connection, project_name: &str, tasks: &[QuickCreateTask]) -> (r: Result<ImportOutcome, DbError>)
    ensures
        r matches Ok(o) ==> {
            &&& o.task_count == tasks.len()
            &&& o.tasks.len() == tasks.len()
            &&& forall|k: int| 0 <= k < tasks.len() ==> #[trigger] imported_as(tasks@, o.project_id, o.tasks@, k)
            &&& stmts_view(o.created@) == seq![insert_project_stmt(o.project_id@, project_name@)]
            &&& stmts_view(o.logged@) == seq![
                insert_action_stmt(
                    "import_project"@,
                    "Created project "@ + quote(project_name@) + " with "@ + dec(tasks.len() as nat) + " task"@
                        + (if tasks.len() == 1 { ""@ } else { "s"@ }),
                    import_payload(o.project_id@, imported_ids(o.tasks@)),
                ),
            ]
        },
{
    let tx = match begin(conn) {
        Ok(t) => t,
        Err(e) => return Err(DbError::Sql(e)),
    };
    let c = tx_conn(&tx);
    let (_project, pid, created) = create_project_sent(c, project_name)?;
    let depths = depths_of(tasks);
    let slots = parent_slots(&depths);
    let mut made: Vec<ImportedTask> = Vec::new();
    let mut created_ids: Vec<String> = Vec::new();
    let mut k: usize = 0;
    while k < tasks.len()
        invariant
            k <= tasks.len(),
            made.len() == k,
            created_ids.len() == k,
            forall|m: int| 0 <= m < k ==> (#[trigger] created_ids@[m])@ == made@[m].id@,
            depths@ == depths_spec(tasks@),
            slots.len() == tasks.len(),
            forall|m: int| 0 <= m < tasks.len() ==> match #[trigger] slots@[m] {
                Some(j) => parent_slot(depths@, m as nat) == Some(j as nat) && j < m,
                None => parent_slot(depths@, m as nat) is None,
            },
            forall|m: int| 0 <= m < k ==> #[trigger] imported_as(tasks@, pid, made@, m),
        decreases tasks.len() - k,
    {
        let t = &tasks[k];
        let title = trim_str(t.title.as_str());
        let parent_id = slot_parent(slots[k], &made);
        let root_project: Option<String> = if t.depth == 0 { Some(pid.clone()) } else { None };
        let (_task, id, mut sent) = create_task_sent(c, t.title.as_str(), opt_str(&parent_id), opt_str(&root_project))?;
        let ghost first = sent@[0]@;
        let ghost e0 = stmts_view(sent@).skip(1);
        proof {
            assert(e0 =~= Seq::<StmtView>::empty());
        }
        match &t.deadline {
            Some(d) => {
                let mut more = set_task_deadline(c, id.as_str(), Some(d.as_str()))?;
                let ghost bs = sent@;
                let ghost mv = more@;
                sent.append(&mut more);
                proof {
                    lemma_stmts_view_append(bs, mv);
                }
            },
            None => {},
        }
        let ghost e1 = stmts_view(sent@).skip(1);
        match t.initial_time_seconds {
            Some(secs) => {
                let mut more = set_initial_time(c, id.as_str(), Some(secs))?;
                let ghost bs = sent@;
                let ghost mv = more@;
                sent.append(&mut more);
                proof {
                    lemma_stmts_view_append(bs, mv);
                }
            },
            None => {},
        }
        let ghost e2 = stmts_view(sent@).skip(1);
        if t.description.unicode_len() > 0 {
            let mut more = set_task_notes(c, id.as_str(), t.description.as_str())?;
            let ghost bs = sent@;
            let ghost mv = more@;
            sent.append(&mut more);
            proof {
                lemma_stmts_view_append(bs, mv);
            }
        }
        proof {
            assert(sent@[0]@ == first);
            assert(stmts_view(sent@).skip(1) =~= task_extras(id@, *t));
        }
        let ghost before = made@;
        created_ids.push(id.clone());
        made.push(ImportedTask { id, title, parent_id, project_id: root_project, sent });
        proof {
            assert forall|m: int| 0 <= m < k + 1 implies #[trigger] imported_as(tasks@, pid, made@, m) by {
                if m < k {
                    assert(imported_as(tasks@, pid, before, m));
                    assert(made@[m] == before[m]);
                    if let Some(j) = parent_slot(depths_spec(tasks@), m as nat) {
                        assert(made@[j as int] == before[j as int]);
                    }
                } else {
                    assert(made@[m].parent_id == match slots@[m] {
                        Some(j) => Some(made@[j as int].id),
                        None => None::<String>,
                    });
                }
            }
        }
        k += 1;
    }
    let logged = insert_record(c, import_record(project_name, pid.as_str(), &created_ids))?;
    proof {
        assert(created_ids@.map_values(|t: String| t@) =~= imported_ids(made@));
    }
    let outcome = ImportOutcome { project_id: pid, task_count: made.len(), tasks: made, created, logged };
    match commit(tx) {
        Ok(()) => Ok(outcome),
        Err(e) => Err(DbError::Sql(e)),
    }
}

// --- Revert ---------------------------------------------------------------------------

fn task_exists(conn: &rusqlite::Connection, id: &str) -> (r: Result<bool, DbError>) {
    let row = query_one(conn, "SELECT EXISTS(SELECT 1 FROM tasks WHERE id = ?1)", vec![text_arg(id)])?;
    let n = col_int(&row, 0)?;
    Ok(n != 0)
}

fn project_exists(conn: &rusqlite::Connection, id: &str) -> (r: Result<bool, DbError>) {
    let row = query_one(conn, "SELECT EXISTS(SELECT 1 FROM projects WHERE id = ?1)", vec![text_arg(id)])?;
    let n = col_int(&row, 0)?;
    Ok(n != 0)
}

/// Whether the task that `id` names is still there (`false` for no id).
fn task_present(conn: &rusqlite::Connection, id: &Option<String>) -> (r: Result<bool, DbError>)
    ensures
        id is None ==> r == Ok::<bool, DbError>(false),
{
    match id {
        Some(x) => task_exists(conn, x.as_str()),
        None => Ok(false),
    }
}

/// Whether the project that `id` names is still there (`false` for no id).
fn project_present(conn: &rusqlite::Connection, id: &Option<String>) -> (r: Result<bool, DbError>)
    ensures
        id is None ==> r == Ok::<bool, DbError>(false),
{
    match id {
        Some(x) => project_exists(conn, x.as_str()),
        None => Ok(false),
    }
}

/// A reference to a row, kept when that row still `exists`, else dropped.
pub open spec fn kept_spec(exists: bool, id: Option<Seq<char>>) -> Option<Seq<char>> {
    if exists {
        id
    } else {
        None
    }
}

/// The reference `id` as a revert writes it back: itself when the row it
/// names still `exists`, else nothing.
pub fn kept(exists: bool, id: &Option<String>) -> (r: Option<String>)
    ensures
        r == (if exists { *id } else { None::<String> }),
        opt_view(r) == kept_spec(exists, opt_view(*id)),
{
    if exists {
        match id {
            Some(x) => Some(x.clone()),
            None => None,
        }
    } else {
        None
    }
}

/// A revert step as carried out, once it is known whether the rows it
/// points at still exist: a re-parenting whose old parent is gone puts the
/// task at the root; a restored task leaves out a parent or a project that
/// is gone. Every other step is carried out as planned.
pub open spec fn resolved_spec(s: StepView, parent_exists: bool, project_exists: bool) -> StepView {
    match s {
        StepView::Reparent { id, parent, sort_order } => StepView::Reparent {
            id,
            parent: kept_spec(parent_exists, parent),
            sort_order,
        },
        StepView::RestoreTask(t) => StepView::RestoreTask(
            TaskSnap {
                parent_task_id: kept_spec(parent_exists, t.parent_task_id),
                project_id: kept_spec(project_exists, t.project_id),
                ..t
            },
        ),
        _ => s,
    }
}

/// `done` is `s` carried out against some state of the rows it points at.
pub open spec fn carried_as(s: StepView, done: StepView) -> bool {
    exists|pe: bool, je: bool| done == #[trigger] resolved_spec(s, pe, je)
}

/// `done` carries out `plan` step by step, in order.
pub open spec fn carried_out(plan: Seq<StepView>, done: Seq<StepView>) -> bool {
    &&& plan.len() == done.len()
    &&& forall|i: int| 0 <= i < plan.len() ==> carried_as(plan[i], #[trigger] done[i])
}

/// The step `step` as carried out when its old parent does (or does not)
/// still exist and its old project does (or does not) still exist.
pub fn resolve_step(step: RevertStep, parent_exists: bool, project_exists: bool) -> (r: RevertStep)
    ensures
        r@ == resolved_spec(step@, parent_exists, project_exists),
{
    match step {
        RevertStep::Reparent { id, parent, sort_order } => {
            let parent = kept(parent_exists, &parent);
            RevertStep::Reparent { id, parent, sort_order }
        },
        RevertStep::RestoreTask(t) => {
            let parent = kept(parent_exists, &t.parent_task_id);
            let project = kept(project_exists, &t.project_id);
            RevertStep::RestoreTask(TaskSnapshot { parent_task_id: parent, project_id: project, ..t })
        },
        other => other,
    }
}

pub const UNDO_PROJECT_SQL: &'static str = "UPDATE tasks SET project_id = ?2 WHERE id = ?1";
pub const UNDO_REPARENT_SQL: &'static str = "UPDATE tasks SET parent_task_id = ?2, sort_order = ?3 WHERE id = ?1";
pub const RESTORE_TASK_SQL: &'static str = "INSERT INTO tasks (id, parent_task_id, project_id, title, notes, deadline,
                                    tracked, status, completed_at, sort_order, created_at,
                                    initial_time_seconds)
                 VALUES (?1, ?2, ?3, ?4, ?5, ?6, ?7, ?8, ?9, ?10, ?11, ?12)";
pub const RESTORE_ENTRY_SQL: &'static str = "INSERT INTO time_entries (id, task_id, start_ts, end_ts, source, note, created_at)
                 VALUES (?1, ?2, ?3, ?4, ?5, ?6, ?7)";
pub const READ_ACTION_SQL: &'static str = "SELECT kind, payload FROM actions WHERE id = ?1";
pub const DELETE_ACTION_SQL: &'static str = "DELETE FROM actions WHERE id = ?1";
pub const ACTIONS_FROM_SQL: &'static str = "SELECT id FROM actions WHERE id >= ?1 ORDER BY id DESC";
pub const DELETE_ACTIONS_FROM_SQL: &'static str = "DELETE FROM actions WHERE id >= ?1";

/// The parameters that re-insert a snapshotted task, column by column.
pub open spec fn restore_task_args(t: TaskSnap) -> Seq<ArgView> {
    seq![
        ArgView::Text(t.id),
        opt_text_view(t.parent_task_id),
        opt_text_view(t.project_id),
        ArgView::Text(t.title),
        ArgView::Text(t.notes),
        opt_text_view(t.deadline),
        ArgView::Int(if t.track { 1 } else { 0 }),
        ArgView::Text(t.status),
        opt_text_view(t.completed_at),
        ArgView::Int(t.sort_order),
        ArgView::Text(t.created_at),
        opt_int_view(t.initial_time_seconds),
    ]
}

/// The parameters that re-insert a snapshotted time entry.
pub open spec fn restore_entry_args(e: EntrySnap) -> Seq<ArgView> {
    seq![
        ArgView::Text(e.id),
        ArgView::Text(e.task_id),
        ArgView::Text(e.start_ts),
        opt_text_view(e.end_ts),
        ArgView::Text(e.source),
        ArgView::Text(e.note),
        ArgView::Text(e.created_at),
    ]
}

/// The statements that carry out one (resolved) revert step: deleting a
/// task or a project, putting back a title, notes, deadline, status or
/// project, putting a task back under its parent at its old position, or
/// re-inserting a task or a time entry as snapshotted.
pub open spec fn step_stmts(s: StepView) -> Seq<StmtView> {
    match s {
        StepView::DeleteTask(id) => seq![delete_task_stmt(id)],
        StepView::Rename { id, title } => seq![rename_task_stmt(id, title)],
        StepView::SetNotes { id, notes } => seq![set_notes_stmt(id, notes)],
        StepView::SetDeadline { id, deadline } => set_deadline_stmts(id, deadline),
        StepView::SetStatus { id, status } => seq![set_status_stmt(id, status)],
        StepView::SetProject { id, project } => seq![
            stmt_of(UNDO_PROJECT_SQL@, seq![ArgView::Text(id), opt_text_view(project)]),
        ],
        StepView::Reparent { id, parent, sort_order } => seq![
            stmt_of(UNDO_REPARENT_SQL@, seq![ArgView::Text(id), opt_text_view(parent), ArgView::Int(sort_order)]),
        ],
        StepView::RestoreTask(t) => seq![stmt_of(RESTORE_TASK_SQL@, restore_task_args(t))],
        StepView::RestoreEntry(e) => seq![stmt_of(RESTORE_ENTRY_SQL@, restore_entry_args(e))],
        StepView::DeleteProject(id) => seq![delete_project_stmt(id)],
    }
}

/// The statements of a list of steps, one step after another.
pub open spec fn plan_stmts(steps: Seq<StepView>) -> Seq<StmtView>
    decreases steps.len(),
{
    if steps.len() == 0 {
        seq![]
    } else {
        plan_stmts(steps.drop_last()) + step_stmts(steps.last())
    }
}

proof fn lemma_stmts_view_append(a: Seq<Stmt>, b: Seq<Stmt>)
    ensures
        stmts_view(a + b) == stmts_view(a) + stmts_view(b),
{
    assert(stmts_view(a + b) =~= stmts_view(a) + stmts_view(b));
}

/// Write one resolved step to the database, with its values as they stand.
fn perform_step(conn: &rusqlite::Connection, step: &RevertStep) -> (r: Result<Vec<Stmt>, DbError>)
    ensures
        r matches Ok(sent) ==> stmts_view(sent@) == step_stmts(step@),
{
    match step {
        RevertStep::DeleteTask(id) => delete_task(conn, id.as_str()),
        RevertStep::Rename { id, title } => rename_task(conn, id.as_str(), title.as_str()),
        RevertStep::SetNotes { id, notes } => set_task_notes(conn, id.as_str(), notes.as_str()),
        RevertStep::SetDeadline { id, deadline } => set_task_deadline(conn, id.as_str(), opt_str(deadline)),
        RevertStep::SetStatus { id, status } => set_task_status(conn, id.as_str(), *status),
        RevertStep::SetProject { id, project } => {
            let s = stmt(UNDO_PROJECT_SQL, vec![text_arg(id.as_str()), opt_text_arg(opt_str(project))]);
            proof {
                assert(s@.args =~= seq![ArgView::Text(id@), opt_text_view(opt_view(*project))]);
            }
            one_stmt(conn, s)
        },
        RevertStep::Reparent { id, parent, sort_order } => {
            let s = stmt(
                UNDO_REPARENT_SQL,
                vec![text_arg(id.as_str()), opt_text_arg(opt_str(parent)), SqlArg::Int(*sort_order)],
            );
            proof {
                assert(s@.args =~= seq![ArgView::Text(id@), opt_text_view(opt_view(*parent)), ArgView::Int(*sort_order)]);
            }
            one_stmt(conn, s)
        },
        RevertStep::RestoreTask(t) => {
            let s = stmt(
                RESTORE_TASK_SQL,
                vec![
                    text_arg(t.id.as_str()),
                    opt_text_arg(opt_str(&t.parent_task_id)),
                    opt_text_arg(opt_str(&t.project_id)),
                    text_arg(t.title.as_str()),
                    text_arg(t.notes.as_str()),
                    opt_text_arg(opt_str(&t.deadline)),
                    SqlArg::Int(if t.track { 1 } else { 0 }),
                    text_arg(t.status.as_str()),
                    opt_text_arg(opt_str(&t.completed_at)),
                    SqlArg::Int(t.sort_order),
                    text_arg(t.created_at.as_str()),
                    opt_int_arg(t.initial_time_seconds),
                ],
            );
            proof {
                assert(s@.args =~= restore_task_args(t@));
            }
            one_stmt(conn, s)
        },
        RevertStep::RestoreEntry(e) => {
            let s = stmt(
                RESTORE_ENTRY_SQL,
                vec![
                    text_arg(e.id.as_str()),
                    text_arg(e.task_id.as_str()),
                    text_arg(e.start_ts.as_str()),
                    opt_text_arg(opt_str(&e.end_ts)),
                    text_arg(e.source.as_str()),
                    text_arg(e.note.as_str()),
                    text_arg(e.created_at.as_str()),
                ],
            );
            proof {
                assert(s@.args =~= restore_entry_args(e@));
            }
            one_stmt(conn, s)
        },
        RevertStep::DeleteProject(id) => delete_project(conn, id.as_str()),
    }
}

/// Run `s`, handing it back as the one statement run.
fn one_stmt(conn: &rusqlite::Connection, s: Stmt) -> (r: Result<Vec<Stmt>, DbError>)
    ensures
        r matches Ok(sent) ==> stmts_view(sent@) == seq![s@],
{
    run(conn, &s)?;
    let ghost v = s@;
    let sent = vec![s];
    proof {
        assert(stmts_view(sent@) =~= seq![v]);
    }
    Ok(sent)
}

/// One revert step as carried out: the step as resolved, and the
/// statements that wrote it.
pub struct Applied {
    pub step: RevertStep,
    pub sent: Vec<Stmt>,
}

/// Carry out one step of a revert: look up whether the rows it points at
/// still exist, resolve it with [`resolve_step`], and write it. Gives back
/// the step as written and its statements.
pub fn apply_step(conn: &rusqlite::Connection, step: RevertStep) -> (r: Result<Applied, DbError>)
    ensures
        r matches Ok(a) ==> carried_as(step@, a.step@) && stmts_view(a.sent@) == step_stmts(a.step@),
{
    let (pe, je) = match &step {
        RevertStep::Reparent { parent, .. } => (task_present(conn, parent)?, false),
        RevertStep::RestoreTask(t) => (task_present(conn, &t.parent_task_id)?, project_present(conn, &t.project_id)?),
        _ => (false, false),
    };
    let done = resolve_step(step, pe, je);
    let sent = perform_step(conn, &done)?;
    Ok(Applied { step: done, sent })
}

/// A run of revert steps as carried out: the steps as resolved, and every
/// statement that wrote them, in order.
pub struct Undo {
    pub steps: Vec<RevertStep>,
    pub sent: Vec<Stmt>,
}

/// `u` carries out `plan`, in order, with exactly the statements of its
/// resolved steps.
pub open spec fn undo_of(plan: Seq<StepView>, u: Undo) -> bool {
    &&& carried_out(plan, step_views(u.steps@))
    &&& stmts_view(u.sent@) == plan_stmts(step_views(u.steps@))
}

/// Carry out `steps` one after another, in order; gives back the steps as
/// written and their statements.
pub fn apply_steps(conn: &rusqlite::Connection, steps: Vec<RevertStep>) -> (r: Result<Undo, DbError>)
    ensures
        r matches Ok(u) ==> undo_of(step_views(steps@), u),
{
    let ghost plan = steps@;
    let mut rest = steps;
    let mut done: Vec<RevertStep> = Vec::new();
    let mut sent: Vec<Stmt> = Vec::new();
    while rest.len() > 0
        invariant
            done.len() + rest.len() == plan.len(),
            rest@ == plan.subrange(done.len() as int, plan.len() as int),
            forall|i: int| 0 <= i < done.len() ==> carried_as(plan[i]@, #[trigger] done@[i]@),
            stmts_view(sent@) == plan_stmts(step_views(done@)),
        decreases rest.len(),
    {
        let step = rest.remove(0);
        let mut applied = apply_step(conn, step)?;
        let ghost before_done = done@;
        let ghost before_sent = sent@;
        let ghost more = applied.sent@;
        let ghost last = applied.step@;
        sent.append(&mut applied.sent);
        done.push(applied.step);
        proof {
            lemma_stmts_view_append(before_sent, more);
            assert(step_views(done@).drop_last() =~= step_views(before_done));
            assert(step_views(done@).last() == last);
        }
    }
    proof {
        assert forall|i: int| 0 <= i < plan.len() implies carried_as(
            step_views(plan)[i],
            #[trigger] step_views(done@)[i],
        ) by {
            assert(step_views(plan)[i] == plan[i]@);
            assert(step_views(done@)[i] == done@[i]@);
        }
    }
    Ok(Undo { steps: done, sent })
}

/// Undo an action of `kind` logged with `payload`: carry out the steps of
/// [`revert_plan`] in order. Gives back the steps as written and their
/// statements.
pub fn undo_action(conn: &rusqlite::Connection, kind: &str, payload: &str) -> (r: Result<Undo, DbError>)
    ensures
        r matches Ok(u) ==> undo_of(plan_spec(kind@, payload@), u),
{
    let steps = revert_plan(kind, payload);
    apply_steps(conn, steps)
}

/// The kind and payload of a row read from the log, when both columns
/// hold text.
pub fn logged_action(row: &Row) -> (r: Option<(String, String)>)
    ensures
        match r {
            Some((k, p)) => text_at(row@, 0) == Some(k@) && text_at(row@, 1) == Some(p@),
            None => text_at(row@, 0) is None || text_at(row@, 1) is None,
        },
{
    match (col_text(row, 0), col_text(row, 1)) {
        (Ok(k), Ok(p)) => Some((k, p)),
        _ => None,
    }
}

/// One logged action as undone: its id, what the log held, and how it was
/// carried out.
pub struct Undone {
    pub action_id: i64,
    pub kind: String,
    pub payload: String,
    pub undo: Undo,
}

/// `u` undoes the logged action it names, as its kind and payload say.
pub open spec fn undone_ok(u: Undone) -> bool {
    undo_of(plan_spec(u.kind@, u.payload@), u.undo)
}

/// Every statement that undid `us`, one action after another.
pub open spec fn undone_stmts(us: Seq<Undone>) -> Seq<StmtView>
    decreases us.len(),
{
    if us.len() == 0 {
        seq![]
    } else {
        undone_stmts(us.drop_last()) + stmts_view(us.last().undo.sent@)
    }
}

/// Read action `id`'s kind and payload from the log.
pub open spec fn read_action_stmt(id: i64) -> StmtView {
    stmt_of(READ_ACTION_SQL@, seq![ArgView::Int(id)])
}

/// One look into the log for an action: the query asked and the row it gave
/// (none when it gave none or failed).
pub struct Looked {
    pub read: Stmt,
    pub row: Option<Row>,
}

/// The row read holds the action's kind and payload as text.
pub open spec fn readable(row: Option<Row>) -> bool {
    row matches Some(r) && text_at(r@, 0) is Some && text_at(r@, 1) is Some
}

/// The ids of `ids` whose look into the log found a readable row, in order.
pub open spec fn readable_ids(ids: Seq<i64>, looked: Seq<Looked>) -> Seq<i64>
    decreases ids.len(),
{
    if ids.len() == 0 || looked.len() == 0 {
        seq![]
    } else {
        readable_ids(ids.drop_last(), looked.drop_last()) + (if readable(looked.last().row) {
            seq![ids.last()]
        } else {
            seq![]
        })
    }
}

/// The ids of the undone actions, in order.
pub open spec fn undone_ids(us: Seq<Undone>) -> Seq<i64> {
    Seq::new(us.len(), |k: int| us[k].action_id)
}

/// `u` undoes the action read as `look`: the kind and payload are the
/// row's, and the undo is the one they call for.
pub open spec fn undoes_read(u: Undone, look: Looked) -> bool {
    &&& look.row matches Some(r) && text_at(r@, 0) == Some(u.kind@) && text_at(r@, 1) == Some(u.payload@)
    &&& undone_ok(u)
}

/// Undo one logged action (without removing it from the log): read its kind
/// and payload, then carry out [`revert_plan`]'s steps in order. An action
/// that cannot be read is skipped (no undone action); the look into the log
/// is given back either way.
fn apply_one(conn: &rusqlite::Connection, action_id: i64) -> (r: Result<(Looked, Option<Undone>), DbError>)
    ensures
        r matches Ok((look, done)) ==> {
            &&& look.read@ == read_action_stmt(action_id)
            &&& (done is Some <==> readable(look.row))
            &&& done matches Some(u) ==> u.action_id == action_id && undoes_read(u, look)
        },
{
    let read = stmt(READ_ACTION_SQL, vec![SqlArg::Int(action_id)]);
    proof {
        assert(read@.args =~= read_action_stmt(action_id).args);
    }
    let row: Option<Row> = match fetch(conn, &read) {
        Ok(mut rows) => if rows.len() > 0 {
            Some(rows.swap_remove(0))
        } else {
            None
        },
        Err(_) => None,
    };
    let found = match &row {
        Some(r) => logged_action(r),
        None => None,
    };
    let (kind, payload) = match found {
        Some(kp) => kp,
        None => return Ok((Looked { read, row }, None)),
    };
    let undo = undo_action(conn, kind.as_str(), payload.as_str())?;
    Ok((Looked { read, row }, Some(Undone { action_id, kind, payload, undo })))
}

/// What a revert did: the statements it ran first, the actions it undid
/// (in the order it undid them), and the statements it ran last. Every
/// statement handed to SQLite is in `lead`, then in each undone action's
/// `undo.sent`, then in `trail`. `listed` are the actions it went through,
/// in order, with `rows` the rows the listing query gave for them (none
/// for a single action), and `looked` its look into the log for each.
pub struct Reverted {
    pub lead: Vec<Stmt>,
    pub undone: Vec<Undone>,
    pub trail: Vec<Stmt>,
    pub listed: Vec<i64>,
    pub rows: Vec<Row>,
    pub looked: Vec<Looked>,
}

/// The undone actions are exactly the listed ones the log could be read
/// for, in the listed order, each undoing what its row holds.
pub open spec fn undid_listed(rv: Reverted) -> bool {
    &&& rv.looked@.len() == rv.listed@.len()
    &&& forall|k: int| 0 <= k < rv.listed@.len() ==> (#[trigger] rv.looked@[k]).read@ == read_action_stmt(rv.listed@[k])
    &&& undone_ids(rv.undone@) == readable_ids(rv.listed@, rv.looked@)
    &&& forall|k: int| 0 <= k < rv.undone@.len() ==> exists|j: int|
        0 <= j < rv.listed@.len() && rv.listed@[j] == (#[trigger] rv.undone@[k]).action_id && undoes_read(
            rv.undone@[k],
            rv.looked@[j],
        )
}

/// Remove action `id` from the log.
pub open spec fn delete_action_stmt(id: i64) -> StmtView {
    stmt_of(DELETE_ACTION_SQL@, seq![ArgView::Int(id)])
}

/// The ids of the actions from `id` on, newest first.
pub open spec fn actions_from_stmt(id: i64) -> StmtView {
    stmt_of(ACTIONS_FROM_SQL@, seq![ArgView::Int(id)])
}

/// Remove every action from `id` on from the log.
pub open spec fn delete_actions_from_stmt(id: i64) -> StmtView {
    stmt_of(DELETE_ACTIONS_FROM_SQL@, seq![ArgView::Int(id)])
}

/// Every statement a revert handed to SQLite, in order.
pub open spec fn reverted_stmts(rv: Reverted) -> Seq<StmtView> {
    stmts_view(rv.lead@) + undone_stmts(rv.undone@) + stmts_view(rv.trail@)
}

/// Undo one action, then remove it from the log. Atomic: a failure partway
/// through leaves both the data and the log untouched. An action that is
/// not in the log (or cannot be read) is undone as nothing.
pub fn revert_action(conn: &rusqlite::Connection, id: i64) -> (r: Result<Reverted, DbError>)
    ensures
        r matches Ok(rv) ==> {
            &&& rv.undone.len() <= 1
            &&& forall|k: int| 0 <= k < rv.undone.len() ==> (#[trigger] rv.undone@[k]).action_id == id
                && undone_ok(rv.undone@[k])
            &&& rv.lead@.len() == 0
            &&& stmts_view(rv.trail@) == seq![delete_action_stmt(id)]
            &&& rv.listed@ == seq![id]
            &&& undid_listed(rv)
        },
{
    let tx = match begin(conn) {
        Ok(t) => t,
        Err(e) => return Err(DbError::Sql(e)),
    };
    let mut undone: Vec<Undone> = Vec::new();
    let mut looked: Vec<Looked> = Vec::new();
    let listed: Vec<i64> = vec![id];
    let (look, done) = apply_one(tx_conn(&tx), id)?;
    let ghost lv = look;
    looked.push(look);
    match done {
        Some(u) => {
            undone.push(u);
        },
        None => {},
    }
    proof {
        assert(looked@.drop_last() =~= Seq::<Looked>::empty());
        assert(listed@.drop_last() =~= Seq::<i64>::empty());
        assert(looked@.last() == lv);
        assert(readable_ids(Seq::<i64>::empty(), Seq::<Looked>::empty()) == Seq::<i64>::empty());
        assert(readable_ids(listed@, looked@) == (if readable(lv.row) { seq![id] } else { Seq::<i64>::empty() }));
        assert(undone_ids(undone@) =~= readable_ids(listed@, looked@));
        assert forall|k: int| 0 <= k < undone@.len() implies exists|j: int|
            0 <= j < listed@.len() && listed@[j] == (#[trigger] undone@[k]).action_id && undoes_read(undone@[k], looked@[j]) by {
            assert(listed@[0] == undone@[k].action_id && undoes_read(undone@[k], looked@[0]));
        }
    }
    let del = stmt(DELETE_ACTION_SQL, vec![SqlArg::Int(id)]);
    proof {
        assert(del@.args =~= delete_action_stmt(id).args);
    }
    let trail = one_stmt(tx_conn(&tx), del)?;
    match commit(tx) {
        Ok(()) => Ok(Reverted { lead: Vec::new(), undone, trail, listed, rows: Vec::new(), looked }),
        Err(e) => Err(DbError::Sql(e)),
    }
}

/// Undo `id` and every action newer than it, newest first, then remove all
/// of them from the log. One transaction for the whole range.
pub fn revert_from(conn: &rusqlite::Connection, id: i64) -> (r: Result<Reverted, DbError>)
    ensures
        r matches Ok(rv) ==> {
            &&& forall|k: int| 0 <= k < rv.undone.len() ==> undone_ok(#[trigger] rv.undone@[k])
            &&& stmts_view(rv.lead@) == seq![actions_from_stmt(id)]
            &&& stmts_view(rv.trail@) == seq![delete_actions_from_stmt(id)]
            &&& rv.listed@.len() == rv.rows@.len()
            &&& forall|k: int| 0 <= k < rv.rows@.len() ==> int_at((#[trigger] rv.rows@[k])@, 0) == Some(rv.listed@[k])
            &&& undid_listed(rv)
        },
{
    let tx = match begin(conn) {
        Ok(t) => t,
        Err(e) => return Err(DbError::Sql(e)),
    };
    let list = stmt(ACTIONS_FROM_SQL, vec![SqlArg::Int(id)]);
    proof {
        assert(list@.args =~= actions_from_stmt(id).args);
    }
    let rows = fetch(tx_conn(&tx), &list)?;
    let ghost lv = list@;
    let lead = vec![list];
    proof {
        assert(stmts_view(lead@) =~= seq![lv]);
    }
    let mut undone: Vec<Undone> = Vec::new();
    let mut listed: Vec<i64> = Vec::new();
    let mut looked: Vec<Looked> = Vec::new();
    let mut k: usize = 0;
    while k < rows.len()
        invariant
            k <= rows.len(),
            listed@.len() == k,
            looked@.len() == k,
            forall|j: int| 0 <= j < k ==> int_at((#[trigger] rows@[j])@, 0) == Some(listed@[j]),
            forall|j: int| 0 <= j < k ==> (#[trigger] looked@[j]).read@ == read_action_stmt(listed@[j]),
            forall|j: int| 0 <= j < undone.len() ==> undone_ok(#[trigger] undone@[j]),
            undone_ids(undone@) == readable_ids(listed@, looked@),
            forall|i: int| 0 <= i < undone@.len() ==> exists|j: int|
                0 <= j < listed@.len() && listed@[j] == (#[trigger] undone@[i]).action_id && undoes_read(undone@[i], looked@[j]),
        decreases rows.len() - k,
    {
        let action_id = col_int(&rows[k], 0)?;
        let (look, done) = apply_one(tx_conn(&tx), action_id)?;
        let ghost bl = listed@;
        let ghost bk = looked@;
        let ghost bu = undone@;
        let ghost lv = look;
        listed.push(action_id);
        looked.push(look);
        match done {
            Some(u) => {
                let ghost uv = u;
                undone.push(u);
                proof {
                    assert(undone@.drop_last() =~= bu);
                    assert forall|j: int| 0 <= j < undone.len() implies undone_ok(#[trigger] undone@[j]) by {
                        if j < bu.len() {
                            assert(undone@[j] == bu[j]);
                        }
                    }
                }
            },
            None => {},
        }
        proof {
            assert(listed@.drop_last() =~= bl);
            assert(looked@.drop_last() =~= bk);
            assert(looked@.last() == lv);
            assert(undone_ids(undone@) =~= readable_ids(listed@, looked@));
            assert forall|i: int| 0 <= i < undone@.len() implies exists|j: int|
                0 <= j < listed@.len() && listed@[j] == (#[trigger] undone@[i]).action_id && undoes_read(undone@[i], looked@[j]) by {
                if i < bu.len() {
                    assert(undone@[i] == bu[i]);
                    let j = choose|j: int| 0 <= j < bl.len() && bl[j] == bu[i].action_id && undoes_read(bu[i], bk[j]);
                    assert(listed@[j] == bl[j] && looked@[j] == bk[j]);
                } else {
                    assert(listed@[k as int] == undone@[i].action_id && undoes_read(undone@[i], looked@[k as int]));
                }
            }
        }
        k += 1;
    }
    let del = stmt(DELETE_ACTIONS_FROM_SQL, vec![SqlArg::Int(id)]);
    proof {
        assert(del@.args =~= delete_actions_from_stmt(id).args);
    }
    let trail = one_stmt(tx_conn(&tx), del)?;
    match commit(tx) {
        Ok(()) => Ok(Reverted { lead, undone, trail, listed, rows, looked }),
        Err(e) => Err(DbError::Sql(e)),
    }
}

proof fn lemma_readable_ids_all(ids: Seq<i64>, looked: Seq<Looked>)
    requires
        ids.len() == looked.len(),
        forall|k: int| 0 <= k < looked.len() ==> readable(#[trigger] looked[k].row),
    ensures
        readable_ids(ids, looked) == ids,
    decreases ids.len(),
{
    if ids.len() > 0 {
        let l2 = looked.drop_last();
        assert forall|k: int| 0 <= k < l2.len() implies readable(#[trigger] l2[k].row) by {
            assert(l2[k] == looked[k]);
        }
        lemma_readable_ids_all(ids.drop_last(), l2);
        assert(readable(looked.last().row)) by {
            assert(looked.last() == looked[looked.len() - 1]);
        }
        assert(ids.drop_last() + seq![ids.last()] =~= ids);
    }
}

proof fn lemma_readable_ids_none(ids: Seq<i64>, looked: Seq<Looked>)
    requires
        ids.len() == looked.len(),
        forall|k: int| 0 <= k < looked.len() ==> !readable(#[trigger] looked[k].row),
    ensures
        readable_ids(ids, looked).len() == 0,
    decreases ids.len(),
{
    if ids.len() > 0 {
        let l2 = looked.drop_last();
        assert forall|k: int| 0 <= k < l2.len() implies !readable(#[trigger] l2[k].row) by {
            assert(l2[k] == looked[k]);
        }
        lemma_readable_ids_none(ids.drop_last(), l2);
        assert(!readable(looked.last().row)) by {
            assert(looked.last() == looked[looked.len() - 1]);
        }
    }
}

/// Law: a revert goes through every action it listed. When every listed
/// action could be read from the log, every one of them is undone, in the
/// listed order (for a reset, the listing query's newest-first order); when
/// none could, none is.
pub proof fn lemma_revert_undoes_every_listed_action(rv: Reverted)
    requires
        undid_listed(rv),
    ensures
        (forall|k: int| 0 <= k < rv.looked@.len() ==> readable(#[trigger] rv.looked@[k].row)) ==> undone_ids(rv.undone@)
            == rv.listed@,
        (forall|k: int| 0 <= k < rv.looked@.len() ==> !readable(#[trigger] rv.looked@[k].row)) ==> rv.undone@.len() == 0,
{
    if forall|k: int| 0 <= k < rv.looked@.len() ==> readable(#[trigger] rv.looked@[k].row) {
        lemma_readable_ids_all(rv.listed@, rv.looked@);
    }
    if forall|k: int| 0 <= k < rv.looked@.len() ==> !readable(#[trigger] rv.looked@[k].row) {
        lemma_readable_ids_none(rv.listed@, rv.looked@);
        assert(undone_ids(rv.undone@).len() == rv.undone@.len());
    }
}

} // verus!
