//! SQLite persistence and the task repository.
//!
//! Timestamps are stored in local naive time (`YYYY-MM-DDTHH:MM:SS`, no zone)
//! so that timer entries and hand-entered entries share one clock. The
//! statements compute "now" and "today" themselves, with
//! `strftime('%Y-%m-%dT%H:%M:%S', 'now', 'localtime')` and
//! `date('now', 'localtime')`.
use vstd::prelude::*;
use crate::domain::{
    iso_date, is_iso_date, new_id, opt_view, status_text, Project, ProjectFilter, Task, TaskStatus,
};
use crate::sql::{
    col_int, col_opt_int, col_opt_text, col_text, execute, int_at, null_at, opt_int_arg,
    opt_int_ok, opt_text_arg, opt_text_ok, query, query_one, query_opt, text_arg, text_at,
    DbError, Row, SqlArg, run, fetch, stmt, stmt_of, stmts_view, opt_int_view, opt_text_view, ArgView, Stmt,
    StmtView,
};
use crate::text::{chars_of, push_str, string_of, trim, trim_end, trim_str, trim_end_vec};
use crate::tree::{annotate, branch_more_spec, is_last, is_preorder, preorder};

pub mod actions;
pub mod countdown;
pub mod entries;
pub mod heat;
pub mod migrations;

pub use countdown::{countdown_words, deadline_countdown, CountdownMode};
pub use entries::{
    add_manual_entry, delete_entry, entry_duration_seconds, entry_span, get_entry, get_meta,
    has_subtasks, is_iso_datetime, list_entries_for_task, normalise_datetime, recover_orphan_timer,
    row_to_entry, running_entry, running_timer, scope_seconds, set_meta, start_timer, stop_timer,
    task_seconds, timer_heartbeat, update_entry, EntryRow, RecoveredTimer, RunningTimer,
};
pub use heat::{
    heat_at_latest, heatmap, snap_anchor, step_anchor, today_date, HeatCell, HeatRange, SeriesTarget,
};


verus! {

/// The columns a task is read from, in [`row_to_task`]'s order.
pub const TASK_COLUMNS: &'static str = "id, parent_task_id, project_id, title, notes, deadline, tracked, status, CAST(sort_order AS INTEGER), created_at, initial_time_seconds";

/// In-memory database with the schema applied - for tests and as a fallback.
pub fn open_in_memory() -> (r: Result<rusqlite::Connection, DbError>) {
    let conn = match crate::sql::connect_in_memory() {
        Ok(c) => c,
        Err(e) => return Err(DbError::Sql(e)),
    };
    configure(&conn)?;
    migrations::run(&conn)?;
    Ok(conn)
}

/// Write-ahead logging, and foreign keys enforced (they carry the cascades).
pub fn configure(conn: &rusqlite::Connection) -> (r: Result<(), DbError>) {
    match crate::sql::execute_batch(conn, "PRAGMA journal_mode = WAL; PRAGMA foreign_keys = ON;") {
        Ok(()) => Ok(()),
        Err(e) => Err(DbError::Sql(e)),
    }
}

// --- Reading rows -------------------------------------------------------------------

pub open spec fn opt_text_is(row: Seq<crate::sql::SqlValue>, i: int, o: Option<String>) -> bool {
    match o {
        Some(s) => text_at(row, i) == Some(s@),
        None => null_at(row, i),
    }
}

pub open spec fn opt_int_is(row: Seq<crate::sql::SqlValue>, i: int, o: Option<i64>) -> bool {
    match o {
        Some(x) => int_at(row, i) == Some(x),
        None => null_at(row, i),
    }
}

/// The status a stored text stands for.
pub open spec fn status_of(s: Seq<char>) -> TaskStatus {
    if s == status_text(TaskStatus::Done) {
        TaskStatus::Done
    } else {
        TaskStatus::Todo
    }
}

/// Columns `b..b+11` of `row` have the types of a task row.
pub open spec fn task_row_ok(row: Seq<crate::sql::SqlValue>, b: int) -> bool {
    &&& text_at(row, b) is Some
    &&& opt_text_ok(row, b + 1)
    &&& opt_text_ok(row, b + 2)
    &&& text_at(row, b + 3) is Some
    &&& text_at(row, b + 4) is Some
    &&& opt_text_ok(row, b + 5)
    &&& int_at(row, b + 6) is Some
    &&& text_at(row, b + 7) is Some
    &&& int_at(row, b + 8) is Some
    &&& text_at(row, b + 9) is Some
    &&& opt_int_ok(row, b + 10)
}

/// `t` is the task columns `0..11` of `row` spell.
pub open spec fn task_row(row: Seq<crate::sql::SqlValue>, t: Task) -> bool {
    &&& text_at(row, 0) == Some(t.id@)
    &&& opt_text_is(row, 1, t.parent_id)
    &&& opt_text_is(row, 2, t.project_id)
    &&& text_at(row, 3) == Some(t.title@)
    &&& text_at(row, 4) == Some(t.notes@)
    &&& opt_text_is(row, 5, t.deadline)
    &&& int_at(row, 6) == Some(int_at(row, 6)->0) && t.track == (int_at(row, 6)->0 != 0)
    &&& text_at(row, 7) is Some && t.status == status_of(text_at(row, 7)->0)
    &&& int_at(row, 8) == Some(t.sort_order)
    &&& text_at(row, 9) == Some(t.created_at@)
    &&& opt_int_is(row, 10, t.initial_time_seconds)
}

/// A task from the columns of [`TASK_COLUMNS`].
pub fn row_to_task(row: &Row) -> (r: Result<Task, DbError>)
    ensures
        match r {
            Ok(t) => task_row(row@, t),
            Err(_) => !task_row_ok(row@, 0),
        },
{
    let id = col_text(row, 0)?;
    let parent_id = col_opt_text(row, 1)?;
    let project_id = col_opt_text(row, 2)?;
    let title = col_text(row, 3)?;
    let notes = col_text(row, 4)?;
    let deadline = col_opt_text(row, 5)?;
    let track_flag = col_int(row, 6)?;
    let status = col_text(row, 7)?;
    let sort_order = col_int(row, 8)?;
    let created_at = col_text(row, 9)?;
    let initial_time_seconds = col_opt_int(row, 10)?;
    Ok(
        Task {
            id,
            parent_id,
            project_id,
            title,
            notes,
            deadline,
            track: track_flag != 0,
            status: TaskStatus::from_db(status.as_str()),
            sort_order,
            created_at,
            initial_time_seconds,
        },
    )
}

pub(crate) fn opt_str(o: &Option<String>) -> (r: Option<&str>)
    ensures
        match o {
            Some(s) => r matches Some(x) && x@ == s@,
            None => r is None,
        },
{
    match o {
        Some(s) => Some(s.as_str()),
        None => None,
    }
}

// --- Tasks --------------------------------------------------------------------------

/// Insert a task and return it. `title` is trimmed; the caller rejects blanks.
///
/// A subtask always inherits its parent's project, so `project_id` is only
/// consulted for root tasks (`parent_id == None`). The new task is placed
/// after its current last sibling.
pub fn create_task(
    conn: &rusqlite::Connection,
    title: &str,
    parent_id: Option<&str>,
    project_id: Option<&str>,
) -> (r: Result<Task, DbError>) {
    let (task, _id, _sent) = create_task_sent(conn, title, parent_id, project_id)?;
    Ok(task)
}

pub const INSERT_TASK_SQL: &'static str = "INSERT INTO tasks (id, parent_task_id, project_id, title, sort_order, created_at)
         VALUES (?1, ?2, ?3, ?4,
                 (SELECT COALESCE(MAX(sort_order), 0) + 1.0 FROM tasks WHERE parent_task_id IS ?2),
                 strftime('%Y-%m-%dT%H:%M:%S', 'now', 'localtime'))";

/// Insert task `id` under `parent` in `project`, titled `title`, trimmed;
/// last among its siblings, created now.
pub open spec fn insert_task_stmt(id: Seq<char>, parent: Option<Seq<char>>, project: Option<Seq<char>>, title: Seq<char>) -> StmtView {
    stmt_of(
        INSERT_TASK_SQL@,
        seq![ArgView::Text(id), opt_text_view(parent), opt_text_view(project), ArgView::Text(trim(title))],
    )
}

/// `s` inserts task `id` titled `title` under `parent`; a root task is
/// filed in `project`, a subtask in its parent's project.
pub open spec fn inserts_task(s: StmtView, id: Seq<char>, title: Seq<char>, parent: Option<Seq<char>>, project: Option<Seq<char>>) -> bool {
    exists|filed: Option<Seq<char>>| {
        &&& s == insert_task_stmt(id, parent, filed, title)
        &&& parent is None ==> filed == project
    }
}

/// [`create_task`], also giving back the new task's id and the statement
/// that inserted it.
pub fn create_task_sent(
    conn: &rusqlite::Connection,
    title: &str,
    parent_id: Option<&str>,
    project_id: Option<&str>,
) -> (r: Result<(Task, String, Vec<Stmt>), DbError>)
    ensures
        r matches Ok((_t, id, sent)) ==> sent@.len() == 1 && inserts_task(
            sent@[0]@,
            id@,
            title@,
            opt_str_view(parent_id),
            opt_str_view(project_id),
        ),
{
    let id = new_id();
    let project: Option<String> = match parent_id {
        Some(parent) => {
            let row = query_one(conn, "SELECT project_id FROM tasks WHERE id = ?1", vec![text_arg(parent)])?;
            col_opt_text(&row, 0)?
        },
        None => match project_id {
            Some(p) => Some(p.to_owned()),
            None => None,
        },
    };
    let t = trim_str(title);
    let s = stmt(INSERT_TASK_SQL, vec![text_arg(id.as_str()), opt_text_arg(parent_id), opt_text_arg(opt_str(&project)), SqlArg::Text(t)]);
    proof {
        assert(s@.args =~= insert_task_stmt(id@, opt_str_view(parent_id), opt_view(project), title@).args);
        assert(s@ == insert_task_stmt(id@, opt_str_view(parent_id), opt_view(project), title@));
    }
    run(conn, &s)?;
    let ghost sv = s@;
    let sent = vec![s];
    proof {
        assert(sent@[0]@ == sv);
    }
    match get_task(conn, id.as_str())? {
        Some(task) => Ok((task, id, sent)),
        None => Err(DbError::Missing),
    }
}

/// Fetch one task by id.
pub fn get_task(conn: &rusqlite::Connection, id: &str) -> (r: Result<Option<Task>, DbError>) {
    let row = query_opt(
        conn,
        "SELECT id, parent_task_id, project_id, title, notes, deadline, tracked, status, CAST(sort_order AS INTEGER), created_at, initial_time_seconds FROM tasks WHERE id = ?1",
        vec![text_arg(id)],
    )?;
    match row {
        Some(row) => Ok(Some(row_to_task(&row)?)),
        None => Ok(None),
    }
}

/// A task plus view-only annotations, in tree (pre-order) display order.
#[derive(Debug, Clone)]
pub struct TaskNode {
    pub task: Task,
    pub depth: u32,
    pub has_children: bool,
    /// Deadline is in the past and the task isn't done.
    pub overdue: bool,
    /// Last of its parent's (visible) children - its connector is an elbow,
    /// not a tee. Always true for the last root.
    pub is_last_child: bool,
    /// Per indent column (`depth` entries), whether a full-height tree guide
    /// line is drawn there: `branch_more[i]` is true when the ancestor at
    /// depth `i + 1` still has siblings below this row.
    pub branch_more: Vec<bool>,
}

/// The depths of a list of nodes.
pub open spec fn depths(nodes: Seq<TaskNode>) -> Seq<u32> {
    nodes.map_values(|n: TaskNode| n.depth)
}

/// The annotations of every node match the tree shape its depths give.
pub open spec fn annotated(nodes: Seq<TaskNode>) -> bool {
    &&& preorder(depths(nodes))
    &&& forall|k: int|
        0 <= k < nodes.len() ==> {
            &&& (#[trigger] nodes[k]).is_last_child == is_last(depths(nodes), k)
            &&& nodes[k].branch_more@ == branch_more_spec(depths(nodes), k)
        }
}

/// The columns of a node row (a task row, then depth, has-children and
/// overdue) have their types.
pub open spec fn node_row_ok(row: Seq<crate::sql::SqlValue>) -> bool {
    &&& task_row_ok(row, 0)
    &&& int_at(row, 11) is Some
    &&& int_at(row, 12) is Some
    &&& int_at(row, 13) is Some
}

/// `n` is the node `row` spells, before its tree annotations are filled in.
pub open spec fn node_row(row: Seq<crate::sql::SqlValue>, n: TaskNode) -> bool {
    &&& node_row_ok(row)
    &&& task_row(row, n.task)
    &&& n.depth == (int_at(row, 11)->0 as u32)
    &&& n.has_children == (int_at(row, 12)->0 != 0)
    &&& n.overdue == (int_at(row, 13)->0 != 0)
    &&& n.is_last_child
    &&& n.branch_more@.len() == 0
}

/// A node from a task row followed by depth, has-children and overdue
/// columns; its tree annotations are filled in later.
fn row_to_node(row: &Row) -> (r: Result<TaskNode, DbError>)
    ensures
        match r {
            Ok(n) => node_row(row@, n),
            Err(_) => !node_row_ok(row@),
        },
{
    let task = row_to_task(row)?;
    let depth = col_int(row, 11)?;
    let has_children = col_int(row, 12)?;
    let overdue = col_int(row, 13)?;
    Ok(
        TaskNode {
            task,
            depth: depth as u32,
            has_children: has_children != 0,
            overdue: overdue != 0,
            is_last_child: true,
            branch_more: Vec::new(),
        },
    )
}

fn rows_to_nodes(rows: &Vec<Row>) -> (r: Result<Vec<TaskNode>, DbError>)
    ensures
        match r {
            Ok(ns) => ns.len() == rows.len() && forall|k: int| 0 <= k < rows.len() ==> node_row(rows@[k]@, #[trigger] ns@[k]),
            Err(_) => exists|k: int| 0 <= k < rows.len() && !node_row_ok(#[trigger] rows@[k]@),
        },
{
    let mut out: Vec<TaskNode> = Vec::new();
    let mut k: usize = 0;
    while k < rows.len()
        invariant
            k <= rows.len(),
            out.len() == k,
            forall|m: int| 0 <= m < k ==> node_row(rows@[m]@, #[trigger] out@[m]),
        decreases rows.len() - k,
    {
        let n = row_to_node(&rows[k])?;
        out.push(n);
        k += 1;
    }
    Ok(out)
}

/// Fill in `is_last_child` / `branch_more` for a pre-ordered, depth-tagged
/// list; `Shape` when the depths are not a pre-ordered tree.
pub fn annotate_branches(nodes: Vec<TaskNode>) -> (r: Result<Vec<TaskNode>, DbError>)
    ensures
        match r {
            Ok(out) => annotated(out@) && depths(out@) == depths(nodes@) && out.len() == nodes.len()
                && forall|k: int|
                0 <= k < nodes.len() ==> (#[trigger] out@[k]).task == nodes@[k].task
                    && out@[k].has_children == nodes@[k].has_children && out@[k].overdue
                    == nodes@[k].overdue,
            Err(_) => !preorder(depths(nodes@)),
        },
{
    let mut ds: Vec<u32> = Vec::new();
    let mut k: usize = 0;
    while k < nodes.len()
        invariant
            k <= nodes.len(),
            ds@ == depths(nodes@).take(k as int),
        decreases nodes.len() - k,
    {
        ds.push(nodes[k].depth);
        k += 1;
        proof {
            assert(ds@ =~= depths(nodes@).take(k as int));
        }
    }
    proof {
        assert(ds@ =~= depths(nodes@));
    }
    if !is_preorder(&ds) {
        return Err(DbError::Shape);
    }
    let (last, branches) = annotate(&ds);
    let mut branches = branches;
    let mut out: Vec<TaskNode> = Vec::new();
    let mut rest = nodes;
    let ghost orig = rest@;
    let mut k: usize = 0;
    while rest.len() > 0
        invariant
            k + rest.len() == orig.len(),
            rest@ == orig.skip(k as int),
            out.len() == k,
            ds@ == depths(orig),
            last.len() == orig.len(),
            branches.len() == orig.len() - k,
            forall|m: int| 0 <= m < orig.len() ==> #[trigger] last@[m] == is_last(ds@, m),
            forall|m: int|
                0 <= m < orig.len() - k ==> (#[trigger] branches@[m])@ == branch_more_spec(ds@, m + k),
            forall|m: int|
                0 <= m < k ==> {
                    &&& (#[trigger] out@[m]).task == orig[m].task
                    &&& out@[m].depth == orig[m].depth
                    &&& out@[m].has_children == orig[m].has_children
                    &&& out@[m].overdue == orig[m].overdue
                    &&& out@[m].is_last_child == is_last(ds@, m)
                    &&& out@[m].branch_more@ == branch_more_spec(ds@, m)
                },
        decreases rest.len(),
    {
        let ghost bprev = branches@;
        let n = rest.remove(0);
        let b = branches.remove(0);
        proof {
            assert(n == orig[k as int]);
        }
        out.push(
            TaskNode {
                task: n.task,
                depth: n.depth,
                has_children: n.has_children,
                overdue: n.overdue,
                is_last_child: last[k],
                branch_more: b,
            },
        );
        k += 1;
        proof {
            assert(rest@ =~= orig.skip(k as int));
            assert forall|m: int| 0 <= m < orig.len() - k implies (#[trigger] branches@[m])@
                == branch_more_spec(ds@, m + k) by {
                assert(branches@[m] == bprev[m + 1]);
            }
        }
    }
    proof {
        assert(depths(out@) =~= depths(orig));
    }
    Ok(out)
}

pub const TREE_SQL_START: &'static str = "WITH RECURSIVE subtree(task_id, depth, sort_path) AS (
             SELECT id, 0, printf('%020.6f', sort_order)
             FROM tasks WHERE parent_task_id IS NULL AND ";

pub const TREE_SQL_WALK: &'static str = "
           UNION ALL
             SELECT t.id, s.depth + 1,
                    s.sort_path || '/' || printf('%020.6f', t.sort_order)
             FROM tasks t JOIN subtree s ON t.parent_task_id = s.task_id
             WHERE 1";

pub const TREE_SQL_SELECT: &'static str = "
         )
         SELECT id, parent_task_id, project_id, title, notes, deadline, tracked, status, CAST(sort_order AS INTEGER), created_at, initial_time_seconds,
                subtree.depth,
                EXISTS(SELECT 1 FROM tasks c
                       WHERE c.parent_task_id = tasks.id";

pub const TREE_SQL_END: &'static str = "),
                (tasks.deadline IS NOT NULL
                    AND tasks.deadline < date('now', 'localtime')
                    AND tasks.status <> 'done')
         FROM tasks JOIN subtree ON tasks.id = subtree.task_id
         ORDER BY subtree.sort_path";

/// `t`, unless `skip`.
pub open spec fn unless(skip: bool, t: Seq<char>) -> Seq<char> {
    if skip {
        Seq::empty()
    } else {
        t
    }
}

/// The root condition of a project filter.
pub open spec fn filter_sql(filter: ProjectFilter) -> Seq<char> {
    match filter {
        ProjectFilter::All => "1"@,
        ProjectFilter::Unfiled => "project_id IS NULL"@,
        ProjectFilter::Only(_) => "project_id = ?1"@,
    }
}

/// The text of [`task_tree_sql`].
pub open spec fn task_tree_text(filter: ProjectFilter, include_done: bool) -> Seq<char> {
    TREE_SQL_START@ + filter_sql(filter) + unless(include_done, " AND status <> 'done'"@) + TREE_SQL_WALK@ + unless(
        include_done,
        " AND t.status <> 'done'"@,
    ) + TREE_SQL_SELECT@ + unless(include_done, " AND c.status <> 'done'"@) + TREE_SQL_END@
}

/// The statement behind [`list_task_tree`]: a recursive walk from the root
/// tasks matching `filter`, stopping at completed tasks unless `include_done`,
/// ordered by the path of sibling positions so that the flat result is a
/// pre-order traversal.
fn task_tree_sql(filter: &ProjectFilter, include_done: bool) -> (s: String)
    ensures
        s@ == task_tree_text(*filter, include_done),
{
    let mut sql: Vec<char> = Vec::new();
    push_str(&mut sql, TREE_SQL_START);
    match filter {
        ProjectFilter::All => push_str(&mut sql, "1"),
        ProjectFilter::Unfiled => push_str(&mut sql, "project_id IS NULL"),
        ProjectFilter::Only(_) => push_str(&mut sql, "project_id = ?1"),
    }
    let ghost g1 = TREE_SQL_START@ + filter_sql(*filter);
    assert(sql@ =~= g1);
    if !include_done {
        push_str(&mut sql, " AND status <> 'done'");
    }
    let ghost g2 = g1 + unless(include_done, " AND status <> 'done'"@);
    assert(sql@ =~= g2);
    push_str(&mut sql, TREE_SQL_WALK);
    if !include_done {
        push_str(&mut sql, " AND t.status <> 'done'");
    }
    let ghost g3 = g2 + TREE_SQL_WALK@ + unless(include_done, " AND t.status <> 'done'"@);
    assert(sql@ =~= g3);
    push_str(&mut sql, TREE_SQL_SELECT);
    if !include_done {
        push_str(&mut sql, " AND c.status <> 'done'");
    }
    let ghost g4 = g3 + TREE_SQL_SELECT@ + unless(include_done, " AND c.status <> 'done'"@);
    assert(sql@ =~= g4);
    push_str(&mut sql, TREE_SQL_END);
    assert(sql@ =~= task_tree_text(*filter, include_done));
    string_of(sql.as_slice())
}

/// All tasks matching `filter` as a depth-annotated, pre-ordered list for
/// the flattened tree view.
///
/// The filter is applied only to root tasks: subtasks inherit their parent's
/// project, so a whole subtree always belongs to one project. When
/// `include_done` is false, completed tasks are omitted - and because the
/// walk stops at them, so is anything nested under a completed task.
/// `has_children` reflects the same filter.
pub fn list_task_tree(conn: &rusqlite::Connection, filter: &ProjectFilter, include_done: bool) -> (r: Result<Vec<TaskNode>, DbError>)
    ensures
        r matches Ok(nodes) ==> annotated(nodes@),
{
    let q = tree_stmt(filter, include_done);
    list_tree_by(conn, &q)
}

/// The query behind [`list_task_tree`] for `filter`: the statement of
/// [`task_tree_sql`], with the project id as its one parameter for a
/// project scope.
pub open spec fn tree_query(filter: ProjectFilter, include_done: bool) -> StmtView {
    stmt_of(
        task_tree_text(filter, include_done),
        match filter {
            ProjectFilter::Only(id) => seq![ArgView::Text(id@)],
            _ => seq![],
        },
    )
}

/// Build [`tree_query`].
pub fn tree_stmt(filter: &ProjectFilter, include_done: bool) -> (q: Stmt)
    ensures
        q@ == tree_query(*filter, include_done),
{
    let sql = task_tree_sql(filter, include_done);
    let args = match filter {
        ProjectFilter::Only(id) => vec![text_arg(id.as_str())],
        _ => vec![],
    };
    let q = Stmt { sql, args };
    proof {
        assert(q@.args =~= tree_query(*filter, include_done).args);
    }
    q
}

/// The annotated tree that the tree query `q` reads.
pub fn list_tree_by(conn: &rusqlite::Connection, q: &Stmt) -> (r: Result<Vec<TaskNode>, DbError>)
    ensures
        r matches Ok(nodes) ==> annotated(nodes@),
{
    let rows = fetch(conn, q)?;
    let nodes = rows_to_nodes(&rows)?;
    annotate_branches(nodes)
}

/// Every completed task as a flat list (depth 0), most recently finished
/// first. The "Finished" view is deliberately not a tree.
pub fn list_finished_tasks(conn: &rusqlite::Connection) -> (r: Result<Vec<TaskNode>, DbError>) {
    list_flat_by(conn, &finished_stmt())
}

pub const FINISHED_SQL: &'static str = "SELECT id, parent_task_id, project_id, title, notes, deadline, tracked, status, CAST(sort_order AS INTEGER), created_at, initial_time_seconds, 0, 0, 0
         FROM tasks
         WHERE status = 'done'
         ORDER BY COALESCE(completed_at, created_at) DESC, created_at DESC";

/// The query behind [`list_finished_tasks`].
pub open spec fn finished_query() -> StmtView {
    stmt_of(FINISHED_SQL@, seq![])
}

/// Build [`finished_query`].
pub fn finished_stmt() -> (q: Stmt)
    ensures
        q@ == finished_query(),
{
    let q = stmt(FINISHED_SQL, Vec::new());
    proof {
        assert(q@.args =~= finished_query().args);
    }
    q
}

/// The flat list of rows that the query `q` reads.
pub fn list_flat_by(conn: &rusqlite::Connection, q: &Stmt) -> (r: Result<Vec<TaskNode>, DbError>) {
    let rows = fetch(conn, q)?;
    rows_to_nodes(&rows)
}

/// The task tree pruned to deadline-bearing work: a task is kept when it has
/// a deadline of its own, or any descendant does (so the chain from the root
/// down stays connected). Done tasks truncate a branch, exactly as in
/// [`list_task_tree`]. The annotations are over the pruned set.
pub fn list_deadlined_tree(conn: &rusqlite::Connection) -> (r: Result<Vec<TaskNode>, DbError>)
    ensures
        r matches Ok(nodes) ==> annotated(nodes@),
{
    list_tree_by(conn, &deadlined_stmt())
}

pub const DEADLINED_SQL: &'static str = "WITH RECURSIVE
             keep(id) AS (
                 SELECT id FROM tasks
                 WHERE deadline IS NOT NULL AND status <> 'done'
               UNION
                 SELECT t.parent_task_id
                 FROM tasks t JOIN keep k ON t.id = k.id
                 WHERE t.parent_task_id IS NOT NULL AND t.status <> 'done'
             ),
             subtree(task_id, depth, sort_path) AS (
                 SELECT id, 0, printf('%020.6f', sort_order)
                 FROM tasks
                 WHERE parent_task_id IS NULL AND status <> 'done'
                   AND id IN (SELECT id FROM keep)
               UNION ALL
                 SELECT t.id, s.depth + 1,
                        s.sort_path || '/' || printf('%020.6f', t.sort_order)
                 FROM tasks t JOIN subtree s ON t.parent_task_id = s.task_id
                 WHERE t.status <> 'done'
                   AND t.id IN (SELECT id FROM keep)
             )
         SELECT id, parent_task_id, project_id, title, notes, deadline, tracked, status, CAST(sort_order AS INTEGER), created_at, initial_time_seconds,
                subtree.depth,
                EXISTS(SELECT 1 FROM tasks c
                       WHERE c.parent_task_id = tasks.id
                         AND c.status <> 'done'
                         AND c.id IN (SELECT id FROM keep)),
                (tasks.deadline IS NOT NULL
                    AND tasks.deadline < date('now', 'localtime')
                    AND tasks.status <> 'done')
         FROM tasks JOIN subtree ON tasks.id = subtree.task_id
         ORDER BY subtree.sort_path";

/// The query behind [`list_deadlined_tree`].
pub open spec fn deadlined_query() -> StmtView {
    stmt_of(DEADLINED_SQL@, seq![])
}

/// Build [`deadlined_query`].
pub fn deadlined_stmt() -> (q: Stmt)
    ensures
        q@ == deadlined_query(),
{
    let q = stmt(DEADLINED_SQL, Vec::new());
    proof {
        assert(q@.args =~= deadlined_query().args);
    }
    q
}

/// A task that has a deadline, for the calendar / agenda page.
#[derive(Debug, Clone, PartialEq, Eq)]
pub struct DeadlineItem {
    pub id: String,
    pub title: String,
    /// ISO `YYYY-MM-DD`.
    pub deadline: String,
    /// Deadline is before local today.
    pub overdue: bool,
    /// Owning project's name, or `""` when the task has no project.
    pub project: String,
}

/// Every not-done task with a deadline, earliest first (ties broken by
/// title, ignoring case).
pub fn deadline_items(conn: &rusqlite::Connection) -> (r: Result<Vec<DeadlineItem>, DbError>) {
    let rows = query(
        conn,
        "SELECT t.id, t.title, t.deadline,
                (t.deadline < date('now', 'localtime')) AS overdue,
                COALESCE(p.name, '')
         FROM tasks t
         LEFT JOIN projects p ON p.id = t.project_id
         WHERE t.deadline IS NOT NULL AND t.status <> 'done'
         ORDER BY t.deadline, t.title COLLATE NOCASE",
        vec![],
    )?;
    let mut out: Vec<DeadlineItem> = Vec::new();
    let mut k: usize = 0;
    while k < rows.len()
        invariant
            k <= rows.len(),
        decreases rows.len() - k,
    {
        out.push(row_to_deadline_item(&rows[k])?);
        k += 1;
    }
    Ok(out)
}

/// The columns `(id, title, deadline, overdue, project name)` of `row`
/// have the types of a deadline item.
pub open spec fn deadline_row_ok(row: Seq<crate::sql::SqlValue>) -> bool {
    &&& text_at(row, 0) is Some
    &&& text_at(row, 1) is Some
    &&& text_at(row, 2) is Some
    &&& int_at(row, 3) is Some
    &&& text_at(row, 4) is Some
}

/// `item` is what the columns of `row` spell; a non-zero flag is overdue.
pub open spec fn deadline_row(row: Seq<crate::sql::SqlValue>, item: DeadlineItem) -> bool {
    &&& deadline_row_ok(row)
    &&& text_at(row, 0) == Some(item.id@)
    &&& text_at(row, 1) == Some(item.title@)
    &&& text_at(row, 2) == Some(item.deadline@)
    &&& item.overdue == (int_at(row, 3)->0 != 0)
    &&& text_at(row, 4) == Some(item.project@)
}

/// A deadline item from one row of [`deadline_items`]' query.
pub fn row_to_deadline_item(row: &Row) -> (r: Result<DeadlineItem, DbError>)
    ensures
        match r {
            Ok(item) => deadline_row(row@, item),
            Err(_) => !deadline_row_ok(row@),
        },
{
    let id = col_text(row, 0)?;
    let title = col_text(row, 1)?;
    let deadline = col_text(row, 2)?;
    let overdue = col_int(row, 3)?;
    let project = col_text(row, 4)?;
    Ok(DeadlineItem { id, title, deadline, overdue: overdue != 0, project })
}

// --- Writes to one task ------------------------------------------------------------
//
// Each write builds its statement from its arguments and hands back the
// statements it ran, in order.

pub const DELETE_TASK_SQL: &'static str = "DELETE FROM tasks WHERE id = ?1";
pub const RENAME_TASK_SQL: &'static str = "UPDATE tasks SET title = ?2 WHERE id = ?1";
pub const SET_NOTES_SQL: &'static str = "UPDATE tasks SET notes = ?2 WHERE id = ?1";
pub const SET_INITIAL_TIME_SQL: &'static str = "UPDATE tasks SET initial_time_seconds = ?2 WHERE id = ?1";
pub const SET_DEADLINE_SQL: &'static str = "UPDATE tasks SET deadline = ?2 WHERE id = ?1";
pub const CLEAR_DEADLINE_SQL: &'static str = "UPDATE tasks SET deadline = NULL WHERE id = ?1";
pub const SET_STATUS_SQL: &'static str = "UPDATE tasks
         SET status = ?2,
             completed_at = CASE WHEN ?3 THEN strftime('%Y-%m-%dT%H:%M:%S', 'now', 'localtime') ELSE NULL END
         WHERE id = ?1";
pub const SET_PROJECT_SQL: &'static str = "WITH RECURSIVE subtree(id) AS (
             SELECT ?1
           UNION ALL
             SELECT t.id FROM tasks t JOIN subtree s ON t.parent_task_id = s.id
         )
         UPDATE tasks SET project_id = ?2 WHERE id IN (SELECT id FROM subtree)";

/// Delete task `id` (its subtree and time entries cascade).
pub open spec fn delete_task_stmt(id: Seq<char>) -> StmtView {
    stmt_of(DELETE_TASK_SQL@, seq![ArgView::Text(id)])
}

/// Give task `id` the title `title`, trimmed.
pub open spec fn rename_task_stmt(id: Seq<char>, title: Seq<char>) -> StmtView {
    stmt_of(RENAME_TASK_SQL@, seq![ArgView::Text(id), ArgView::Text(trim(title))])
}

/// Give task `id` the notes `notes`, trailing whitespace cut.
pub open spec fn set_notes_stmt(id: Seq<char>, notes: Seq<char>) -> StmtView {
    stmt_of(SET_NOTES_SQL@, seq![ArgView::Text(id), ArgView::Text(trim_end(notes))])
}

/// Give task `id` the starting duration `seconds` (NULL for none).
pub open spec fn set_initial_time_stmt(id: Seq<char>, seconds: Option<i64>) -> StmtView {
    stmt_of(SET_INITIAL_TIME_SQL@, seq![ArgView::Text(id), opt_int_view(seconds)])
}

/// What setting the deadline of task `id` runs: for a date, the trimmed
/// date when it is `YYYY-MM-DD` (nothing otherwise); for none, clearing it.
pub open spec fn set_deadline_stmts(id: Seq<char>, deadline: Option<Seq<char>>) -> Seq<StmtView> {
    match deadline {
        Some(d) => if iso_date(trim(d)) {
            seq![stmt_of(SET_DEADLINE_SQL@, seq![ArgView::Text(id), ArgView::Text(trim(d))])]
        } else {
            seq![]
        },
        None => seq![stmt_of(CLEAR_DEADLINE_SQL@, seq![ArgView::Text(id)])],
    }
}

/// Give task `id` the status `status`, with the done flag that stamps or
/// clears `completed_at`.
pub open spec fn set_status_stmt(id: Seq<char>, status: TaskStatus) -> StmtView {
    stmt_of(
        SET_STATUS_SQL@,
        seq![ArgView::Text(id), ArgView::Text(status_text(status)), ArgView::Int(if status == TaskStatus::Done { 1 } else { 0 })],
    )
}

/// File task `id` and its whole subtree in `project` (NULL: unfiled).
pub open spec fn set_project_stmt(id: Seq<char>, project: Option<Seq<char>>) -> StmtView {
    stmt_of(SET_PROJECT_SQL@, seq![ArgView::Text(id), opt_text_view(project)])
}

/// The view of an optional borrowed text.
pub open spec fn opt_str_view(o: Option<&str>) -> Option<Seq<char>> {
    match o {
        Some(x) => Some(x@),
        None => None,
    }
}

/// Delete a task; subtasks (and their time entries) cascade.
pub fn delete_task(conn: &rusqlite::Connection, id: &str) -> (r: Result<Vec<Stmt>, DbError>)
    ensures
        r matches Ok(sent) ==> stmts_view(sent@) == seq![delete_task_stmt(id@)],
{
    let s = stmt(DELETE_TASK_SQL, vec![text_arg(id)]);
    proof {
        assert(s@.args =~= delete_task_stmt(id@).args);
        assert(s@ == delete_task_stmt(id@));
    }
    run(conn, &s)?;
    let sent = vec![s];
    proof {
        assert(stmts_view(sent@) =~= seq![delete_task_stmt(id@)]);
    }
    Ok(sent)
}

/// Change a task's title. `title` is trimmed.
pub fn rename_task(conn: &rusqlite::Connection, id: &str, title: &str) -> (r: Result<Vec<Stmt>, DbError>)
    ensures
        r matches Ok(sent) ==> stmts_view(sent@) == seq![rename_task_stmt(id@, title@)],
{
    let t = trim_str(title);
    let s = stmt(RENAME_TASK_SQL, vec![text_arg(id), SqlArg::Text(t)]);
    proof {
        assert(s@.args =~= rename_task_stmt(id@, title@).args);
        assert(s@ == rename_task_stmt(id@, title@));
    }
    run(conn, &s)?;
    let sent = vec![s];
    proof {
        assert(stmts_view(sent@) =~= seq![rename_task_stmt(id@, title@)]);
    }
    Ok(sent)
}

/// Set a task's free-text notes (stored verbatim, trailing whitespace
/// trimmed).
pub fn set_task_notes(conn: &rusqlite::Connection, id: &str, notes: &str) -> (r: Result<Vec<Stmt>, DbError>)
    ensures
        r matches Ok(sent) ==> stmts_view(sent@) == seq![set_notes_stmt(id@, notes@)],
{
    let v = chars_of(notes);
    let t = trim_end_vec(&v);
    let s = stmt(SET_NOTES_SQL, vec![text_arg(id), SqlArg::Text(string_of(t.as_slice()))]);
    proof {
        assert(s@.args =~= set_notes_stmt(id@, notes@).args);
        assert(s@ == set_notes_stmt(id@, notes@));
    }
    run(conn, &s)?;
    let sent = vec![s];
    proof {
        assert(stmts_view(sent@) =~= seq![set_notes_stmt(id@, notes@)]);
    }
    Ok(sent)
}

/// Set (or clear) a task's one-off starting duration. Not summed into any
/// time total; purely a display field.
pub fn set_initial_time(conn: &rusqlite::Connection, id: &str, seconds: Option<i64>) -> (r: Result<Vec<Stmt>, DbError>)
    ensures
        r matches Ok(sent) ==> stmts_view(sent@) == seq![set_initial_time_stmt(id@, seconds)],
{
    let s = stmt(SET_INITIAL_TIME_SQL, vec![text_arg(id), opt_int_arg(seconds)]);
    proof {
        assert(s@.args =~= set_initial_time_stmt(id@, seconds).args);
        assert(s@ == set_initial_time_stmt(id@, seconds));
    }
    run(conn, &s)?;
    let sent = vec![s];
    proof {
        assert(stmts_view(sent@) =~= seq![set_initial_time_stmt(id@, seconds)]);
    }
    Ok(sent)
}

/// Set (`Some("YYYY-MM-DD")`, trimmed) or clear (`None`) a task's deadline.
/// A malformed date string is ignored.
pub fn set_task_deadline(conn: &rusqlite::Connection, id: &str, deadline: Option<&str>) -> (r: Result<Vec<Stmt>, DbError>)
    ensures
        deadline matches Some(d) && !iso_date(trim(d@)) ==> (r matches Ok(sent) && sent@.len() == 0),
        r matches Ok(sent) ==> stmts_view(sent@) == set_deadline_stmts(id@, opt_str_view(deadline)),
{
    let mut sent: Vec<Stmt> = Vec::new();
    match deadline {
        Some(d) => {
            let t = trim_str(d);
            if is_iso_date(t.as_str()) {
                let s = stmt(SET_DEADLINE_SQL, vec![text_arg(id), SqlArg::Text(t)]);
                proof {
                    assert(s@.args =~= seq![ArgView::Text(id@), ArgView::Text(trim(d@))]);
                }
                run(conn, &s)?;
                sent.push(s);
            }
        },
        None => {
            let s = stmt(CLEAR_DEADLINE_SQL, vec![text_arg(id)]);
            proof {
                assert(s@.args =~= seq![ArgView::Text(id@)]);
            }
            run(conn, &s)?;
            sent.push(s);
        },
    }
    proof {
        assert(stmts_view(sent@) =~= set_deadline_stmts(id@, opt_str_view(deadline)));
    }
    Ok(sent)
}

/// Set a task's status, stamping `completed_at` with the current local time
/// when it becomes done and clearing it otherwise.
pub fn set_task_status(conn: &rusqlite::Connection, id: &str, status: TaskStatus) -> (r: Result<Vec<Stmt>, DbError>)
    ensures
        r matches Ok(sent) ==> stmts_view(sent@) == seq![set_status_stmt(id@, status)],
{
    let done: i64 = if status == TaskStatus::Done { 1 } else { 0 };
    let s = stmt(SET_STATUS_SQL, vec![text_arg(id), text_arg(status.as_str()), SqlArg::Int(done)]);
    proof {
        assert(s@.args =~= set_status_stmt(id@, status).args);
        assert(s@ == set_status_stmt(id@, status));
    }
    run(conn, &s)?;
    let sent = vec![s];
    proof {
        assert(stmts_view(sent@) =~= seq![set_status_stmt(id@, status)]);
    }
    Ok(sent)
}

/// Move a task - and its whole subtree, so a subtree never spans projects -
/// to `project_id` (or to unfiled when `None`).
pub fn set_task_project(conn: &rusqlite::Connection, task_id: &str, project_id: Option<&str>) -> (r: Result<Vec<Stmt>, DbError>)
    ensures
        r matches Ok(sent) ==> stmts_view(sent@) == seq![set_project_stmt(task_id@, opt_str_view(project_id))],
{
    let s = stmt(SET_PROJECT_SQL, vec![text_arg(task_id), opt_text_arg(project_id)]);
    proof {
        assert(s@.args =~= set_project_stmt(task_id@, opt_str_view(project_id)).args);
        assert(s@ == set_project_stmt(task_id@, opt_str_view(project_id)));
    }
    run(conn, &s)?;
    let sent = vec![s];
    proof {
        assert(stmts_view(sent@) =~= seq![set_project_stmt(task_id@, opt_str_view(project_id))]);
    }
    Ok(sent)
}

/// Equality of two texts.
pub fn same_text(a: &str, b: &str) -> (r: bool)
    ensures
        r == (a@ == b@),
{
    let x = chars_of(a);
    let y = chars_of(b);
    crate::text::chars_eq(x.as_slice(), y.as_slice())
}

/// Whether `task_id` may be re-parented under `new_parent` - both must
/// exist, they must differ, and `new_parent` must not sit inside
/// `task_id`'s subtree (which would make a cycle).
pub fn can_reparent(conn: &rusqlite::Connection, task_id: &str, new_parent: &str) -> (r: Result<bool, DbError>)
    ensures
        task_id@ == new_parent@ ==> r == Ok::<bool, DbError>(false),
{
    if same_text(task_id, new_parent) {
        return Ok(false);
    }
    let row = query_one(
        conn,
        "WITH RECURSIVE subtree(id) AS (
             SELECT ?1
           UNION ALL
             SELECT t.id FROM tasks t JOIN subtree s ON t.parent_task_id = s.id
         )
         SELECT EXISTS(SELECT 1 FROM subtree WHERE id = ?2)",
        vec![text_arg(task_id), text_arg(new_parent)],
    )?;
    let in_subtree = col_int(&row, 0)?;
    if in_subtree != 0 {
        return Ok(false);
    }
    let row = query_one(
        conn,
        "SELECT EXISTS(SELECT 1 FROM tasks WHERE id = ?1)
             AND EXISTS(SELECT 1 FROM tasks WHERE id = ?2)",
        vec![text_arg(task_id), text_arg(new_parent)],
    )?;
    let both = col_int(&row, 0)?;
    Ok(both != 0)
}

/// Re-parent `task_id` (with its whole subtree) under `new_parent`: sets
/// its parent, places it last among the new parent's children, and carries
/// the new parent's project down the subtree. A no-op when
/// [`can_reparent`] rejects the move.
pub fn reparent_task(conn: &rusqlite::Connection, task_id: &str, new_parent: &str) -> (r: Result<Vec<Stmt>, DbError>)
    ensures
        task_id@ == new_parent@ ==> (r matches Ok(sent) && sent@.len() == 0),
        r matches Ok(sent) ==> reparent_sent(stmts_view(sent@), task_id@, new_parent@),
{
    if !can_reparent(conn, task_id, new_parent)? {
        proof {
            assert(stmts_view(Seq::<Stmt>::empty()) =~= Seq::<StmtView>::empty());
        }
        return Ok(Vec::new());
    }
    let s = stmt(REPARENT_SQL, vec![text_arg(task_id), text_arg(new_parent)]);
    proof {
        assert(s@.args =~= reparent_stmt(task_id@, new_parent@).args);
    }
    run(conn, &s)?;
    // Subtasks inherit their parent's project.
    let row = query_one(conn, "SELECT project_id FROM tasks WHERE id = ?1", vec![text_arg(new_parent)])?;
    let project = col_opt_text(&row, 0)?;
    let more = set_task_project(conn, task_id, opt_str(&project))?;
    let ghost sv = s@;
    let ghost mv = more@;
    let mut sent = vec![s];
    let mut more = more;
    sent.append(&mut more);
    proof {
        assert(stmts_view(sent@) =~= seq![sv] + stmts_view(mv));
        assert(stmts_view(sent@) == seq![reparent_stmt(task_id@, new_parent@), set_project_stmt(task_id@, opt_view(project))]);
    }
    Ok(sent)
}

pub const REPARENT_SQL: &'static str = "UPDATE tasks
         SET parent_task_id = ?2,
             sort_order = (SELECT COALESCE(MAX(sort_order), 0) + 1.0 FROM tasks WHERE parent_task_id = ?2)
         WHERE id = ?1";

/// Put task `id` last under `parent`.
pub open spec fn reparent_stmt(id: Seq<char>, parent: Seq<char>) -> StmtView {
    stmt_of(REPARENT_SQL@, seq![ArgView::Text(id), ArgView::Text(parent)])
}

/// What re-parenting task `id` under `parent` writes: nothing when the move
/// is refused; else the move, then the parent's project carried down the
/// subtree.
pub open spec fn reparent_sent(sent: Seq<StmtView>, id: Seq<char>, parent: Seq<char>) -> bool {
    sent.len() == 0 || exists|project: Option<Seq<char>>|
        sent == seq![reparent_stmt(id, parent), #[trigger] set_project_stmt(id, project)]
}

// --- Projects -----------------------------------------------------------------------

/// Columns `0..5` of `row` have the types of a project row.
pub open spec fn project_row_ok(row: Seq<crate::sql::SqlValue>) -> bool {
    &&& text_at(row, 0) is Some
    &&& text_at(row, 1) is Some
    &&& int_at(row, 2) is Some
    &&& int_at(row, 3) is Some
    &&& text_at(row, 4) is Some
}

/// A project from `id, name, tracked, archived, created_at`.
pub fn row_to_project(row: &Row) -> (r: Result<Project, DbError>)
    ensures
        match r {
            Ok(p) => text_at(row@, 0) == Some(p.id@) && text_at(row@, 1) == Some(p.name@) && p.track
                == (int_at(row@, 2)->0 != 0) && p.archived == (int_at(row@, 3)->0 != 0) && text_at(
                row@,
                4,
            ) == Some(p.created_at@) && project_row_ok(row@),
            Err(_) => !project_row_ok(row@),
        },
{
    let id = col_text(row, 0)?;
    let name = col_text(row, 1)?;
    let track_flag = col_int(row, 2)?;
    let archived = col_int(row, 3)?;
    let created_at = col_text(row, 4)?;
    Ok(Project { id, name, track: track_flag != 0, archived: archived != 0, created_at })
}

/// Create a project. `name` is trimmed; the caller rejects blanks.
pub fn create_project(conn: &rusqlite::Connection, name: &str) -> (r: Result<Project, DbError>) {
    let (p, _id, _sent) = create_project_sent(conn, name)?;
    Ok(p)
}

pub const INSERT_PROJECT_SQL: &'static str = "INSERT INTO projects (id, name, created_at)
         VALUES (?1, ?2, strftime('%Y-%m-%dT%H:%M:%S', 'now', 'localtime'))";

/// Insert project `id` named `name`, trimmed, created now.
pub open spec fn insert_project_stmt(id: Seq<char>, name: Seq<char>) -> StmtView {
    stmt_of(INSERT_PROJECT_SQL@, seq![ArgView::Text(id), ArgView::Text(trim(name))])
}

/// [`create_project`], also giving back the new project's id and the
/// statement that inserted it.
pub fn create_project_sent(conn: &rusqlite::Connection, name: &str) -> (r: Result<(Project, String, Vec<Stmt>), DbError>)
    ensures
        r matches Ok((_p, id, sent)) ==> stmts_view(sent@) == seq![insert_project_stmt(id@, name@)],
{
    let id = new_id();
    let n = trim_str(name);
    let s = stmt(INSERT_PROJECT_SQL, vec![text_arg(id.as_str()), SqlArg::Text(n)]);
    proof {
        assert(s@.args =~= insert_project_stmt(id@, name@).args);
        assert(s@ == insert_project_stmt(id@, name@));
    }
    run(conn, &s)?;
    let ghost sv = s@;
    let sent = vec![s];
    proof {
        assert(stmts_view(sent@) =~= seq![sv]);
    }
    match get_project(conn, id.as_str())? {
        Some(p) => Ok((p, id, sent)),
        None => Err(DbError::Missing),
    }
}

/// Fetch one project by id.
pub fn get_project(conn: &rusqlite::Connection, id: &str) -> (r: Result<Option<Project>, DbError>) {
    let row = query_opt(
        conn,
        "SELECT id, name, tracked, archived, created_at FROM projects WHERE id = ?1",
        vec![text_arg(id)],
    )?;
    match row {
        Some(row) => Ok(Some(row_to_project(&row)?)),
        None => Ok(None),
    }
}

/// All non-archived projects, ordered by name (ignoring case), then age.
pub fn list_projects(conn: &rusqlite::Connection) -> (r: Result<Vec<Project>, DbError>) {
    let rows = query(
        conn,
        "SELECT id, name, tracked, archived, created_at FROM projects
         WHERE archived = 0
         ORDER BY name COLLATE NOCASE, created_at",
        vec![],
    )?;
    let mut out: Vec<Project> = Vec::new();
    let mut k: usize = 0;
    while k < rows.len()
        invariant
            k <= rows.len(),
        decreases rows.len() - k,
    {
        out.push(row_to_project(&rows[k])?);
        k += 1;
    }
    Ok(out)
}

/// Rename a project. `name` is trimmed.
pub fn rename_project(conn: &rusqlite::Connection, id: &str, name: &str) -> (r: Result<(), DbError>) {
    let n = trim_str(name);
    execute(conn, "UPDATE projects SET name = ?2 WHERE id = ?1", vec![text_arg(id), SqlArg::Text(n)])?;
    Ok(())
}

pub const DELETE_PROJECT_SQL: &'static str = "DELETE FROM projects WHERE id = ?1";

/// Delete project `id`.
pub open spec fn delete_project_stmt(id: Seq<char>) -> StmtView {
    stmt_of(DELETE_PROJECT_SQL@, seq![ArgView::Text(id)])
}

/// Delete a project. Its tasks are kept and become unfiled
/// (`tasks.project_id` is `ON DELETE SET NULL`).
pub fn delete_project(conn: &rusqlite::Connection, id: &str) -> (r: Result<Vec<Stmt>, DbError>)
    ensures
        r matches Ok(sent) ==> stmts_view(sent@) == seq![delete_project_stmt(id@)],
{
    let s = stmt(DELETE_PROJECT_SQL, vec![text_arg(id)]);
    proof {
        assert(s@.args =~= delete_project_stmt(id@).args);
        assert(s@ == delete_project_stmt(id@));
    }
    run(conn, &s)?;
    let sent = vec![s];
    proof {
        assert(stmts_view(sent@) =~= seq![delete_project_stmt(id@)]);
    }
    Ok(sent)
}

} // verus!
