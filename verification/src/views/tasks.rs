//! The task list: the task tree of the current scope, flattened to the rows
//! on show, with collapsing, multi-select and the task actions.
//!
//! The full tree (pre-ordered, from SQLite) is kept in memory; the rows on
//! show are the subset whose ancestors are all expanded, recomputed whenever
//! the collapsed set changes. Every action writes SQLite first, logs itself
//! to the revert log, then reloads.
use vstd::prelude::*;
use crate::db::actions::{
    capture_and_log_delete, capture_project_ids, log_create_task, log_record, log_rename_task,
    log_set_deadline, log_set_notes, log_set_project,
};
use crate::journal::{
    create_payload, create_record, deadline_payload, notes_payload, pairs_view, project_payload, quote,
    rename_payload, reparent_payload, reparent_record, status_payload, status_record, ActionRecord,
};
use crate::sql::{stmts_view, ArgView, Stmt, StmtView};
use crate::db::entries::{has_subtasks_query, has_subtasks_read, seconds_query, task_seconds_read};
use crate::db::actions::{insert_action_stmt, INSERT_ACTION_SQL};
use crate::db::{
    deadlined_query, deadlined_stmt, finished_query, finished_stmt, list_flat_by, list_tree_by, tree_query, tree_stmt,
    create_task_sent, delete_task_stmt, inserts_task, rename_task_stmt, reparent_sent, set_deadline_stmts, set_notes_stmt,
    set_project_stmt, set_status_stmt,
};
use crate::db::{
    create_task, delete_task, depths, get_project, get_task, has_subtasks, list_deadlined_tree,
    list_finished_tasks, list_task_tree, opt_str, rename_task, reparent_task, same_text,
    scope_seconds, set_task_deadline, set_task_notes, set_task_project, set_task_status,
    task_seconds, TaskNode,
};
use crate::domain::{opt_view, ProjectFilter, Task, TaskStatus};
use crate::format::{human_hm, human_hm_spec};
use crate::text::{push_str, string_of, trim, trim_end, trim_str};
use crate::views::visible::{nats, visible_rows, visible_upto};

verus! {

/// The `projectFilter` value of the completed-tasks list.
pub const FINISHED: &'static str = "finished";

/// The `projectFilter` value of the deadline-bearing subset of the tree.
pub const DEADLINED: &'static str = "deadlined";

/// Texts of a list of ids.
pub open spec fn ids_view(v: Seq<String>) -> Seq<Seq<char>> {
    v.map_values(|s: String| s@)
}

/// The ids of a tree's tasks, in order.
pub open spec fn tree_ids(tree: Seq<TaskNode>) -> Seq<Seq<char>> {
    tree.map_values(|n: TaskNode| n.task.id@)
}

/// Which rows are folded: they have children and their id is collapsed.
pub open spec fn folded(tree: Seq<TaskNode>, collapsed: Seq<Seq<char>>) -> Seq<bool> {
    Seq::new(tree.len(), |k: int| tree[k].has_children && collapsed.contains(tree[k].task.id@))
}

/// The rows on show of a tree with the given collapsed ids.
pub open spec fn shown(tree: Seq<TaskNode>, collapsed: Seq<Seq<char>>) -> Seq<nat> {
    visible_upto(depths(tree), folded(tree, collapsed), tree.len())
}

/// Whether `id` is in the list.
pub fn contains_id(v: &Vec<String>, id: &str) -> (b: bool)
    ensures
        b == ids_view(v@).contains(id@),
{
    let mut k: usize = 0;
    while k < v.len()
        invariant
            k <= v.len(),
            forall|m: int| 0 <= m < k ==> v@[m]@ != id@,
        decreases v.len() - k,
    {
        if same_text(v[k].as_str(), id) {
            proof {
                assert(ids_view(v@)[k as int] == id@);
            }
            return true;
        }
        k += 1;
    }
    proof {
        if ids_view(v@).contains(id@) {
            let m = choose|m: int| 0 <= m < ids_view(v@).len() && ids_view(v@)[m] == id@;
            assert(v@[m]@ == id@);
        }
    }
    false
}

/// Interpret a `projectFilter` value as a project scope: `""` is every
/// task, `"unfiled"` the tasks without a project, anything else a project
/// id. (The special list values are handled before this point.)
pub fn parse_filter(s: &str) -> (r: ProjectFilter)
    ensures
        match r {
            ProjectFilter::All => s@.len() == 0,
            ProjectFilter::Unfiled => s@ == "unfiled"@,
            ProjectFilter::Only(id) => id@ == s@ && s@.len() != 0 && s@ != "unfiled"@,
        },
{
    if s.unicode_len() == 0 {
        ProjectFilter::All
    } else if same_text(s, "unfiled") {
        ProjectFilter::Unfiled
    } else {
        ProjectFilter::Only(s.to_owned())
    }
}

/// The rows of `tree` on show when the ids in `collapsed` are collapsed: a
/// collapsed row stays visible, its descendants do not.
pub fn compute_visible(tree: &Vec<TaskNode>, collapsed: &Vec<String>) -> (r: Vec<usize>)
    ensures
        nats(r@) == shown(tree@, ids_view(collapsed@)),
{
    let ghost c = ids_view(collapsed@);
    let mut d: Vec<u32> = Vec::new();
    let mut f: Vec<bool> = Vec::new();
    let mut k: usize = 0;
    while k < tree.len()
        invariant
            k <= tree.len(),
            c == ids_view(collapsed@),
            d@ == depths(tree@).take(k as int),
            f@ == folded(tree@, c).take(k as int),
        decreases tree.len() - k,
    {
        let node = &tree[k];
        d.push(node.depth);
        let fold = node.has_children && contains_id(collapsed, node.task.id.as_str());
        f.push(fold);
        k += 1;
        proof {
            assert(d@ =~= depths(tree@).take(k as int));
            assert(f@ =~= folded(tree@, c).take(k as int));
        }
    }
    proof {
        assert(d@ =~= depths(tree@));
        assert(f@ =~= folded(tree@, c));
    }
    visible_rows(&d, &f)
}


proof fn lemma_push_distinct(s: Seq<Seq<char>>, a: Seq<char>)
    requires
        s.no_duplicates(),
        !s.contains(a),
    ensures
        s.push(a).no_duplicates(),
        forall|x: Seq<char>| #[trigger] s.push(a).contains(x) <==> (s.contains(x) || x == a),
{
    let t = s.push(a);
    assert forall|i: int, j: int| 0 <= i < t.len() && 0 <= j < t.len() && i != j implies t[i] != t[j] by {
        if i < s.len() && j < s.len() {
            assert(t[i] == s[i] && t[j] == s[j]);
        } else if i < s.len() {
            assert(t[i] == s[i]);
        } else {
            assert(t[j] == s[j]);
        }
    }
    assert forall|x: Seq<char>| #[trigger] t.contains(x) <==> (s.contains(x) || x == a) by {
        if t.contains(x) && x != a {
            let m = choose|m: int| 0 <= m < t.len() && t[m] == x;
            assert(s[m] == x);
        }
        if s.contains(x) {
            let m = choose|m: int| 0 <= m < s.len() && s[m] == x;
            assert(t[m] == x);
        }
        if x == a {
            assert(t[s.len() as int] == a);
        }
    }
}

proof fn lemma_remove_distinct(s: Seq<Seq<char>>, at: int)
    requires
        s.no_duplicates(),
        0 <= at < s.len(),
    ensures
        s.remove(at).no_duplicates(),
        forall|x: Seq<char>| #[trigger] s.remove(at).contains(x) <==> (s.contains(x) && x != s[at]),
{
    let t = s.remove(at);
    assert forall|i: int, j: int| 0 <= i < t.len() && 0 <= j < t.len() && i != j implies t[i] != t[j] by {
        let oi = if i < at { i } else { i + 1 };
        let oj = if j < at { j } else { j + 1 };
        assert(t[i] == s[oi] && t[j] == s[oj]);
    }
    assert forall|x: Seq<char>| #[trigger] t.contains(x) <==> (s.contains(x) && x != s[at]) by {
        if t.contains(x) {
            let m = choose|m: int| 0 <= m < t.len() && t[m] == x;
            let om = if m < at { m } else { m + 1 };
            assert(s[om] == x);
            assert(om != at);
        }
        if s.contains(x) && x != s[at] {
            let m = choose|m: int| 0 <= m < s.len() && s[m] == x;
            assert(m != at);
            if m < at {
                assert(t[m] == x);
            } else {
                assert(t[m - 1] == x);
            }
        }
    }
}

/// The ids of `ids` that are also ids of `tree`, in their order.
fn keep_live(ids: &Vec<String>, tree: &Vec<TaskNode>) -> (r: Vec<String>)
    requires
        ids_view(ids@).no_duplicates(),
    ensures
        ids_view(r@).no_duplicates(),
        forall|x: Seq<char>| #[trigger] ids_view(r@).contains(x) <==> (ids_view(ids@).contains(x) && tree_ids(tree@).contains(x)),
{
    let mut tids: Vec<String> = Vec::new();
    let mut j: usize = 0;
    while j < tree.len()
        invariant
            j <= tree.len(),
            ids_view(tids@) == tree_ids(tree@).take(j as int),
        decreases tree.len() - j,
    {
        let id = tree[j].task.id.clone();
        let ghost prev = tids@;
        proof {
            assert(id@ == tree_ids(tree@)[j as int]);
        }
        tids.push(id);
        proof {
            assert(tids@ == prev.push(id));
            assert(ids_view(tids@) =~= ids_view(prev).push(id@));
            assert(tree_ids(tree@).take(j + 1) =~= tree_ids(tree@).take(j as int).push(id@));
        }
        j += 1;
    }
    proof {
        assert(ids_view(tids@) =~= tree_ids(tree@));
    }
    let mut out: Vec<String> = Vec::new();
    let mut k: usize = 0;
    while k < ids.len()
        invariant
            k <= ids.len(),
            ids_view(tids@) == tree_ids(tree@),
            ids_view(ids@).no_duplicates(),
            ids_view(out@).no_duplicates(),
            forall|x: Seq<char>| #[trigger] ids_view(out@).contains(x) <==> (ids_view(ids@).take(k as int).contains(x) && tree_ids(tree@).contains(x)),
        decreases ids.len() - k,
    {
        let ghost before = ids_view(out@);
        let ghost prefix = ids_view(ids@).take(k as int);
        let ghost cur = ids@[k as int]@;
        proof {
            assert(ids_view(ids@)[k as int] == cur);
            assert(ids_view(ids@).take(k + 1) =~= prefix.push(cur));
            assert(!prefix.contains(cur)) by {
                if prefix.contains(cur) {
                    let m = choose|m: int| 0 <= m < prefix.len() && prefix[m] == cur;
                    assert(ids_view(ids@)[m] == ids_view(ids@)[k as int]);
                }
            }
            assert forall|x: Seq<char>| #[trigger] prefix.push(cur).contains(x) <==> (prefix.contains(x) || x == cur) by {
                let t = prefix.push(cur);
                if t.contains(x) && x != cur {
                    let m = choose|m: int| 0 <= m < t.len() && t[m] == x;
                    assert(prefix[m] == x);
                }
                if prefix.contains(x) {
                    let m = choose|m: int| 0 <= m < prefix.len() && prefix[m] == x;
                    assert(t[m] == x);
                }
                if x == cur {
                    assert(t[prefix.len() as int] == cur);
                }
            }
        }
        if contains_id(&tids, ids[k].as_str()) {
            let id = ids[k].clone();
            out.push(id);
            proof {
                assert(ids_view(out@) =~= before.push(cur));
                assert(!before.contains(cur));
                lemma_push_distinct(before, cur);
            }
        }
        k += 1;
    }
    proof {
        assert(ids_view(ids@).take(ids.len() as int) =~= ids_view(ids@));
    }
    out
}

/// Remove `id` from a list holding it at most once, or add it when absent.
fn toggle_id(v: &mut Vec<String>, id: &str)
    requires
        ids_view(old(v)@).no_duplicates(),
    ensures
        ids_view(final(v)@).no_duplicates(),
        forall|x: Seq<char>| #[trigger] ids_view(final(v)@).contains(x) <==> (if x == id@ {
            !ids_view(old(v)@).contains(x)
        } else {
            ids_view(old(v)@).contains(x)
        }),
{
    let ghost before = ids_view(v@);
    let mut k: usize = 0;
    while k < v.len()
        invariant
            k <= v.len(),
            before == ids_view(v@),
            before == ids_view(old(v)@),
            before.no_duplicates(),
            forall|m: int| 0 <= m < k ==> v@[m]@ != id@,
        decreases v.len() - k,
    {
        if same_text(v[k].as_str(), id) {
            let ghost at = k as int;
            v.remove(k);
            proof {
                assert(ids_view(v@) =~= before.remove(at));
                assert(before[at] == id@);
                lemma_remove_distinct(before, at);
                assert forall|x: Seq<char>| #[trigger] ids_view(v@).contains(x) <==> (if x == id@ {
                    !before.contains(x)
                } else {
                    before.contains(x)
                }) by {
                    assert(before.remove(at).contains(x) <==> (before.contains(x) && x != before[at]));
                    if x == id@ {
                        assert(before[at] == x);
                    }
                }
            }
            return;
        }
        k += 1;
    }
    proof {
        assert(!before.contains(id@)) by {
            if before.contains(id@) {
                let m = choose|m: int| 0 <= m < before.len() && before[m] == id@;
                assert(v@[m]@ == id@);
            }
        }
    }
    v.push(id.to_owned());
    proof {
        assert(ids_view(v@) =~= before.push(id@));
        lemma_push_distinct(before, id@);
    }
}


/// The task list's state: the tree of the current scope and what is on show
/// of it.
pub struct TaskListModel {
    conn: rusqlite::Connection,
    /// `""` for active tasks, `"unfiled"` for active tasks without a
    /// project, [`FINISHED`] for the completed list, [`DEADLINED`] for the
    /// deadline-bearing tree, otherwise a project id.
    project_filter: String,
    /// Completed tasks also show in the tree views.
    show_done: bool,
    /// Time recorded across the current scope (blank on the special lists).
    view_total_text: String,
    /// Rows show a tick box for mass delete / revert.
    selection_mode: bool,
    /// How many rows are ticked.
    selected_count: i32,
    /// Bumps on every reload.
    data_version: i32,
    tree: Vec<TaskNode>,
    visible: Vec<usize>,
    collapsed: Vec<String>,
    selected: Vec<String>,
    /// Every statement this list has handed to SQLite to change data or to
    /// log an action, in order.
    written: Ghost<Seq<StmtView>>,
    /// The query the tree on show was read with.
    read_with: Ghost<StmtView>,
}

impl TaskListModel {
    /// The list's internal consistency: the rows on show are those of the
    /// tree with its collapsed ids folded, the id lists hold no repeats, and
    /// the ticked count is the number of ticked ids.
    pub closed spec fn wf(&self) -> bool {
        &&& nats(self.visible@) == shown(self.tree@, ids_view(self.collapsed@))
        &&& ids_view(self.collapsed@).no_duplicates()
        &&& ids_view(self.selected@).no_duplicates()
        &&& self.selected_count == self.selected.len() as i32
    }

    /// The whole tree of the current scope, pre-ordered.
    pub closed spec fn nodes(&self) -> Seq<TaskNode> {
        self.tree@
    }

    /// The rows on show, in order.
    pub closed spec fn rows(&self) -> Seq<TaskNode> {
        Seq::new(self.visible.len() as nat, |k: int| self.tree@[self.visible@[k] as int])
    }

    /// Whether the task with this id is collapsed.
    pub closed spec fn is_collapsed(&self, id: Seq<char>) -> bool {
        ids_view(self.collapsed@).contains(id)
    }

    /// Whether the task with this id is ticked.
    pub closed spec fn is_selected(&self, id: Seq<char>) -> bool {
        ids_view(self.selected@).contains(id)
    }

    /// How many tasks are ticked.
    pub closed spec fn selection_size(&self) -> nat {
        self.selected.len() as nat
    }

    /// The time total of the scope on show, as text.
    pub closed spec fn total_view_text(&self) -> Seq<char> {
        self.view_total_text@
    }

    /// The scope filter text.
    pub closed spec fn filter_text(&self) -> Seq<char> {
        self.project_filter@
    }

    /// Whether completed tasks show.
    pub closed spec fn done_shown(&self) -> bool {
        self.show_done
    }

    /// Whether multi-select is on.
    pub closed spec fn selecting(&self) -> bool {
        self.selection_mode
    }

    /// Every statement this list has handed to SQLite to change data or to
    /// log an action, in order (reads are not listed).
    pub closed spec fn written(&self) -> Seq<StmtView> {
        self.written@
    }

    /// The query the tree on show was read with.
    pub closed spec fn read_query(&self) -> StmtView {
        self.read_with@
    }

    /// The reload counter.
    pub closed spec fn version(&self) -> i32 {
        self.data_version
    }

    /// Facts of a reload: the kept collapsed and ticked ids are the old ones
    /// still in the new tree, the counter moved on by one, the scope
    /// settings are unchanged, and the special lists show no time total.
    pub open spec fn reloaded_from(&self, before: &Self) -> bool {
        &&& forall|x: Seq<char>| #[trigger] self.is_collapsed(x) <==> (before.is_collapsed(x) && tree_ids(self.nodes()).contains(x))
        &&& forall|x: Seq<char>| #[trigger] self.is_selected(x) <==> (before.is_selected(x) && tree_ids(self.nodes()).contains(x))
        &&& self.version() == before.version().wrapping_add(1)
        &&& self.filter_text() == before.filter_text()
        &&& self.done_shown() == before.done_shown()
        &&& self.selecting() == before.selecting()
        &&& (before.filter_text() == FINISHED@ || before.filter_text() == DEADLINED@) ==> self.total_view_text().len() == 0
        &&& scope_read(self.read_query(), before.filter_text(), before.done_shown())
    }

    /// Everything on show is as in `before`; only [`TaskListModel::written`]
    /// may have grown.
    pub open spec fn same_view(&self, before: &Self) -> bool {
        &&& self.nodes() == before.nodes()
        &&& self.rows() == before.rows()
        &&& forall|x: Seq<char>| #[trigger] self.is_collapsed(x) == before.is_collapsed(x)
        &&& forall|x: Seq<char>| #[trigger] self.is_selected(x) == before.is_selected(x)
        &&& self.selection_size() == before.selection_size()
        &&& self.total_view_text() == before.total_view_text()
        &&& self.filter_text() == before.filter_text()
        &&& self.done_shown() == before.done_shown()
        &&& self.selecting() == before.selecting()
        &&& self.version() == before.version()
        &&& self.read_query() == before.read_query()
    }

    /// [`TaskListModel::reloaded_from`], with the task `id` expanded first.
    pub open spec fn reloaded_opening(&self, before: &Self, id: Seq<char>) -> bool {
        &&& forall|x: Seq<char>| #[trigger] self.is_collapsed(x) <==> (before.is_collapsed(x) && x != id && tree_ids(self.nodes()).contains(x))
        &&& forall|x: Seq<char>| #[trigger] self.is_selected(x) <==> (before.is_selected(x) && tree_ids(self.nodes()).contains(x))
        &&& self.version() == before.version().wrapping_add(1)
        &&& self.filter_text() == before.filter_text()
        &&& self.done_shown() == before.done_shown()
        &&& self.selecting() == before.selecting()
        &&& (before.filter_text() == FINISHED@ || before.filter_text() == DEADLINED@) ==> self.total_view_text().len() == 0
        &&& scope_read(self.read_query(), before.filter_text(), before.done_shown())
    }

    /// [`TaskListModel::reloaded_from`], with every tick cleared and
    /// multi-select left first.
    pub open spec fn reloaded_unticked(&self, before: &Self) -> bool {
        &&& forall|x: Seq<char>| #[trigger] self.is_collapsed(x) <==> (before.is_collapsed(x) && tree_ids(self.nodes()).contains(x))
        &&& forall|x: Seq<char>| !(#[trigger] self.is_selected(x))
        &&& self.version() == before.version().wrapping_add(1)
        &&& self.filter_text() == before.filter_text()
        &&& self.done_shown() == before.done_shown()
        &&& !self.selecting()
        &&& (before.filter_text() == FINISHED@ || before.filter_text() == DEADLINED@) ==> self.total_view_text().len() == 0
        &&& scope_read(self.read_query(), before.filter_text(), before.done_shown())
    }

    /// Open the list on `conn`: active tasks of every project, nothing
    /// collapsed or ticked.
    pub fn new(conn: rusqlite::Connection) -> (r: Self)
        ensures
            r.wf(),
            r.filter_text().len() == 0,
            !r.done_shown(),
            !r.selecting(),
            r.selection_size() == 0,
            r.version() == 0,
            forall|x: Seq<char>| !#[trigger] r.is_collapsed(x),
            r.written().len() == 0,
            r.read_query() == tree_query(ProjectFilter::All, false),
    {
        let tree = match list_task_tree(&conn, &ProjectFilter::All, false) {
            Ok(t) => t,
            Err(_) => Vec::new(),
        };
        let collapsed: Vec<String> = Vec::new();
        let visible = compute_visible(&tree, &collapsed);
        let total = match scope_seconds(&conn, &ProjectFilter::All) {
            Ok(s) => s,
            Err(_) => 0,
        };
        let r = TaskListModel {
            conn,
            project_filter: String::new(),
            show_done: false,
            view_total_text: human_hm(total),
            selection_mode: false,
            selected_count: 0,
            data_version: 0,
            tree,
            visible,
            collapsed,
            selected: Vec::new(),
            written: Ghost(Seq::empty()),
            read_with: Ghost(tree_query(ProjectFilter::All, false)),
        };
        proof {
            assert(ids_view(r.collapsed@) =~= Seq::<Seq<char>>::empty());
            assert(ids_view(r.selected@) =~= Seq::<Seq<char>>::empty());
        }
        r
    }

    /// The scope filter.
    pub fn project_filter(&self) -> (r: &str)
        ensures
            r@ == self.filter_text(),
    {
        self.project_filter.as_str()
    }

    /// Whether completed tasks show.
    pub fn show_done(&self) -> (r: bool)
        ensures
            r == self.done_shown(),
    {
        self.show_done
    }

    /// The scope's time total, as text.
    pub fn view_total_text(&self) -> (r: &str)
        ensures
            r@ == self.total_view_text(),
    {
        self.view_total_text.as_str()
    }

    /// Whether multi-select is on.
    pub fn selection_mode(&self) -> (r: bool)
        ensures
            r == self.selecting(),
    {
        self.selection_mode
    }

    /// How many rows are ticked.
    pub fn selected_count(&self) -> (r: i32)
        requires
            self.wf(),
        ensures
            r == self.selection_size() as i32,
    {
        self.selected_count
    }

    /// The reload counter.
    pub fn data_version(&self) -> (r: i32)
        ensures
            r == self.version(),
    {
        self.data_version
    }

    /// How many rows are on show.
    pub fn row_count(&self) -> (r: usize)
        ensures
            r == self.rows().len(),
    {
        self.visible.len()
    }

    /// The node on show at `row`.
    pub fn node_at(&self, row: i32) -> (r: Option<&TaskNode>)
        requires
            self.wf(),
        ensures
            match r {
                Some(n) => 0 <= row < self.rows().len() && *n == self.rows()[row as int],
                None => !(0 <= row < self.rows().len()),
            },
    {
        if row < 0 {
            return None;
        }
        let k = row as usize;
        if k >= self.visible.len() {
            return None;
        }
        proof {
            crate::views::visible::lemma_visible_rows_exact(
                depths(self.tree@),
                folded(self.tree@, ids_view(self.collapsed@)),
                self.tree.len() as nat,
            );
            assert(nats(self.visible@)[k as int] == self.visible@[k as int] as nat);
        }
        let idx = self.visible[k];
        Some(&self.tree[idx])
    }

    /// The id of the task on show at `row`.
    pub fn id_at(&self, row: i32) -> (r: Option<String>)
        requires
            self.wf(),
        ensures
            match r {
                Some(id) => 0 <= row < self.rows().len() && id@ == self.rows()[row as int].task.id@,
                None => !(0 <= row < self.rows().len()),
            },
    {
        match self.node_at(row) {
            Some(n) => Some(n.task.id.clone()),
            None => None,
        }
    }

    /// Whether the row on show at `row` has children and is expanded.
    pub fn row_expanded(&self, row: i32) -> (r: bool)
        requires
            self.wf(),
        ensures
            r == (0 <= row < self.rows().len() && self.rows()[row as int].has_children
                && !self.is_collapsed(self.rows()[row as int].task.id@)),
    {
        match self.node_at(row) {
            Some(n) => n.has_children && !contains_id(&self.collapsed, n.task.id.as_str()),
            None => false,
        }
    }

    /// Whether the row on show at `row` is ticked.
    pub fn row_selected(&self, row: i32) -> (r: bool)
        requires
            self.wf(),
        ensures
            r == (0 <= row < self.rows().len() && self.is_selected(self.rows()[row as int].task.id@)),
    {
        match self.node_at(row) {
            Some(n) => contains_id(&self.selected, n.task.id.as_str()),
            None => false,
        }
    }

    /// The row's tree-guide columns as `'1'` (a guide line is drawn) and
    /// `'0'`; empty when there is no such row.
    pub fn branch_mask(&self, row: i32) -> (r: String)
        requires
            self.wf(),
        ensures
            0 <= row < self.rows().len() ==> r@ == self.rows()[row as int].branch_more@.map_values(
                |b: bool| if b { '1' } else { '0' },
            ),
            !(0 <= row < self.rows().len()) ==> r@.len() == 0,
    {
        let mut out: Vec<char> = Vec::new();
        match self.node_at(row) {
            Some(n) => {
                let mut k: usize = 0;
                while k < n.branch_more.len()
                    invariant
                        k <= n.branch_more.len(),
                        out@ == n.branch_more@.take(k as int).map_values(|b: bool| if b { '1' } else { '0' }),
                    decreases n.branch_more.len() - k,
                {
                    out.push(if n.branch_more[k] { '1' } else { '0' });
                    k += 1;
                    proof {
                        assert(out@ =~= n.branch_more@.take(k as int).map_values(|b: bool| if b { '1' } else { '0' }));
                    }
                }
                proof {
                    assert(n.branch_more@.take(k as int) =~= n.branch_more@);
                }
            },
            None => {},
        }
        string_of(out.as_slice())
    }

    /// The one-off starting duration of the task on show at `row`, as
    /// `human_hm` text, or `""` when it has none (or there is no such row).
    pub fn initial_time_text(&self, row: i32) -> (r: String)
        requires
            self.wf(),
        ensures
            r@ == (if 0 <= row < self.rows().len() && self.rows()[row as int].task.initial_time_seconds is Some {
                human_hm_spec(self.rows()[row as int].task.initial_time_seconds->0 as int)
            } else {
                Seq::empty()
            }),
    {
        match self.node_at(row) {
            Some(n) => match n.task.initial_time_seconds {
                Some(s) => human_hm(s),
                None => String::new(),
            },
            None => String::new(),
        }
    }

    /// Re-read the tree of the current scope, drop collapsed and ticked ids
    /// that are gone, and recompute the rows on show. A failed read shows an
    /// empty tree.
    pub fn reload(&mut self)
        requires
            old(self).wf(),
        ensures
            final(self).wf(),
            final(self).reloaded_from(old(self)),
            final(self).written() == old(self).written(),
    {
        let finished = same_text(self.project_filter.as_str(), FINISHED);
        let deadlined = same_text(self.project_filter.as_str(), DEADLINED);
        let (read, q) = if finished {
            let q = finished_stmt();
            (list_flat_by(&self.conn, &q), q)
        } else if deadlined {
            let q = deadlined_stmt();
            (list_tree_by(&self.conn, &q), q)
        } else {
            let f = parse_filter(self.project_filter.as_str());
            let q = tree_stmt(&f, self.show_done);
            proof {
                assert(filter_reads(f, self.project_filter@));
            }
            (list_tree_by(&self.conn, &q), q)
        };
        proof {
            self.read_with@ = q@;
        }
        let tree = match read {
            Ok(t) => t,
            Err(_) => Vec::new(),
        };
        let view_total = if finished || deadlined {
            String::new()
        } else {
            let secs = match scope_seconds(&self.conn, &parse_filter(self.project_filter.as_str())) {
                Ok(s) => s,
                Err(_) => 0,
            };
            human_hm(secs)
        };
        let collapsed = keep_live(&self.collapsed, &tree);
        let selected = keep_live(&self.selected, &tree);
        let visible = compute_visible(&tree, &collapsed);
        let ghost before = *self;
        self.selected_count = selected.len() as i32;
        self.tree = tree;
        self.collapsed = collapsed;
        self.selected = selected;
        self.visible = visible;
        self.view_total_text = view_total;
        self.data_version = self.data_version.wrapping_add(1);
        proof {
            assert forall|x: Seq<char>| #[trigger] self.is_collapsed(x) <==> (before.is_collapsed(x) && tree_ids(self.tree@).contains(x)) by {}
            assert forall|x: Seq<char>| #[trigger] self.is_selected(x) <==> (before.is_selected(x) && tree_ids(self.tree@).contains(x)) by {}
        }
    }

    /// Re-read everything (see [`TaskListModel::reload`]).
    pub fn refresh(&mut self)
        requires
            old(self).wf(),
        ensures
            final(self).wf(),
            final(self).reloaded_from(old(self)),
    {
        self.reload();
    }

    /// Switch the scope; a no-op when it is already `value`.
    pub fn set_project_filter(&mut self, value: &str)
        requires
            old(self).wf(),
        ensures
            final(self).wf(),
            old(self).filter_text() == value@ ==> *final(self) == *old(self),
            old(self).filter_text() != value@ ==> final(self).filter_text() == value@,
    {
        if same_text(self.project_filter.as_str(), value) {
            return;
        }
        self.project_filter = value.to_owned();
        self.reload();
    }

    /// Show or hide completed tasks in the tree views; a no-op when unchanged.
    pub fn set_show_done(&mut self, value: bool)
        requires
            old(self).wf(),
        ensures
            final(self).wf(),
            old(self).done_shown() == value ==> *final(self) == *old(self),
            final(self).done_shown() == value,
    {
        if self.show_done == value {
            return;
        }
        self.show_done = value;
        self.reload();
    }

    /// Turn multi-select on or off; turning it off clears the ticks. A no-op
    /// when unchanged.
    pub fn set_selection_mode(&mut self, value: bool)
        requires
            old(self).wf(),
        ensures
            final(self).wf(),
            old(self).selecting() == value ==> *final(self) == *old(self),
            final(self).selecting() == value,
            final(self).rows() == old(self).rows(),
            old(self).selecting() != value ==> forall|x: Seq<char>| #[trigger] final(self).is_selected(x) <==> (value && old(self).is_selected(x)),
    {
        if self.selection_mode == value {
            return;
        }
        self.selection_mode = value;
        if !value {
            self.selected = Vec::new();
            proof {
                assert(ids_view(self.selected@) =~= Seq::<Seq<char>>::empty());
            }
        }
        self.selected_count = self.selected.len() as i32;
    }

    /// Tick the row at `row` when unticked, untick it when ticked; a no-op
    /// when there is no such row.
    pub fn toggle_selected(&mut self, row: i32)
        requires
            old(self).wf(),
        ensures
            final(self).wf(),
            !(0 <= row < old(self).rows().len()) ==> *final(self) == *old(self),
            final(self).rows() == old(self).rows(),
            final(self).selecting() == old(self).selecting(),
            0 <= row < old(self).rows().len() ==> forall|x: Seq<char>| #[trigger] final(self).is_selected(x) <==> (if x == old(self).rows()[row as int].task.id@ {
                !old(self).is_selected(x)
            } else {
                old(self).is_selected(x)
            }),
    {
        let id = match self.id_at(row) {
            Some(id) => id,
            None => return,
        };
        toggle_id(&mut self.selected, id.as_str());
        self.selected_count = self.selected.len() as i32;
    }

    /// Tick every row on show (ticks already set stay).
    pub fn select_all(&mut self)
        requires
            old(self).wf(),
        ensures
            final(self).wf(),
            final(self).rows() == old(self).rows(),
            final(self).selecting() == old(self).selecting(),
            forall|x: Seq<char>| #[trigger] final(self).is_selected(x) <==> (old(self).is_selected(x) || exists|k: int|
                0 <= k < old(self).rows().len() && old(self).rows()[k].task.id@ == x),
    {
        let ghost before = *self;
        let n = self.visible.len();
        let mut k: usize = 0;
        while k < n
            invariant
                k <= n == self.visible.len(),
                self.tree == before.tree,
                self.visible == before.visible,
                self.collapsed == before.collapsed,
                self.selection_mode == before.selection_mode,
                self.conn == before.conn,
                self.project_filter == before.project_filter,
                self.show_done == before.show_done,
                self.data_version == before.data_version,
                self.view_total_text == before.view_total_text,
                before.wf(),
                ids_view(self.selected@).no_duplicates(),
                forall|x: Seq<char>| #[trigger] ids_view(self.selected@).contains(x) <==> (before.is_selected(x) || exists|j: int|
                    0 <= j < k && before.rows()[j].task.id@ == x),
            decreases n - k,
        {
            proof {
                crate::views::visible::lemma_visible_rows_exact(
                    depths(self.tree@),
                    folded(self.tree@, ids_view(self.collapsed@)),
                    self.tree.len() as nat,
                );
                assert(nats(self.visible@)[k as int] == self.visible@[k as int] as nat);
            }
            let idx = self.visible[k];
            let id = self.tree[idx].task.id.clone();
            let ghost cur = id@;
            proof {
                assert(before.rows()[k as int].task.id@ == cur);
            }
            if !contains_id(&self.selected, id.as_str()) {
                let ghost prev = ids_view(self.selected@);
                self.selected.push(id);
                proof {
                    assert(ids_view(self.selected@) =~= prev.push(cur));
                    lemma_push_distinct(prev, cur);
                }
            }
            proof {
                assert forall|x: Seq<char>| #[trigger] ids_view(self.selected@).contains(x) <==> (before.is_selected(x) || exists|j: int|
                    0 <= j < k + 1 && before.rows()[j].task.id@ == x) by {
                    if x == cur {
                        assert(before.rows()[k as int].task.id@ == x);
                    }
                    if exists|j: int| 0 <= j < k + 1 && before.rows()[j].task.id@ == x {
                        let j = choose|j: int| 0 <= j < k + 1 && before.rows()[j].task.id@ == x;
                        if j < k {
                            assert(exists|j2: int| 0 <= j2 < k && before.rows()[j2].task.id@ == x);
                        }
                    }
                }
            }
            k += 1;
        }
        self.selected_count = self.selected.len() as i32;
    }

    /// Untick everything.
    pub fn clear_selection(&mut self)
        requires
            old(self).wf(),
        ensures
            final(self).wf(),
            final(self).rows() == old(self).rows(),
            final(self).selecting() == old(self).selecting(),
            final(self).selection_size() == 0,
            forall|x: Seq<char>| !#[trigger] final(self).is_selected(x),
    {
        self.selected = Vec::new();
        self.selected_count = 0;
        proof {
            assert(ids_view(self.selected@) =~= Seq::<Seq<char>>::empty());
        }
    }

    /// Collapse the row at `row` when expanded, expand it when collapsed; a
    /// no-op for a row without children or no such row.
    pub fn toggle_expanded(&mut self, row: i32)
        requires
            old(self).wf(),
        ensures
            final(self).wf(),
            final(self).nodes() == old(self).nodes(),
            !(0 <= row < old(self).rows().len() && old(self).rows()[row as int].has_children) ==> *final(self) == *old(self),
            (0 <= row < old(self).rows().len() && old(self).rows()[row as int].has_children) ==> forall|x: Seq<char>| #[trigger] final(self).is_collapsed(x) <==> (if x == old(self).rows()[row as int].task.id@ {
                !old(self).is_collapsed(x)
            } else {
                old(self).is_collapsed(x)
            }),
    {
        let (has_children, id) = match self.node_at(row) {
            Some(n) => (n.has_children, n.task.id.clone()),
            None => return,
        };
        if !has_children {
            return;
        }
        toggle_id(&mut self.collapsed, id.as_str());
        self.visible = compute_visible(&self.tree, &self.collapsed);
    }
}


/// Equality of two optional texts.
pub fn same_opt_text(a: &Option<String>, b: &Option<String>) -> (r: bool)
    ensures
        r == (crate::domain::opt_view(*a) == crate::domain::opt_view(*b)),
{
    match (a, b) {
        (Some(x), Some(y)) => same_text(x.as_str(), y.as_str()),
        (None, None) => true,
        _ => false,
    }
}

/// The status a task is given when marked done (`true`) or not done.
pub fn status_for(done: bool) -> (s: TaskStatus)
    ensures
        s == (if done { TaskStatus::Done } else { TaskStatus::Todo }),
{
    if done {
        TaskStatus::Done
    } else {
        TaskStatus::Todo
    }
}

/// The project a task is moved to: none (unfiled) for `""`, else the id.
pub fn project_target(project_id: &str) -> (r: Option<String>)
    ensures
        opt_view(r) == (if project_id@.len() == 0 { None } else { Some(project_id@) }),
{
    if project_id.unicode_len() == 0 {
        None
    } else {
        Some(project_id.to_owned())
    }
}

/// The deadline a task is given: none (cleared) for a blank entry, else the
/// trimmed text.
pub fn deadline_target(deadline: &str) -> (r: Option<String>)
    ensures
        opt_view(r) == (if trim(deadline@).len() == 0 { None } else { Some(trim(deadline@)) }),
{
    let d = trim_str(deadline);
    if d.unicode_len() == 0 {
        None
    } else {
        Some(d)
    }
}

/// The project a new root task is filed in, from the scope filter: the
/// project of a project scope; none for every task (`""`) or for
/// `"unfiled"`.
pub fn scope_project(filter: &str) -> (r: Option<String>)
    ensures
        opt_view(r) == (if filter@.len() == 0 || filter@ == "unfiled"@ { None } else { Some(filter@) }),
{
    match parse_filter(filter) {
        ProjectFilter::Only(id) => Some(id),
        _ => None,
    }
}

/// A re-parenting really moved the task: its parent or its place among its
/// siblings changed.
pub open spec fn moved_spec(before: Task, after: Task) -> bool {
    opt_view(before.parent_id) != opt_view(after.parent_id) || before.sort_order != after.sort_order
}

/// Whether a re-parenting really moved the task (see [`moved_spec`]).
pub fn moved(before: &Task, after: &Task) -> (b: bool)
    ensures
        b == moved_spec(*before, *after),
{
    !same_opt_text(&before.parent_id, &after.parent_id) || before.sort_order != after.sort_order
}

/// Whether storing `notes` over `old` changes them: the store keeps `notes`
/// with trailing whitespace cut.
pub fn notes_change(old: &str, notes: &str) -> (b: bool)
    ensures
        b == (old@ != trim_end(notes@)),
{
    let v = crate::text::chars_of(notes);
    let stored = string_of(crate::text::trim_end_vec(&v).as_slice());
    !same_text(old, stored.as_str())
}

/// The log entry for marking task `id` done or not done: the old status
/// and title of the task as read before the change; nothing when it could
/// not be read.
pub fn status_entry(id: &str, before: &Option<Task>, done: bool) -> (r: Option<ActionRecord>)
    ensures
        match before {
            Some(t) => r matches Some(rec) && rec.kind@ == "set_status"@ && rec.payload@ == status_payload(id@, t.status)
                && rec.summary@ == "Marked "@ + quote(t.title@) + (if done { " done"@ } else { " not done"@ }),
            None => r is None,
        },
{
    match before {
        Some(t) => Some(status_record(id, t.title.as_str(), t.status, done)),
        None => None,
    }
}

/// The log entry for re-parenting task `id`, from the task as read before
/// and after the move, its subtree's projects as captured before, and the
/// new parent's title: the old parent, position and projects, logged only
/// when the move really happened (see [`moved`]) and everything could be
/// read.
pub fn reparent_entry(
    id: &str,
    before: &Option<Task>,
    after: &Option<Task>,
    old_map: &Option<Vec<(String, Option<String>)>>,
    new_parent_title: &Option<String>,
) -> (r: Option<ActionRecord>)
    ensures
        match (before, after, old_map, new_parent_title) {
            (Some(b), Some(a), Some(m), Some(pt)) => if moved_spec(*b, *a) {
                r matches Some(rec) && rec.kind@ == "reparent"@
                    && rec.summary@ == "Moved "@ + quote(b.title@) + " under "@ + quote(pt@)
                    && rec.payload@ == reparent_payload(id@, opt_view(b.parent_id), b.sort_order, pairs_view(m@))
            } else {
                r is None
            },
            _ => r is None,
        },
{
    match (before, after, old_map, new_parent_title) {
        (Some(b), Some(a), Some(m), Some(pt)) => if moved(b, a) {
            let rec = reparent_record(id, b.title.as_str(), opt_str(&b.parent_id), b.sort_order, m, pt.as_str());
            Some(rec)
        } else {
            None
        },
        _ => None,
    }
}

/// The log entry of marking task `id`, titled `title`, done (or not),
/// keeping its old status.
pub open spec fn status_log_stmt(id: Seq<char>, title: Seq<char>, old: TaskStatus, done: bool) -> StmtView {
    insert_action_stmt(
        "set_status"@,
        "Marked "@ + quote(title) + (if done { " done"@ } else { " not done"@ }),
        status_payload(id, old),
    )
}

/// The log entry, if any, of marking task `id` done (or not): its title
/// and old status as read before the change.
pub open spec fn status_logged(log: Seq<StmtView>, id: Seq<char>, done: bool) -> bool {
    log.len() == 0 || exists|title: Seq<char>, old: TaskStatus| log == seq![#[trigger] status_log_stmt(id, title, old, done)]
}

/// What marking task `id` done (or not) writes after `before`: nothing
/// (the update failed), or the status update, then its log entry if any.
pub open spec fn done_written(before: Seq<StmtView>, after: Seq<StmtView>, id: Seq<char>, done: bool) -> bool {
    after == before || exists|log: Seq<StmtView>|
        #[trigger] status_logged(log, id, done) && after == before + seq![
            set_status_stmt(id, if done { TaskStatus::Done } else { TaskStatus::Todo }),
        ] + log
}

/// The log entry of renaming task `id` from `old` to `title`, trimmed.
pub open spec fn rename_log_stmt(id: Seq<char>, old: Seq<char>, title: Seq<char>) -> StmtView {
    insert_action_stmt("rename_task"@, "Renamed "@ + quote(old) + " to "@ + quote(trim(title)), rename_payload(id, old))
}

/// The log entry, if any, of renaming task `id` to `title`: the old title
/// read before, logged only when it differs.
pub open spec fn rename_logged(log: Seq<StmtView>, id: Seq<char>, title: Seq<char>) -> bool {
    log.len() == 0 || exists|old: Seq<char>| old != trim(title) && log == seq![#[trigger] rename_log_stmt(id, old, title)]
}

/// What renaming task `id` writes: nothing, or the rename, then its log
/// entry if any.
pub open spec fn rename_written(before: Seq<StmtView>, after: Seq<StmtView>, id: Seq<char>, title: Seq<char>) -> bool {
    after == before || exists|log: Seq<StmtView>|
        #[trigger] rename_logged(log, id, title) && after == before + seq![rename_task_stmt(id, title)] + log
}

/// The log entry of editing the notes of task `id`, titled `title`,
/// keeping the old notes.
pub open spec fn notes_log_stmt(id: Seq<char>, title: Seq<char>, old: Seq<char>) -> StmtView {
    insert_action_stmt("set_notes"@, "Edited notes on "@ + quote(title), notes_payload(id, old))
}

/// The log entry, if any, of setting the notes of task `id`: the old notes
/// read before, logged only when what is stored changes.
pub open spec fn notes_logged(log: Seq<StmtView>, id: Seq<char>, notes: Seq<char>) -> bool {
    log.len() == 0 || exists|title: Seq<char>, old: Seq<char>|
        old != trim_end(notes) && log == seq![#[trigger] notes_log_stmt(id, title, old)]
}

/// What setting the notes of task `id` writes: nothing, or the update,
/// then its log entry if any.
pub open spec fn notes_written(before: Seq<StmtView>, after: Seq<StmtView>, id: Seq<char>, notes: Seq<char>) -> bool {
    after == before || exists|log: Seq<StmtView>|
        #[trigger] notes_logged(log, id, notes) && after == before + seq![set_notes_stmt(id, notes)] + log
}

/// The log entry of changing the deadline of task `id`, titled `title`,
/// from `old` to `new`.
pub open spec fn deadline_log_stmt(id: Seq<char>, title: Seq<char>, old: Option<Seq<char>>, new: Option<Seq<char>>) -> StmtView {
    insert_action_stmt(
        "set_deadline"@,
        match new {
            Some(d) => "Set deadline on "@ + quote(title) + " to "@ + d,
            None => "Cleared deadline on "@ + quote(title),
        },
        deadline_payload(id, old),
    )
}

/// The log entry, if any, of a deadline change on task `id`: the old and
/// new deadlines as read before and after, logged only when they differ.
pub open spec fn deadline_logged(log: Seq<StmtView>, id: Seq<char>) -> bool {
    log.len() == 0 || exists|title: Seq<char>, old: Option<Seq<char>>, new: Option<Seq<char>>|
        old != new && log == seq![#[trigger] deadline_log_stmt(id, title, old, new)]
}

/// What setting the deadline of task `id` to the entry `deadline` writes:
/// nothing, or the update (see [`set_deadline_stmts`]) for the blank-or-
/// trimmed entry, then its log entry if any.
pub open spec fn deadline_written(before: Seq<StmtView>, after: Seq<StmtView>, id: Seq<char>, deadline: Seq<char>) -> bool {
    after == before || exists|log: Seq<StmtView>|
        #[trigger] deadline_logged(log, id) && after == before + set_deadline_stmts(
            id,
            if trim(deadline).len() == 0 { None } else { Some(trim(deadline)) },
        ) + log
}

/// The log entry of creating task `id` titled `title`.
pub open spec fn create_log_stmt(id: Seq<char>, title: Seq<char>) -> StmtView {
    insert_action_stmt("create_task"@, "Created task "@ + quote(title), create_payload(id))
}

/// What creating a task titled `title` under `parent` (filed in `project`
/// when a root) writes: nothing (the insert failed), or its insert with the
/// trimmed title, then its log entry unless logging failed.
pub open spec fn create_written(
    before: Seq<StmtView>,
    after: Seq<StmtView>,
    title: Seq<char>,
    parent: Option<Seq<char>>,
    project: Option<Seq<char>>,
) -> bool {
    after == before || exists|id: Seq<char>, ins: StmtView|
        #[trigger] inserts_task(ins, id, trim(title), parent, project) && (after == before + seq![ins] || after
            == before + seq![ins, create_log_stmt(id, trim(title))])
}

/// The log entry of moving task `id`, titled `title`, to the project named
/// `name`, keeping its subtree's old projects `pairs`.
pub open spec fn project_log_stmt(
    id: Seq<char>,
    title: Seq<char>,
    pairs: Seq<(Seq<char>, Option<Seq<char>>)>,
    name: Seq<char>,
) -> StmtView {
    insert_action_stmt(
        "set_project"@,
        if name.len() == 0 {
            "Moved "@ + quote(title) + " to Unfiled"@
        } else {
            "Moved "@ + quote(title) + " to project "@ + quote(name)
        },
        project_payload(id, pairs),
    )
}

/// The log entry, if any, of moving task `id` to another project.
pub open spec fn project_logged(log: Seq<StmtView>, id: Seq<char>) -> bool {
    log.len() == 0 || exists|title: Seq<char>, pairs: Seq<(Seq<char>, Option<Seq<char>>)>, name: Seq<char>|
        log == seq![#[trigger] project_log_stmt(id, title, pairs, name)]
}

/// What moving task `id` to project `project_id` (`""`: unfiled) writes:
/// nothing, or the move of its subtree, then its log entry if any.
pub open spec fn move_written(before: Seq<StmtView>, after: Seq<StmtView>, id: Seq<char>, project_id: Seq<char>) -> bool {
    after == before || exists|log: Seq<StmtView>|
        #[trigger] project_logged(log, id) && after == before + seq![
            set_project_stmt(id, if project_id.len() == 0 { None } else { Some(project_id) }),
        ] + log
}

/// The log entry of re-parenting task `id`, titled `title`, under the task
/// titled `parent_title`, keeping its old parent, position and projects.
pub open spec fn reparent_log_stmt(
    id: Seq<char>,
    title: Seq<char>,
    parent: Option<Seq<char>>,
    sort_order: i64,
    pairs: Seq<(Seq<char>, Option<Seq<char>>)>,
    parent_title: Seq<char>,
) -> StmtView {
    insert_action_stmt(
        "reparent"@,
        "Moved "@ + quote(title) + " under "@ + quote(parent_title),
        reparent_payload(id, parent, sort_order, pairs),
    )
}

/// The log entry, if any, of re-parenting task `id`.
pub open spec fn reparent_logged(log: Seq<StmtView>, id: Seq<char>) -> bool {
    log.len() == 0 || exists|
        title: Seq<char>,
        parent: Option<Seq<char>>,
        sort_order: i64,
        pairs: Seq<(Seq<char>, Option<Seq<char>>)>,
        parent_title: Seq<char>,
    | log == seq![#[trigger] reparent_log_stmt(id, title, parent, sort_order, pairs, parent_title)]
}

/// What re-parenting task `id` under `target` writes: nothing, or what the
/// repository wrote for the move (nothing when it refused it), then a log
/// entry only when the move was carried out.
pub open spec fn reparent_written(before: Seq<StmtView>, after: Seq<StmtView>, id: Seq<char>, target: Seq<char>) -> bool {
    after == before || exists|moved: Seq<StmtView>, log: Seq<StmtView>|
        #[trigger] reparent_sent(moved, id, target) && (moved.len() == 0 ==> log.len() == 0) && #[trigger] reparent_logged(log, id)
            && after == before + moved + log
}

/// Statement `s` reopens a task ticked in `m`, or logs reopening it.
pub open spec fn reopens_ticked(s: StmtView, m: TaskListModel) -> bool {
    exists|x: Seq<char>|
        #[trigger] m.is_selected(x) && (s == set_status_stmt(x, TaskStatus::Todo) || exists|title: Seq<char>, old: TaskStatus|
            s == #[trigger] status_log_stmt(x, title, old, false))
}

/// Statement `s` deletes a task ticked in `m`, or logs a deletion.
pub open spec fn deletes_ticked(s: StmtView, m: TaskListModel) -> bool {
    ||| (s.sql == INSERT_ACTION_SQL@ && s.args.len() == 3 && s.args[0] == ArgView::Text("delete_task"@))
    ||| exists|x: Seq<char>| #[trigger] m.is_selected(x) && s == delete_task_stmt(x)
}

/// The statements that log a deletion, if any.
pub open spec fn delete_logged(log: Seq<StmtView>) -> bool {
    log.len() <= 1 && forall|k: int| 0 <= k < log.len() ==> {
        &&& (#[trigger] log[k]).sql == INSERT_ACTION_SQL@
        &&& log[k].args.len() == 3
        &&& log[k].args[0] == ArgView::Text("delete_task"@)
    }
}

/// What deleting task `id` writes: its deletion logged (if the task could
/// be read), then the delete itself unless it failed.
pub open spec fn remove_written(before: Seq<StmtView>, after: Seq<StmtView>, id: Seq<char>) -> bool {
    exists|log: Seq<StmtView>|
        #[trigger] delete_logged(log) && (after == before + log || after == before + log + seq![delete_task_stmt(id)])
}

/// `f` is the project scope that the filter text `s` names (see
/// [`parse_filter`]).
pub open spec fn filter_reads(f: ProjectFilter, s: Seq<char>) -> bool {
    match f {
        ProjectFilter::All => s.len() == 0,
        ProjectFilter::Unfiled => s == "unfiled"@,
        ProjectFilter::Only(id) => id@ == s && s.len() != 0 && s != "unfiled"@,
    }
}

/// `q` is the query that shows the scope `filter`: the finished list, the
/// deadline-bearing tree, or the task tree of the project scope the filter
/// names, with or without completed tasks.
pub open spec fn scope_read(q: StmtView, filter: Seq<char>, show_done: bool) -> bool {
    if filter == FINISHED@ {
        q == finished_query()
    } else if filter == DEADLINED@ {
        q == deadlined_query()
    } else {
        exists|f: ProjectFilter| #[trigger] filter_reads(f, filter) && q == tree_query(f, show_done)
    }
}

/// The time a task row shows: its own total, and for a task with subtasks
/// the total over its whole subtree, in parentheses.
pub open spec fn invested_spec(own: i64, sub: Option<i64>) -> Seq<char> {
    match sub {
        None => human_hm_spec(own as int),
        Some(s) => human_hm_spec(own as int) + "  (incl. subtasks: "@ + human_hm_spec(s as int) + ")"@,
    }
}

/// [`invested_spec`] as text.
pub fn invested_text(own: i64, sub: Option<i64>) -> (r: String)
    ensures
        r@ == invested_spec(own, sub),
{
    match sub {
        None => human_hm(own),
        Some(sub) => {
            let mut out: Vec<char> = Vec::new();
            push_str(&mut out, human_hm(own).as_str());
            push_str(&mut out, "  (incl. subtasks: ");
            push_str(&mut out, human_hm(sub).as_str());
            push_str(&mut out, ")");
            proof {
                assert(out@ =~= invested_spec(own, Some(sub)));
            }
            string_of(out.as_slice())
        },
    }
}

/// A task row's time figures, their text, and the queries asked for them.
pub struct Invested {
    pub text: String,
    /// The task's own seconds.
    pub own: i64,
    /// Its whole subtree's seconds, when it has subtasks.
    pub sub: Option<i64>,
    pub asked: Vec<Stmt>,
}

/// Law: the subtree total can be read back from a row's text - two rows of
/// a task with subtasks that show the same text show the same subtree
/// total (to the minute), and the same own total; and a task with subtasks
/// always shows more than its own total.
pub proof fn lemma_invested_shows_subtree(own1: i64, own2: i64, s1: i64, s2: i64)
    ensures
        invested_spec(own1, Some(s1)) == invested_spec(own2, Some(s2)) && human_hm_spec(own1 as int).len()
            == human_hm_spec(own2 as int).len() ==> human_hm_spec(s1 as int) == human_hm_spec(s2 as int)
            && human_hm_spec(own1 as int) == human_hm_spec(own2 as int),
        invested_spec(own1, Some(s1)).len() > invested_spec(own1, None).len(),
        invested_spec(own1, Some(s1)).take(human_hm_spec(own1 as int).len() as int) == invested_spec(own1, None),
{
    reveal_strlit("  (incl. subtasks: ");
    reveal_strlit(")");
    let a1 = human_hm_spec(own1 as int);
    let a2 = human_hm_spec(own2 as int);
    let p = "  (incl. subtasks: "@;
    assert(p.len() == 19);
    let h1 = human_hm_spec(s1 as int);
    let h2 = human_hm_spec(s2 as int);
    let t1 = a1 + p + h1 + ")"@;
    let t2 = a2 + p + h2 + ")"@;
    if t1 == t2 && a1.len() == a2.len() {
        assert(a1 =~= t1.subrange(0, a1.len() as int));
        assert(a2 =~= t2.subrange(0, a2.len() as int));
        assert(h1 =~= t1.subrange((a1.len() + p.len()) as int, t1.len() - 1));
        assert(h2 =~= t2.subrange((a2.len() + p.len()) as int, t2.len() - 1));
    }
    assert(t1.take(a1.len() as int) =~= a1);
}

/// Remove `id` from a list holding it at most once.
fn drop_id(v: &mut Vec<String>, id: &str)
    requires
        ids_view(old(v)@).no_duplicates(),
    ensures
        ids_view(final(v)@).no_duplicates(),
        forall|x: Seq<char>| #[trigger] ids_view(final(v)@).contains(x) <==> (ids_view(old(v)@).contains(x) && x != id@),
{
    if contains_id(v, id) {
        toggle_id(v, id);
    }
}

impl TaskListModel {
    /// The task as stored right now (`None` when it is gone or cannot be
    /// read): the before-state an action logs.
    fn task_before(&self, id: &str) -> (r: Option<Task>) {
        match get_task(&self.conn, id) {
            Ok(t) => t,
            Err(_) => None,
        }
    }

    /// Whether the scope is one of the special lists, where new tasks cannot
    /// be added.
    fn on_special_list(&self) -> (r: bool)
        ensures
            r == (self.filter_text() == FINISHED@ || self.filter_text() == DEADLINED@),
    {
        same_text(self.project_filter.as_str(), FINISHED) || same_text(self.project_filter.as_str(), DEADLINED)
    }

    /// Delete every ticked task (each logged first so it can be reverted),
    /// then leave multi-select.
    pub fn delete_selected(&mut self)
        requires
            old(self).wf(),
        ensures
            final(self).wf(),
            !final(self).selecting(),
            final(self).selection_size() == 0,
            final(self).reloaded_unticked(old(self)),
            final(self).written().len() >= old(self).written().len(),
            final(self).written().take(old(self).written().len() as int) == old(self).written(),
            forall|k: int|
                old(self).written().len() <= k < final(self).written().len() ==> deletes_ticked(
                    #[trigger] final(self).written()[k],
                    *old(self),
                ),
    {
        let ghost start = *self;
        let ghost mut extra: Seq<StmtView> = Seq::empty();
        let mut k: usize = 0;
        while k < self.selected.len()
            invariant
                k <= self.selected.len(),
                self.selected@ == start.selected@,
                forall|j: int| 0 <= j < extra.len() ==> deletes_ticked(#[trigger] extra[j], start),
            decreases self.selected.len() - k,
        {
            let id = self.selected[k].as_str();
            proof {
                assert(ids_view(start.selected@)[k as int] == id@);
                assert(start.is_selected(id@));
            }
            match capture_and_log_delete(&self.conn, id) {
                Ok(l) => {
                    proof {
                        let e0 = extra;
                        extra = extra + stmts_view(l@);
                        assert forall|j: int| 0 <= j < extra.len() implies deletes_ticked(#[trigger] extra[j], start) by {
                            if j >= e0.len() {
                                assert(extra[j] == l@[j - e0.len()]@);
                            }
                        }
                    }
                },
                Err(_) => {},
            }
            match delete_task(&self.conn, id) {
                Ok(l) => {
                    proof {
                        let e0 = extra;
                        extra = extra + stmts_view(l@);
                        assert forall|j: int| 0 <= j < extra.len() implies deletes_ticked(#[trigger] extra[j], start) by {
                            if j >= e0.len() {
                                assert(extra[j] == delete_task_stmt(id@));
                            }
                        }
                    }
                },
                Err(_) => {},
            }
            k += 1;
        }
        proof {
            self.written@ = start.written@ + extra;
            assert(self.written@.take(start.written@.len() as int) =~= start.written@);
        }
        self.selected = Vec::new();
        self.selected_count = 0;
        self.selection_mode = false;
        proof {
            assert(ids_view(self.selected@) =~= Seq::<Seq<char>>::empty());
        }
        let ghost mid = *self;
        self.reload();
        proof {
            assert forall|x: Seq<char>| !(#[trigger] self.is_selected(x)) by {
                assert(!mid.is_selected(x));
            }
            assert(self.selected@.len() == 0) by {
                if self.selected@.len() > 0 {
                    assert(ids_view(self.selected@)[0] == self.selected@[0]@);
                    assert(ids_view(self.selected@).contains(self.selected@[0]@));
                    assert(self.is_selected(self.selected@[0]@));
                }
            }
        }
    }

    /// Mark every ticked task not done (each change logged), then leave
    /// multi-select.
    pub fn revert_selected(&mut self)
        requires
            old(self).wf(),
        ensures
            final(self).wf(),
            !final(self).selecting(),
            final(self).selection_size() == 0,
            final(self).reloaded_unticked(old(self)),
            final(self).written().len() >= old(self).written().len(),
            final(self).written().take(old(self).written().len() as int) == old(self).written(),
            forall|k: int|
                old(self).written().len() <= k < final(self).written().len() ==> reopens_ticked(
                    #[trigger] final(self).written()[k],
                    *old(self),
                ),
    {
        let ghost start = *self;
        let ghost mut extra: Seq<StmtView> = Seq::empty();
        let mut k: usize = 0;
        while k < self.selected.len()
            invariant
                k <= self.selected.len(),
                self.selected@ == start.selected@,
                forall|j: int| 0 <= j < extra.len() ==> reopens_ticked(#[trigger] extra[j], start),
            decreases self.selected.len() - k,
        {
            let id = self.selected[k].as_str();
            proof {
                assert(ids_view(start.selected@)[k as int] == id@);
                assert(start.is_selected(id@));
            }
            let before = self.task_before(id);
            match set_task_status(&self.conn, id, status_for(false)) {
                Ok(l) => {
                    proof {
                        let e0 = extra;
                        extra = extra + stmts_view(l@);
                        assert forall|j: int| 0 <= j < extra.len() implies reopens_ticked(#[trigger] extra[j], start) by {
                            if j >= e0.len() {
                                assert(extra[j] == set_status_stmt(id@, TaskStatus::Todo));
                            }
                        }
                    }
                    match status_entry(id, &before, false) {
                        Some(rec) => {
                            match log_record(&self.conn, rec) {
                                Ok(l) => {
                                    proof {
                                        let e0 = extra;
                                        extra = extra + stmts_view(l@);
                                        let t = before->0;
                                        assert forall|j: int| 0 <= j < extra.len() implies reopens_ticked(#[trigger] extra[j], start) by {
                                            if j >= e0.len() {
                                                assert(extra[j] == status_log_stmt(id@, t.title@, t.status, false));
                                            }
                                        }
                                    }
                                },
                                Err(_) => {},
                            }
                        },
                        None => {},
                    }
                },
                Err(_) => {},
            }
            k += 1;
        }
        proof {
            self.written@ = start.written@ + extra;
            assert(self.written@.take(start.written@.len() as int) =~= start.written@);
        }
        self.selected = Vec::new();
        self.selected_count = 0;
        self.selection_mode = false;
        proof {
            assert(ids_view(self.selected@) =~= Seq::<Seq<char>>::empty());
        }
        let ghost mid = *self;
        self.reload();
        proof {
            assert forall|x: Seq<char>| !(#[trigger] self.is_selected(x)) by {
                assert(!mid.is_selected(x));
            }
            assert(self.selected@.len() == 0) by {
                if self.selected@.len() > 0 {
                    assert(ids_view(self.selected@)[0] == self.selected@[0]@);
                    assert(ids_view(self.selected@).contains(self.selected@[0]@));
                    assert(self.is_selected(self.selected@[0]@));
                }
            }
        }
    }

    /// Add a root task titled `title` (trimmed) to the current project scope
    /// (unfiled otherwise), and log it. A no-op for a blank title, on the
    /// special lists, or when the insert fails.
    pub fn add(&mut self, title: &str)
        requires
            old(self).wf(),
        ensures
            final(self).wf(),
            (trim(title@).len() == 0 || old(self).filter_text() == FINISHED@ || old(self).filter_text()
                == DEADLINED@) ==> *final(self) == *old(self),
            *final(self) == *old(self) || final(self).reloaded_from(old(self)),
            create_written(
                old(self).written(),
                final(self).written(),
                title@,
                None,
                if old(self).filter_text().len() == 0 || old(self).filter_text() == "unfiled"@ {
                    None
                } else {
                    Some(old(self).filter_text())
                },
            ),
    {
        let t = trim_str(title);
        if t.unicode_len() == 0 || self.on_special_list() {
            return;
        }
        let project = scope_project(self.project_filter.as_str());
        let ghost pv = opt_view(project);
        let ghost w0 = self.written@;
        let pr = opt_str(&project);
        let (_task, id, sent) = match create_task_sent(&self.conn, t.as_str(), None, pr) {
            Ok(x) => x,
            Err(_) => return,
        };
        let ghost ins = sent@[0]@;
        proof {
            assert(crate::db::opt_str_view(pr) == pv);
            assert(stmts_view(sent@) =~= seq![ins]);
            self.written@ = w0 + seq![ins];
        }
        self.log_created(id.as_str(), t.as_str());
        proof {
            assert(inserts_task(ins, id@, trim(title@), None, pv));
            assert(w0 + seq![ins] + seq![create_log_stmt(id@, t@)] =~= w0 + seq![ins, create_log_stmt(id@, trim(title@))]);
        }
        self.reload();
    }

    /// Log the creation of task `id` titled `title`, noting the entry when
    /// it was written.
    fn log_created(&mut self, id: &str, title: &str)
        ensures
            final(self).written() == old(self).written() || final(self).written() == old(self).written() + seq![
                create_log_stmt(id@, title@),
            ],
            final(self).conn == old(self).conn,
            final(self).project_filter == old(self).project_filter,
            final(self).show_done == old(self).show_done,
            final(self).view_total_text == old(self).view_total_text,
            final(self).selection_mode == old(self).selection_mode,
            final(self).selected_count == old(self).selected_count,
            final(self).data_version == old(self).data_version,
            final(self).tree == old(self).tree,
            final(self).visible == old(self).visible,
            final(self).collapsed == old(self).collapsed,
            final(self).selected == old(self).selected,
    {
        match log_record(&self.conn, create_record(id, title)) {
            Ok(l) => {
                proof {
                    self.written@ = self.written@ + stmts_view(l@);
                }
            },
            Err(_) => {},
        }
    }

    /// Add a subtask titled `title` (trimmed) under the task on show at
    /// `row`, log it, and expand the parent so the new task shows. A no-op
    /// for a blank title, no such row, or a failed insert.
    pub fn add_child(&mut self, row: i32, title: &str)
        requires
            old(self).wf(),
        ensures
            final(self).wf(),
            (trim(title@).len() == 0 || !(0 <= row < old(self).rows().len())) ==> *final(self) == *old(self),
            *final(self) == *old(self) || (0 <= row < old(self).rows().len() && final(self).reloaded_opening(
                old(self),
                old(self).rows()[row as int].task.id@,
            )),
            0 <= row < old(self).rows().len() ==> create_written(
                old(self).written(),
                final(self).written(),
                title@,
                Some(old(self).rows()[row as int].task.id@),
                None,
            ),
    {
        let t = trim_str(title);
        if t.unicode_len() == 0 {
            return;
        }
        let parent_id = match self.id_at(row) {
            Some(id) => id,
            None => return,
        };
        let ghost w0 = self.written@;
        let (_task, id, sent) = match create_task_sent(&self.conn, t.as_str(), Some(parent_id.as_str()), None) {
            Ok(x) => x,
            Err(_) => return,
        };
        let ghost ins = sent@[0]@;
        proof {
            assert(stmts_view(sent@) =~= seq![ins]);
            self.written@ = w0 + seq![ins];
        }
        self.log_created(id.as_str(), t.as_str());
        proof {
            assert(inserts_task(ins, id@, trim(title@), Some(parent_id@), None));
            assert(w0 + seq![ins] + seq![create_log_stmt(id@, t@)] =~= w0 + seq![ins, create_log_stmt(id@, trim(title@))]);
        }
        let ghost start = *self;
        drop_id(&mut self.collapsed, parent_id.as_str());
        self.visible = compute_visible(&self.tree, &self.collapsed);
        let ghost mid = *self;
        self.reload();
        proof {
            assert forall|x: Seq<char>| #[trigger] self.is_collapsed(x) <==> (start.is_collapsed(x) && x != parent_id@
                && tree_ids(self.tree@).contains(x)) by {
                assert(mid.is_collapsed(x) <==> (start.is_collapsed(x) && x != parent_id@));
            }
        }
    }

    /// Move the task on show at `row` (with its subtree) to the project
    /// `project_id` (`""` for unfiled), logging the old projects. A no-op
    /// for no such row or a failed move.
    pub fn move_to_project(&mut self, row: i32, project_id: &str)
        requires
            old(self).wf(),
        ensures
            final(self).wf(),
            !(0 <= row < old(self).rows().len()) ==> *final(self) == *old(self),
            *final(self) == *old(self) || final(self).reloaded_from(old(self)),
            0 <= row < old(self).rows().len() ==> move_written(
                old(self).written(),
                final(self).written(),
                old(self).rows()[row as int].task.id@,
                project_id@,
            ),
    {
        let task_id = match self.id_at(row) {
            Some(id) => id,
            None => return,
        };
        let target_id = project_target(project_id);
        let target: Option<&str> = opt_str(&target_id);
        let title = match self.task_before(task_id.as_str()) {
            Some(t) => Some(t.title),
            None => None,
        };
        let old_map = match capture_project_ids(&self.conn, task_id.as_str()) {
            Ok(m) => Some(m),
            Err(_) => None,
        };
        let ghost w0 = self.written@;
        let sent = match set_task_project(&self.conn, task_id.as_str(), target) {
            Ok(v) => v,
            Err(_) => return,
        };
        proof {
            assert(crate::db::opt_str_view(target) == opt_view(target_id));
            self.written@ = w0 + stmts_view(sent@);
        }
        let ghost w1 = self.written@;
        let ghost log: Seq<StmtView> = Seq::empty();
        match (title, old_map) {
            (Some(title), Some(old_map)) => {
                let new_name = match target {
                    Some(id) => match get_project(&self.conn, id) {
                        Ok(Some(p)) => p.name,
                        _ => String::new(),
                    },
                    None => String::new(),
                };
                match log_set_project(&self.conn, task_id.as_str(), title.as_str(), &old_map, new_name.as_str()) {
                    Ok(l) => {
                        proof {
                            self.written@ = w1 + stmts_view(l@);
                            log = stmts_view(l@);
                            assert(log == seq![project_log_stmt(task_id@, title@, pairs_view(old_map@), new_name@)]);
                        }
                    },
                    Err(_) => {},
                }
            },
            _ => {},
        }
        proof {
            assert(project_logged(log, task_id@));
            assert(self.written@ =~= w0 + seq![
                set_project_stmt(task_id@, if project_id@.len() == 0 { None } else { Some(project_id@) }),
            ] + log);
        }
        self.reload();
    }

    /// Re-parent the task on show at `row` under the task `target_id`,
    /// logging the move only when it actually happened (a rejected move is a
    /// silent no-op in the repository). A no-op for no such row, an empty
    /// target, or a failed move.
    pub fn reparent(&mut self, row: i32, target_id: &str)
        requires
            old(self).wf(),
        ensures
            final(self).wf(),
            (!(0 <= row < old(self).rows().len()) || target_id@.len() == 0) ==> *final(self) == *old(self),
            *final(self) == *old(self) || final(self).reloaded_from(old(self)),
            0 <= row < old(self).rows().len() ==> reparent_written(
                old(self).written(),
                final(self).written(),
                old(self).rows()[row as int].task.id@,
                target_id@,
            ),
    {
        let task_id = match self.id_at(row) {
            Some(id) => id,
            None => return,
        };
        if target_id.unicode_len() == 0 {
            return;
        }
        let before = self.task_before(task_id.as_str());
        let old_map = match capture_project_ids(&self.conn, task_id.as_str()) {
            Ok(m) => Some(m),
            Err(_) => None,
        };
        let new_parent_title = match self.task_before(target_id) {
            Some(t) => Some(t.title),
            None => None,
        };
        let ghost w0 = self.written@;
        let sent = match reparent_task(&self.conn, task_id.as_str(), target_id) {
            Ok(v) => v,
            Err(_) => return,
        };
        let ghost moved = stmts_view(sent@);
        proof {
            self.written@ = w0 + moved;
        }
        let ghost log: Seq<StmtView> = Seq::empty();
        if sent.len() > 0 {
            let after = self.task_before(task_id.as_str());
            match reparent_entry(task_id.as_str(), &before, &after, &old_map, &new_parent_title) {
                Some(rec) => {
                    let ghost rv = rec;
                    match log_record(&self.conn, rec) {
                        Ok(l) => {
                            proof {
                                self.written@ = w0 + moved + stmts_view(l@);
                                log = stmts_view(l@);
                                let b = before->0;
                                assert(log == seq![
                                    reparent_log_stmt(
                                        task_id@,
                                        b.title@,
                                        opt_view(b.parent_id),
                                        b.sort_order,
                                        pairs_view(old_map->0@),
                                        new_parent_title->0@,
                                    ),
                                ]);
                            }
                        },
                        Err(_) => {},
                    }
                },
                None => {},
            }
        }
        proof {
            assert(stmts_view(sent@).len() == sent@.len());
            assert(reparent_logged(log, task_id@));
            assert(self.written@ =~= w0 + moved + log);
        }
        self.reload();
    }

    /// Whether the task on show at `row` may be re-parented under
    /// `target_id` (`false` for no such row, an empty target, or a failed
    /// check).
    pub fn can_reparent(&self, row: i32, target_id: &str) -> (r: bool)
        requires
            self.wf(),
        ensures
            (!(0 <= row < self.rows().len()) || target_id@.len() == 0) ==> !r,
            0 <= row < self.rows().len() && self.rows()[row as int].task.id@ == target_id@ ==> !r,
    {
        let task_id = match self.id_at(row) {
            Some(id) => id,
            None => return false,
        };
        if target_id.unicode_len() == 0 {
            return false;
        }
        match crate::db::can_reparent(&self.conn, task_id.as_str(), target_id) {
            Ok(b) => b,
            Err(_) => false,
        }
    }

    /// Delete the task on show at `row` (with its subtree), logged first. A
    /// no-op for no such row or a failed delete.
    pub fn remove(&mut self, row: i32)
        requires
            old(self).wf(),
        ensures
            final(self).wf(),
            !(0 <= row < old(self).rows().len()) ==> *final(self) == *old(self),
            *final(self) == *old(self) || final(self).reloaded_from(old(self)) || final(self).same_view(old(self)),
            0 <= row < old(self).rows().len() ==> remove_written(
                old(self).written(),
                final(self).written(),
                old(self).rows()[row as int].task.id@,
            ),
    {
        let id = match self.id_at(row) {
            Some(id) => id,
            None => return,
        };
        let ghost w0 = self.written@;
        let ghost log: Seq<StmtView> = Seq::empty();
        match capture_and_log_delete(&self.conn, id.as_str()) {
            Ok(l) => {
                proof {
                    self.written@ = w0 + stmts_view(l@);
                    log = stmts_view(l@);
                    assert forall|k: int| 0 <= k < log.len() implies {
                        &&& (#[trigger] log[k]).sql == INSERT_ACTION_SQL@
                        &&& log[k].args.len() == 3
                        &&& log[k].args[0] == ArgView::Text("delete_task"@)
                    } by {
                        assert(log[k] == l@[k]@);
                    }
                }
            },
            Err(_) => {},
        }
        proof {
            assert(delete_logged(log));
            assert(self.written@ =~= w0 + log);
        }
        let ghost w1 = self.written@;
        let sent = match delete_task(&self.conn, id.as_str()) {
            Ok(v) => v,
            Err(_) => return,
        };
        proof {
            self.written@ = w1 + stmts_view(sent@);
            assert(self.written@ =~= w0 + log + seq![delete_task_stmt(id@)]);
        }
        self.reload();
    }

    /// Mark the task on show at `row` done or not done, logging the old
    /// status. A no-op for no such row or a failed update.
    pub fn set_done(&mut self, row: i32, done: bool)
        requires
            old(self).wf(),
        ensures
            final(self).wf(),
            !(0 <= row < old(self).rows().len()) ==> *final(self) == *old(self),
            *final(self) == *old(self) || final(self).reloaded_from(old(self)),
            0 <= row < old(self).rows().len() ==> done_written(
                old(self).written(),
                final(self).written(),
                old(self).rows()[row as int].task.id@,
                done,
            ),
    {
        let id = match self.id_at(row) {
            Some(id) => id,
            None => return,
        };
        let status = status_for(done);
        let before = self.task_before(id.as_str());
        let ghost w0 = self.written@;
        let sent = match set_task_status(&self.conn, id.as_str(), status) {
            Ok(v) => v,
            Err(_) => return,
        };
        proof {
            self.written@ = w0 + stmts_view(sent@);
        }
        let ghost w1 = self.written@;
        let ghost log: Seq<StmtView> = Seq::empty();
        match status_entry(id.as_str(), &before, done) {
            Some(rec) => {
                let ghost rv = rec;
                match log_record(&self.conn, rec) {
                    Ok(l) => {
                        proof {
                            self.written@ = w1 + stmts_view(l@);
                            log = stmts_view(l@);
                            let t = before->0;
                            assert(log == seq![status_log_stmt(id@, t.title@, t.status, done)]);
                        }
                    },
                    Err(_) => {},
                }
            },
            None => {},
        }
        proof {
            assert(status_logged(log, id@, done));
            assert(self.written@ =~= w0 + seq![set_status_stmt(id@, status)] + log);
        }
        self.reload();
    }

    /// Rename the task on show at `row` to `title` (trimmed), logging the
    /// old title when it changed. A no-op for a blank title, no such row, or
    /// a failed update.
    pub fn rename(&mut self, row: i32, title: &str)
        requires
            old(self).wf(),
        ensures
            final(self).wf(),
            (trim(title@).len() == 0 || !(0 <= row < old(self).rows().len())) ==> *final(self) == *old(self),
            *final(self) == *old(self) || final(self).reloaded_from(old(self)),
            0 <= row < old(self).rows().len() ==> rename_written(
                old(self).written(),
                final(self).written(),
                old(self).rows()[row as int].task.id@,
                title@,
            ),
    {
        let t = trim_str(title);
        if t.unicode_len() == 0 {
            return;
        }
        let id = match self.id_at(row) {
            Some(id) => id,
            None => return,
        };
        proof {
            crate::text::lemma_trim_idempotent(title@);
        }
        let before = self.task_before(id.as_str());
        let ghost w0 = self.written@;
        let sent = match rename_task(&self.conn, id.as_str(), t.as_str()) {
            Ok(v) => v,
            Err(_) => return,
        };
        proof {
            self.written@ = w0 + stmts_view(sent@);
        }
        let ghost w1 = self.written@;
        let ghost log: Seq<StmtView> = Seq::empty();
        match before {
            Some(b) => if !same_text(b.title.as_str(), t.as_str()) {
                match log_rename_task(&self.conn, id.as_str(), b.title.as_str(), t.as_str()) {
                    Ok(l) => {
                        proof {
                            self.written@ = w1 + stmts_view(l@);
                            log = stmts_view(l@);
                            assert(log == seq![rename_log_stmt(id@, b.title@, title@)]);
                        }
                    },
                    Err(_) => {},
                }
            },
            None => {},
        }
        proof {
            assert(rename_logged(log, id@, title@));
            assert(self.written@ =~= w0 + seq![rename_task_stmt(id@, title@)] + log);
        }
        self.reload();
    }

    /// Set the notes of the task on show at `row`, logging the old notes
    /// when they changed. A no-op for no such row or a failed update.
    pub fn set_notes(&mut self, row: i32, notes: &str)
        requires
            old(self).wf(),
        ensures
            final(self).wf(),
            !(0 <= row < old(self).rows().len()) ==> *final(self) == *old(self),
            *final(self) == *old(self) || final(self).reloaded_from(old(self)),
            0 <= row < old(self).rows().len() ==> notes_written(
                old(self).written(),
                final(self).written(),
                old(self).rows()[row as int].task.id@,
                notes@,
            ),
    {
        let id = match self.id_at(row) {
            Some(id) => id,
            None => return,
        };
        let before = self.task_before(id.as_str());
        let ghost w0 = self.written@;
        let sent = match set_task_notes(&self.conn, id.as_str(), notes) {
            Ok(v) => v,
            Err(_) => return,
        };
        proof {
            self.written@ = w0 + stmts_view(sent@);
        }
        let ghost w1 = self.written@;
        let ghost log: Seq<StmtView> = Seq::empty();
        match before {
            Some(b) => {
                if notes_change(b.notes.as_str(), notes) {
                    match log_set_notes(&self.conn, id.as_str(), b.title.as_str(), b.notes.as_str()) {
                        Ok(l) => {
                            proof {
                                self.written@ = w1 + stmts_view(l@);
                                log = stmts_view(l@);
                                assert(log == seq![notes_log_stmt(id@, b.title@, b.notes@)]);
                            }
                        },
                        Err(_) => {},
                    }
                }
            },
            None => {},
        }
        proof {
            assert(notes_logged(log, id@, notes@));
            assert(self.written@ =~= w0 + seq![set_notes_stmt(id@, notes@)] + log);
        }
        self.reload();
    }

    /// Set (`deadline` non-blank) or clear (blank) the deadline of the task
    /// on show at `row`; logged only when the stored deadline actually
    /// changed (a malformed date is ignored by the repository). A no-op for
    /// no such row or a failed update.
    pub fn set_deadline(&mut self, row: i32, deadline: &str)
        requires
            old(self).wf(),
        ensures
            final(self).wf(),
            !(0 <= row < old(self).rows().len()) ==> *final(self) == *old(self),
            *final(self) == *old(self) || final(self).reloaded_from(old(self)),
            0 <= row < old(self).rows().len() ==> deadline_written(
                old(self).written(),
                final(self).written(),
                old(self).rows()[row as int].task.id@,
                deadline@,
            ),
    {
        let id = match self.id_at(row) {
            Some(id) => id,
            None => return,
        };
        let d = deadline_target(deadline);
        let target: Option<&str> = opt_str(&d);
        let before = self.task_before(id.as_str());
        let ghost w0 = self.written@;
        let sent = match set_task_deadline(&self.conn, id.as_str(), target) {
            Ok(v) => v,
            Err(_) => return,
        };
        proof {
            self.written@ = w0 + stmts_view(sent@);
            assert(crate::db::opt_str_view(target) == opt_view(d));
        }
        let ghost w1 = self.written@;
        let ghost log: Seq<StmtView> = Seq::empty();
        let after = self.task_before(id.as_str());
        match (before, after) {
            (Some(b), Some(a)) => if !same_opt_text(&b.deadline, &a.deadline) {
                let od = opt_str(&b.deadline);
                let nd = opt_str(&a.deadline);
                match log_set_deadline(&self.conn, id.as_str(), b.title.as_str(), od, nd) {
                    Ok(l) => {
                        proof {
                            self.written@ = w1 + stmts_view(l@);
                            log = stmts_view(l@);
                            assert(crate::db::opt_str_view(od) == opt_view(b.deadline));
                            assert(log == seq![deadline_log_stmt(id@, b.title@, opt_view(b.deadline), opt_view(a.deadline))]);
                        }
                    },
                    Err(_) => {},
                }
            },
            _ => {},
        }
        proof {
            assert(deadline_logged(log, id@));
            assert(self.written@ =~= w0 + set_deadline_stmts(
                id@,
                if trim(deadline@).len() == 0 { None } else { Some(trim(deadline@)) },
            ) + log);
        }
        self.reload();
    }

    /// Time recorded on the task on show at `row` as `human_hm` text, with
    /// the subtree's total added when it has subtasks; `""` for no such row.
    pub fn time_invested_text(&self, row: i32) -> (r: String)
        requires
            self.wf(),
        ensures
            !(0 <= row < self.rows().len()) ==> r@.len() == 0,
            0 <= row < self.rows().len() ==> exists|own: i64, sub: Option<i64>| r@ == #[trigger] invested_spec(own, sub),
    {
        let inv = self.time_invested_read(row);
        inv.text
    }

    /// [`TaskListModel::time_invested_text`], with the figures it shows and
    /// the queries it asked them with: the task's own seconds, whether it
    /// has subtasks, and then its whole subtree's seconds. A failed read
    /// counts as no time, no subtasks, or (for the subtree) the task's own
    /// time.
    pub fn time_invested_read(&self, row: i32) -> (r: Invested)
        requires
            self.wf(),
        ensures
            !(0 <= row < self.rows().len()) ==> r.text@.len() == 0 && r.asked@.len() == 0,
            0 <= row < self.rows().len() ==> {
                let id = self.rows()[row as int].task.id@;
                &&& r.text@ == invested_spec(r.own, r.sub)
                &&& r.asked@.len() == (if r.sub is Some { 3int } else { 2int })
                &&& r.asked@[0]@ == seconds_query(id, false)
                &&& r.asked@[1]@ == has_subtasks_query(id)
                &&& r.sub is Some ==> r.asked@[2]@ == seconds_query(id, true)
            },
    {
        let id = match self.id_at(row) {
            Some(id) => id,
            None => return Invested { text: String::new(), own: 0, sub: None, asked: Vec::new() },
        };
        let mut asked: Vec<Stmt> = Vec::new();
        let (own_r, q0) = task_seconds_read(&self.conn, id.as_str(), false);
        asked.push(q0);
        let own = match own_r {
            Ok(s) => s,
            Err(_) => 0,
        };
        let (has_r, q1) = has_subtasks_read(&self.conn, id.as_str());
        asked.push(q1);
        let has_sub = match has_r {
            Ok(b) => b,
            Err(_) => false,
        };
        if !has_sub {
            return Invested { text: invested_text(own, None), own, sub: None, asked };
        }
        let (sub_r, q2) = task_seconds_read(&self.conn, id.as_str(), true);
        asked.push(q2);
        let sub = match sub_r {
            Ok(s) => s,
            Err(_) => own,
        };
        Invested { text: invested_text(own, Some(sub)), own, sub: Some(sub), asked }
    }

    /// Rows of the active tree of every project (or of the whole tree when
    /// completed tasks show); 0 when the read fails.
    pub fn count_all(&self) -> (r: i32) {
        match list_task_tree(&self.conn, &ProjectFilter::All, self.show_done) {
            Ok(v) => v.len() as i32,
            Err(_) => 0,
        }
    }

    /// Rows of the tree of tasks without a project.
    pub fn count_unfiled(&self) -> (r: i32) {
        match list_task_tree(&self.conn, &ProjectFilter::Unfiled, self.show_done) {
            Ok(v) => v.len() as i32,
            Err(_) => 0,
        }
    }

    /// Rows of one project's tree.
    pub fn project_task_count(&self, project_id: &str) -> (r: i32) {
        match list_task_tree(&self.conn, &ProjectFilter::Only(project_id.to_owned()), self.show_done) {
            Ok(v) => v.len() as i32,
            Err(_) => 0,
        }
    }

    /// Rows of the deadline-bearing tree.
    pub fn count_deadlined(&self) -> (r: i32) {
        match list_deadlined_tree(&self.conn) {
            Ok(v) => v.len() as i32,
            Err(_) => 0,
        }
    }

    /// Rows of the completed list.
    pub fn count_finished(&self) -> (r: i32) {
        match list_finished_tasks(&self.conn) {
            Ok(v) => v.len() as i32,
            Err(_) => 0,
        }
    }
}


/// The rows on show depend only on the tree and on which ids are
/// collapsed: collapsing and then expanding a row again (or any other way
/// back to the same collapsed set) shows the same rows.
pub proof fn lemma_rows_follow_collapsed(a: &TaskListModel, b: &TaskListModel)
    requires
        a.wf(),
        b.wf(),
        a.nodes() == b.nodes(),
        forall|x: Seq<char>| #[trigger] a.is_collapsed(x) <==> b.is_collapsed(x),
    ensures
        a.rows() == b.rows(),
{
    let fa = folded(a.tree@, ids_view(a.collapsed@));
    let fb = folded(b.tree@, ids_view(b.collapsed@));
    assert forall|k: int| 0 <= k < fa.len() implies fa[k] == fb[k] by {
        assert(a.is_collapsed(a.tree@[k].task.id@) == b.is_collapsed(a.tree@[k].task.id@));
    }
    assert(fa =~= fb);
    assert(nats(a.visible@) == nats(b.visible@));
    assert(a.visible@ =~= b.visible@) by {
        assert(nats(a.visible@).len() == a.visible@.len());
        assert(nats(b.visible@).len() == b.visible@.len());
        assert forall|k: int| 0 <= k < a.visible@.len() implies a.visible@[k] == b.visible@[k] by {
            assert(nats(a.visible@)[k] == a.visible@[k] as nat);
            assert(nats(b.visible@)[k] == b.visible@[k] as nat);
        }
    }
    assert(a.rows() =~= b.rows());
}

/// Ticking the same task twice leaves the ticks as they were.
pub proof fn lemma_toggle_twice_restores(m0: &TaskListModel, m1: &TaskListModel, m2: &TaskListModel, id: Seq<char>)
    requires
        forall|x: Seq<char>| #[trigger] m1.is_selected(x) <==> (if x == id {
            !m0.is_selected(x)
        } else {
            m0.is_selected(x)
        }),
        forall|x: Seq<char>| #[trigger] m2.is_selected(x) <==> (if x == id {
            !m1.is_selected(x)
        } else {
            m1.is_selected(x)
        }),
    ensures
        forall|x: Seq<char>| #[trigger] m2.is_selected(x) <==> m0.is_selected(x),
{
    assert forall|x: Seq<char>| #[trigger] m2.is_selected(x) <==> m0.is_selected(x) by {
        assert(m1.is_selected(x) <==> (if x == id { !m0.is_selected(x) } else { m0.is_selected(x) }));
    }
}

} // verus!
