//! The project list of the sidebar.
//!
//! The repository keeps projects flat (no project has a parent), so every
//! project is a row of its own at depth 0 with no children; collapsing has
//! nothing to hide.
use vstd::prelude::*;
use crate::db::{create_project, delete_project, list_projects, rename_project};
use crate::domain::Project;
use crate::text::trim_str;
use crate::text::trim;

verus! {

/// A project row.
pub struct ProjectNode {
    pub project: Project,
    pub depth: u32,
    pub has_children: bool,
    pub branch_more: Vec<bool>,
}

/// The project list's state.
pub struct ProjectListModel {
    conn: rusqlite::Connection,
    tree: Vec<ProjectNode>,
}

/// Every project as a row of its own.
fn rows_of(projects: Vec<Project>) -> (r: Vec<ProjectNode>)
    ensures
        r.len() == projects.len(),
        forall|k: int| 0 <= k < r.len() ==> (#[trigger] r@[k]).project == projects@[k] && r@[k].depth == 0 && !r@[k].has_children
            && r@[k].branch_more@.len() == 0,
{
    let mut rest = projects;
    let ghost all = rest@;
    let mut out: Vec<ProjectNode> = Vec::new();
    let mut k: usize = 0;
    proof {
        assert(all.len() == rest.len());
    }
    while rest.len() > 0
        invariant
            k + rest.len() == all.len(),
            all.len() <= usize::MAX,
            rest@ == all.skip(k as int),
            out.len() == k,
            forall|m: int| 0 <= m < k ==> (#[trigger] out@[m]).project == all[m] && out@[m].depth == 0 && !out@[m].has_children
                && out@[m].branch_more@.len() == 0,
        decreases rest.len(),
    {
        let p = rest.remove(0);
        proof {
            assert(p == all[k as int]);
        }
        out.push(ProjectNode { project: p, depth: 0, has_children: false, branch_more: Vec::new() });
        k += 1;
        proof {
            assert(rest@ =~= all.skip(k as int));
        }
    }
    out
}

impl ProjectListModel {
    /// The rows on show.
    pub closed spec fn rows(&self) -> Seq<ProjectNode> {
        self.tree@
    }

    /// The list on `conn` (empty when the read fails).
    pub fn new(conn: rusqlite::Connection) -> (r: Self) {
        let projects = match list_projects(&conn) {
            Ok(v) => v,
            Err(_) => Vec::new(),
        };
        ProjectListModel { conn, tree: rows_of(projects) }
    }

    /// The row at `row`.
    pub fn node_at(&self, row: i32) -> (r: Option<&ProjectNode>)
        ensures
            match r {
                Some(n) => 0 <= row < self.rows().len() && *n == self.rows()[row as int],
                None => !(0 <= row < self.rows().len()),
            },
    {
        if row < 0 || row as usize >= self.tree.len() {
            return None;
        }
        Some(&self.tree[row as usize])
    }

    /// The id of the project at `row`.
    pub fn id_at(&self, row: i32) -> (r: Option<String>)
        ensures
            match r {
                Some(id) => 0 <= row < self.rows().len() && id@ == self.rows()[row as int].project.id@,
                None => !(0 <= row < self.rows().len()),
            },
    {
        match self.node_at(row) {
            Some(n) => Some(n.project.id.clone()),
            None => None,
        }
    }

    /// Re-read the projects (an empty list when the read fails).
    pub fn reload(&mut self) {
        let projects = match list_projects(&self.conn) {
            Ok(v) => v,
            Err(_) => Vec::new(),
        };
        self.tree = rows_of(projects);
    }

    /// Re-read the projects.
    pub fn refresh(&mut self) {
        self.reload();
    }

    /// Create a project named `name` (trimmed) and return its id; `""` for
    /// a blank name or a failed insert.
    pub fn add(&mut self, name: &str) -> (r: String)
        ensures
            trim(name@).len() == 0 ==> r@.len() == 0 && *final(self) == *old(self),
    {
        let n = trim_str(name);
        if n.unicode_len() == 0 {
            return String::new();
        }
        match create_project(&self.conn, n.as_str()) {
            Ok(p) => {
                self.reload();
                p.id
            },
            Err(_) => String::new(),
        }
    }

    /// Rename the project at `row` to `name` (trimmed); a no-op for a blank
    /// name, no such row, or a failed update.
    pub fn rename(&mut self, row: i32, name: &str)
        ensures
            (trim(name@).len() == 0 || !(0 <= row < old(self).rows().len())) ==> *final(self) == *old(self),
    {
        let n = trim_str(name);
        if n.unicode_len() == 0 {
            return;
        }
        let id = match self.id_at(row) {
            Some(id) => id,
            None => return,
        };
        if rename_project(&self.conn, id.as_str(), n.as_str()).is_err() {
            return;
        }
        self.reload();
    }

    /// Delete the project at `row` (its tasks become unfiled); a no-op for
    /// no such row or a failed delete.
    pub fn remove(&mut self, row: i32)
        ensures
            !(0 <= row < old(self).rows().len()) ==> *final(self) == *old(self),
    {
        let id = match self.id_at(row) {
            Some(id) => id,
            None => return,
        };
        if delete_project(&self.conn, id.as_str()).is_err() {
            return;
        }
        self.reload();
    }

    /// Collapse or expand the row at `row`: a no-op, since no project has
    /// children.
    pub fn toggle_expanded(&mut self, row: i32)
        ensures
            *final(self) == *old(self),
    {
        match self.node_at(row) {
            Some(n) => if !n.has_children {
                return;
            },
            None => return,
        }
    }

    /// How many rows show.
    pub fn row_count(&self) -> (r: usize)
        ensures
            r == self.rows().len(),
    {
        self.tree.len()
    }
}

} // verus!
