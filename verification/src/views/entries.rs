//! The time entries of one task, with the task's own and subtree totals.
use vstd::prelude::*;
use crate::db::{add_manual_entry, delete_entry, has_subtasks, list_entries_for_task, task_seconds, update_entry, EntryRow};
use crate::format::{human_duration, human_duration_spec, human_total, human_total_spec};
use crate::views::graph::clamp_i64;

verus! {

/// The sum of the rows' seconds.
pub open spec fn entries_sum(rows: Seq<EntryRow>) -> int
    decreases rows.len(),
{
    if rows.len() == 0 {
        0
    } else {
        entries_sum(rows.drop_last()) + rows.last().seconds as int
    }
}

/// The total of the rows' seconds, clamped into `i64`.
pub fn entries_total(rows: &Vec<EntryRow>) -> (r: i64)
    ensures
        r == clamp_i64(entries_sum(rows@)),
{
    let mut sum: i128 = 0;
    let mut k: usize = 0;
    while k < rows.len()
        invariant
            k <= rows.len(),
            sum == entries_sum(rows@.take(k as int)),
            -(k as int) * 0x8000_0000_0000_0000 <= sum <= (k as int) * 0x8000_0000_0000_0000,
        decreases rows.len() - k,
    {
        proof {
            assert(rows@.take(k + 1).drop_last() =~= rows@.take(k as int));
            assert(k < 0xFFFF_FFFF_FFFF_FFFF);
            assert((k as int) * 0x8000_0000_0000_0000 <= 0x8000_0000_0000_0000_0000_0000_0000_0000 - 0x1_0000_0000_0000_0000) by (nonlinear_arith)
                requires
                    k < 0xFFFF_FFFF_FFFF_FFFF,
            ;
        }
        sum = sum + rows[k].seconds as i128;
        k += 1;
    }
    proof {
        assert(rows@.take(k as int) =~= rows@);
    }
    if sum > 0x7fff_ffff_ffff_ffff {
        0x7fff_ffff_ffff_ffff
    } else if sum < -0x8000_0000_0000_0000 {
        -0x8000_0000_0000_0000
    } else {
        sum as i64
    }
}

/// The entries list's state.
pub struct EntriesModel {
    conn: rusqlite::Connection,
    task_id: String,
    total_text: String,
    subtree_total_text: String,
    has_subtasks: bool,
    cache: Vec<EntryRow>,
}

impl EntriesModel {
    /// The total over the task and its subtasks, as text.
    pub closed spec fn subtree_text(&self) -> Seq<char> {
        self.subtree_total_text@
    }

    /// Whether the task was last found to have subtasks.
    pub closed spec fn has_sub(&self) -> bool {
        self.has_subtasks
    }

    /// The task whose entries show (`""` for none).
    pub closed spec fn task(&self) -> Seq<char> {
        self.task_id@
    }

    /// The entries on show.
    pub closed spec fn rows(&self) -> Seq<EntryRow> {
        self.cache@
    }

    /// The total text is the rows' total.
    pub closed spec fn total_matches(&self) -> bool {
        self.total_text@ == human_total_spec(clamp_i64(entries_sum(self.cache@)) as int)
    }

    /// An empty list on `conn`.
    pub fn new(conn: rusqlite::Connection) -> (r: Self)
        ensures
            r.task().len() == 0,
            r.rows().len() == 0,
    {
        EntriesModel {
            conn,
            task_id: String::new(),
            total_text: String::new(),
            subtree_total_text: String::new(),
            has_subtasks: false,
            cache: Vec::new(),
        }
    }

    /// Re-read the task's entries and totals: none without a task, and a
    /// failed read shows none; a failed subtree read falls back to the
    /// task's own total.
    pub fn reload(&mut self)
        ensures
            final(self).task() == old(self).task(),
            final(self).total_matches(),
            old(self).task().len() == 0 ==> final(self).rows().len() == 0,
    {
        let entries = if self.task_id.unicode_len() == 0 {
            Vec::new()
        } else {
            match list_entries_for_task(&self.conn, self.task_id.as_str()) {
                Ok(v) => v,
                Err(_) => Vec::new(),
            }
        };
        let total = entries_total(&entries);
        let (subtree_total, has_sub) = if self.task_id.unicode_len() == 0 {
            (total, false)
        } else {
            (
                match task_seconds(&self.conn, self.task_id.as_str(), true) {
                    Ok(s) => s,
                    Err(_) => total,
                },
                match has_subtasks(&self.conn, self.task_id.as_str()) {
                    Ok(b) => b,
                    Err(_) => false,
                },
            )
        };
        self.cache = entries;
        self.total_text = human_total(total);
        self.subtree_total_text = human_total(subtree_total);
        self.has_subtasks = has_sub;
    }

    /// Show the entries of `value` and reload.
    pub fn set_task_id(&mut self, value: &str)
        ensures
            final(self).task() == value@,
            final(self).total_matches(),
    {
        self.task_id = value.to_owned();
        self.reload();
    }

    /// The id of the entry at `row`.
    pub fn id_at(&self, row: i32) -> (r: Option<String>)
        ensures
            match r {
                Some(id) => 0 <= row < self.rows().len() && id@ == self.rows()[row as int].entry.id@,
                None => !(0 <= row < self.rows().len()),
            },
    {
        if row < 0 || row as usize >= self.cache.len() {
            return None;
        }
        Some(self.cache[row as usize].entry.id.clone())
    }

    /// Add a hand-entered entry to the task; a no-op without a task, and for
    /// malformed or backwards times (which the repository rejects).
    pub fn add(&mut self, start: &str, end: &str)
        ensures
            old(self).task().len() == 0 ==> *final(self) == *old(self),
    {
        if self.task_id.unicode_len() == 0 {
            return;
        }
        match add_manual_entry(&self.conn, self.task_id.as_str(), start, end, "") {
            Ok(Some(_)) => self.reload(),
            _ => {},
        }
    }

    /// Edit the span of the entry at `row`; a no-op for no such row and for
    /// malformed or backwards times.
    pub fn update(&mut self, row: i32, start: &str, end: &str)
        ensures
            !(0 <= row < old(self).rows().len()) ==> *final(self) == *old(self),
    {
        let id = match self.id_at(row) {
            Some(id) => id,
            None => return,
        };
        match update_entry(&self.conn, id.as_str(), start, end, "") {
            Ok(true) => self.reload(),
            _ => {},
        }
    }

    /// Delete the entry at `row`; a no-op for no such row or a failed
    /// delete.
    pub fn remove(&mut self, row: i32)
        ensures
            !(0 <= row < old(self).rows().len()) ==> *final(self) == *old(self),
    {
        let id = match self.id_at(row) {
            Some(id) => id,
            None => return,
        };
        if delete_entry(&self.conn, id.as_str()).is_err() {
            return;
        }
        self.reload();
    }

    /// The task whose entries show.
    pub fn task_id(&self) -> (r: &str)
        ensures
            r@ == self.task(),
    {
        self.task_id.as_str()
    }

    /// The task's own total, as text.
    pub fn total_text(&self) -> (r: &str)
        requires
            self.total_matches(),
        ensures
            r@ == human_total_spec(clamp_i64(entries_sum(self.rows())) as int),
    {
        self.total_text.as_str()
    }

    /// The total over the task and its subtasks, as text.
    pub fn subtree_total_text(&self) -> (r: &str)
        ensures
            r@ == self.subtree_text(),
    {
        self.subtree_total_text.as_str()
    }

    /// Whether the task has subtasks.
    pub fn has_subtasks(&self) -> (r: bool)
        ensures
            r == self.has_sub(),
    {
        self.has_subtasks
    }

    /// How many entries show.
    pub fn row_count(&self) -> (r: usize)
        ensures
            r == self.rows().len(),
    {
        self.cache.len()
    }

    /// The entry at `row`.
    pub fn row_at(&self, row: i32) -> (r: Option<&EntryRow>)
        ensures
            match r {
                Some(e) => 0 <= row < self.rows().len() && *e == self.rows()[row as int],
                None => !(0 <= row < self.rows().len()),
            },
    {
        if row < 0 || row as usize >= self.cache.len() {
            return None;
        }
        Some(&self.cache[row as usize])
    }

    /// The entry at `row`'s duration as text (`""` for no such row).
    pub fn duration_text(&self, row: i32) -> (r: String)
        ensures
            0 <= row < self.rows().len() ==> r@ == human_duration_spec(self.rows()[row as int].seconds as int),
    {
        match self.row_at(row) {
            Some(e) => human_duration(e.seconds),
            None => String::new(),
        }
    }

    /// Whether the entry at `row` is the running timer.
    pub fn running(&self, row: i32) -> (r: bool)
        ensures
            r == (0 <= row < self.rows().len() && self.rows()[row as int].entry.end_ts is None),
    {
        match self.row_at(row) {
            Some(e) => e.entry.end_ts.is_none(),
            None => false,
        }
    }
}

} // verus!
