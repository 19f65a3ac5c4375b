//! The calendar heatmap of time invested: a target (every task, a project,
//! or a task with its subtasks), a range (week, month or year), and an
//! anchor date paged through period by period. One cell per day of the
//! Monday-aligned grid spanning the period, ordered by date.
use vstd::prelude::*;
use crate::db::{heat_at_latest, heatmap, snap_anchor, step_anchor, today_date, HeatCell, HeatRange, SeriesTarget};
use crate::format::{human_hours, human_total_spec};

verus! {

/// The range a setting number stands for: 0 a week, 1 a month, anything
/// else a year.
pub fn range_of(value: i32) -> (r: HeatRange)
    ensures
        r == (if value == 0 {
            HeatRange::Week
        } else if value == 1 {
            HeatRange::Month
        } else {
            HeatRange::Year
        }),
{
    if value == 0 {
        HeatRange::Week
    } else if value == 1 {
        HeatRange::Month
    } else {
        HeatRange::Year
    }
}

/// The sum of the in-period cells' seconds.
pub open spec fn period_sum(cells: Seq<HeatCell>) -> int
    decreases cells.len(),
{
    if cells.len() == 0 {
        0
    } else {
        period_sum(cells.drop_last()) + (if cells.last().in_period {
            cells.last().seconds as int
        } else {
            0
        })
    }
}

/// The largest in-period cell's seconds, if any cell is in the period.
pub open spec fn period_max(cells: Seq<HeatCell>) -> Option<i64>
    decreases cells.len(),
{
    if cells.len() == 0 {
        None
    } else {
        let rest = period_max(cells.drop_last());
        let c = cells.last();
        if !c.in_period {
            rest
        } else {
            match rest {
                Some(m) => Some(if c.seconds > m { c.seconds } else { m }),
                None => Some(c.seconds),
            }
        }
    }
}

/// `x` clamped into `i64`.
pub open spec fn clamp_i64(x: int) -> i64 {
    if x > i64::MAX {
        i64::MAX
    } else if x < i64::MIN {
        i64::MIN
    } else {
        x as i64
    }
}

/// The in-period maximum (0 when no cell is in the period) and total
/// (clamped into `i64`) of a grid.
pub fn period_stats(cells: &Vec<HeatCell>) -> (r: (i64, i64))
    ensures
        r.0 == (match period_max(cells@) {
            Some(m) => m,
            None => 0,
        }),
        r.1 == clamp_i64(period_sum(cells@)),
{
    let mut max: Option<i64> = None;
    let mut sum: i128 = 0;
    let mut k: usize = 0;
    while k < cells.len()
        invariant
            k <= cells.len(),
            max == period_max(cells@.take(k as int)),
            sum == period_sum(cells@.take(k as int)),
            -(k as int) * 0x8000_0000_0000_0000 <= sum <= (k as int) * 0x8000_0000_0000_0000,
        decreases cells.len() - k,
    {
        let c = &cells[k];
        proof {
            assert(cells@.take(k + 1).drop_last() =~= cells@.take(k as int));
            assert(k < 0xFFFF_FFFF_FFFF_FFFF);
            assert((k as int) * 0x8000_0000_0000_0000 <= 0x8000_0000_0000_0000_0000_0000_0000_0000 - 0x1_0000_0000_0000_0000) by (nonlinear_arith)
                requires
                    k < 0xFFFF_FFFF_FFFF_FFFF,
            ;
        }
        if c.in_period {
            sum = sum + c.seconds as i128;
            max = match max {
                Some(m) => Some(if c.seconds > m { c.seconds } else { m }),
                None => Some(c.seconds),
            };
        }
        k += 1;
    }
    proof {
        assert(cells@.take(k as int) =~= cells@);
    }
    let top = match max {
        Some(m) => m,
        None => 0,
    };
    let total: i64 = if sum > 0x7fff_ffff_ffff_ffff {
        0x7fff_ffff_ffff_ffff
    } else if sum < -0x8000_0000_0000_0000 {
        -0x8000_0000_0000_0000
    } else {
        sum as i64
    };
    (top, total)
}

/// The heatmap's state.
pub struct GraphModel {
    conn: rusqlite::Connection,
    /// 0 every task, 1 a project, 2 a task and its subtasks.
    target_kind: i32,
    target_id: String,
    /// 0 week, 1 month, 2 year.
    range: i32,
    /// First day (ISO) of the period on show; snapped to the range.
    anchor: String,
    /// The period contains today or lies in the future.
    at_latest: bool,
    /// The largest in-period day total, for colour scaling.
    max_seconds: i64,
    /// The in-period total as text.
    total_text: String,
    cells: Vec<HeatCell>,
}

impl GraphModel {
    /// The target kind.
    pub closed spec fn kind(&self) -> i32 {
        self.target_kind
    }

    /// The target id.
    pub closed spec fn target_text(&self) -> Seq<char> {
        self.target_id@
    }

    /// The first day of the period on show.
    pub closed spec fn anchor_text(&self) -> Seq<char> {
        self.anchor@
    }

    /// Whether the period on show was last found to be the newest.
    pub closed spec fn is_latest(&self) -> bool {
        self.at_latest
    }

    /// The range number.
    pub closed spec fn range_value(&self) -> i32 {
        self.range
    }

    /// The cells on show.
    pub closed spec fn grid(&self) -> Seq<HeatCell> {
        self.cells@
    }

    /// The figures derived from the cells: in-period maximum and total.
    pub closed spec fn stats_match(&self) -> bool {
        &&& self.max_seconds == (match period_max(self.cells@) {
            Some(m) => m,
            None => 0,
        })
        &&& self.total_text@ == human_total_spec(clamp_i64(period_sum(self.cells@)) as int)
    }

    /// Open the heatmap on `conn`: every task, the current year.
    pub fn new(conn: rusqlite::Connection) -> (r: Self)
        ensures
            r.kind() == 0,
            r.range_value() == 2,
            r.stats_match(),
    {
        let today = match today_date(&conn) {
            Ok(d) => d,
            Err(_) => "2026-01-01".to_owned(),
        };
        let anchor = match snap_anchor(&conn, HeatRange::Year, today.as_str()) {
            Ok(a) => a,
            Err(_) => today,
        };
        let mut g = GraphModel {
            conn,
            target_kind: 0,
            target_id: String::new(),
            range: 2,
            anchor,
            at_latest: false,
            max_seconds: 0,
            total_text: String::new(),
            cells: Vec::new(),
        };
        g.reload();
        g
    }

    /// What the heatmap sums over: a project or a task subtree when the kind
    /// says so and an id is set, every task otherwise.
    pub fn target(&self) -> (r: SeriesTarget)
        ensures
            match r {
                SeriesTarget::Project(id) => self.kind() == 1 && id@ == self.target_text() && id@.len() > 0,
                SeriesTarget::TaskSubtree(id) => self.kind() == 2 && id@ == self.target_text() && id@.len() > 0,
                SeriesTarget::All => !((self.kind() == 1 || self.kind() == 2) && self.target_text().len() > 0),
            },
    {
        let id = self.target_id.clone();
        if self.target_kind == 1 && id.unicode_len() > 0 {
            SeriesTarget::Project(id)
        } else if self.target_kind == 2 && id.unicode_len() > 0 {
            SeriesTarget::TaskSubtree(id)
        } else {
            SeriesTarget::All
        }
    }

    /// Re-read the cells, the in-period maximum and total, and whether the
    /// period is the latest. A failed read shows no cells; a failed
    /// "latest" check counts as latest.
    pub fn reload(&mut self)
        ensures
            final(self).stats_match(),
            final(self).kind() == old(self).kind(),
            final(self).target_text() == old(self).target_text(),
            final(self).range_value() == old(self).range_value(),
    {
        let range = range_of(self.range);
        let cells = match heatmap(&self.conn, &self.target(), range, self.anchor.as_str()) {
            Ok(c) => c,
            Err(_) => Vec::new(),
        };
        let (max, total) = period_stats(&cells);
        let at_latest = match heat_at_latest(&self.conn, range, self.anchor.as_str()) {
            Ok(b) => b,
            Err(_) => true,
        };
        self.cells = cells;
        self.at_latest = at_latest;
        self.max_seconds = max;
        self.total_text = human_hours(total);
    }

    /// Overwrite the anchor with `value` snapped to the current range (left
    /// as given when snapping fails).
    fn reanchor(&mut self, value: &str)
        ensures
            final(self).kind() == old(self).kind(),
            final(self).target_text() == old(self).target_text(),
            final(self).range_value() == old(self).range_value(),
            final(self).grid() == old(self).grid(),
            final(self).stats_match() == old(self).stats_match(),
    {
        let range = range_of(self.range);
        let snapped = match snap_anchor(&self.conn, range, value) {
            Ok(a) => a,
            Err(_) => value.to_owned(),
        };
        self.anchor = snapped;
    }

    /// Set the target kind and reload.
    pub fn set_target_kind(&mut self, value: i32)
        ensures
            final(self).kind() == value,
            final(self).target_text() == old(self).target_text(),
            final(self).range_value() == old(self).range_value(),
            final(self).stats_match(),
    {
        self.target_kind = value;
        self.reload();
    }

    /// Set the target id and reload.
    pub fn set_target_id(&mut self, value: &str)
        ensures
            final(self).kind() == old(self).kind(),
            final(self).target_text() == value@,
            final(self).range_value() == old(self).range_value(),
            final(self).stats_match(),
    {
        self.target_id = value.to_owned();
        self.reload();
    }

    /// Set the range (clamped to 0..=2). When the period on show contains
    /// today, the new range shows the period containing today too;
    /// otherwise it shows the period around the current anchor.
    pub fn set_range(&mut self, value: i32)
        ensures
            final(self).range_value() == (if value < 0 {
                0
            } else if value > 2 {
                2
            } else {
                value
            }),
            final(self).kind() == old(self).kind(),
            final(self).target_text() == old(self).target_text(),
            final(self).stats_match(),
    {
        let was_latest = match heat_at_latest(&self.conn, range_of(self.range), self.anchor.as_str()) {
            Ok(b) => b,
            Err(_) => false,
        };
        self.range = if value < 0 {
            0
        } else if value > 2 {
            2
        } else {
            value
        };
        let seed = if was_latest {
            match today_date(&self.conn) {
                Ok(d) => d,
                Err(_) => self.anchor.clone(),
            }
        } else {
            self.anchor.clone()
        };
        self.reanchor(seed.as_str());
        self.reload();
    }

    /// Move the anchor to the period containing `value` and reload.
    pub fn set_anchor(&mut self, value: &str)
        ensures
            final(self).kind() == old(self).kind(),
            final(self).target_text() == old(self).target_text(),
            final(self).range_value() == old(self).range_value(),
            final(self).stats_match(),
    {
        self.reanchor(value);
        self.reload();
    }

    /// Page by `direction` whole periods (back when negative); a no-op when
    /// stepping fails.
    pub fn step(&mut self, direction: i32)
        ensures
            final(self).kind() == old(self).kind(),
            final(self).target_text() == old(self).target_text(),
            final(self).range_value() == old(self).range_value(),
            old(self).stats_match() ==> final(self).stats_match(),
    {
        let range = range_of(self.range);
        let next = match step_anchor(&self.conn, range, self.anchor.as_str(), direction) {
            Ok(a) => a,
            Err(_) => return,
        };
        self.anchor = next;
        self.reload();
    }

    /// The target kind.
    pub fn target_kind(&self) -> (r: i32)
        ensures
            r == self.kind(),
    {
        self.target_kind
    }

    /// The target id.
    pub fn target_id(&self) -> (r: &str)
        ensures
            r@ == self.target_text(),
    {
        self.target_id.as_str()
    }

    /// The range number.
    pub fn range(&self) -> (r: i32)
        ensures
            r == self.range_value(),
    {
        self.range
    }

    /// The first day of the period on show.
    pub fn anchor(&self) -> (r: &str)
        ensures
            r@ == self.anchor_text(),
    {
        self.anchor.as_str()
    }

    /// Whether there is nothing newer to page to.
    pub fn at_latest(&self) -> (r: bool)
        ensures
            r == self.is_latest(),
    {
        self.at_latest
    }

    /// The largest in-period day total.
    pub fn max_seconds(&self) -> (r: i64)
        requires
            self.stats_match(),
        ensures
            r == (match period_max(self.grid()) {
                Some(m) => m,
                None => 0,
            }),
    {
        self.max_seconds
    }

    /// The in-period total as text.
    pub fn total_text(&self) -> (r: &str)
        requires
            self.stats_match(),
        ensures
            r@ == human_total_spec(clamp_i64(period_sum(self.grid())) as int),
    {
        self.total_text.as_str()
    }

    /// How many cells there are.
    pub fn row_count(&self) -> (r: usize)
        ensures
            r == self.grid().len(),
    {
        self.cells.len()
    }

    /// The cell at `row`.
    pub fn cell_at(&self, row: i32) -> (r: Option<&HeatCell>)
        ensures
            match r {
                Some(c) => 0 <= row < self.grid().len() && *c == self.grid()[row as int],
                None => !(0 <= row < self.grid().len()),
            },
    {
        if row < 0 || row as usize >= self.cells.len() {
            return None;
        }
        Some(&self.cells[row as usize])
    }

    /// The cell at `row`'s total as text (`""` when there is no such cell).
    pub fn hours_text(&self, row: i32) -> (r: String)
        ensures
            0 <= row < self.grid().len() ==> r@ == human_total_spec(self.grid()[row as int].seconds as int),
    {
        match self.cell_at(row) {
            Some(c) => human_hours(c.seconds),
            None => String::new(),
        }
    }
}

} // verus!
