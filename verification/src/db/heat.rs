//! The time-invested heatmap: day-by-day totals over a Monday-aligned grid,
//! and the anchors a view pages through.
use vstd::prelude::*;
use crate::sql::{col_int, col_text, fetch, int_at, query, query_one, stmt_of, text_arg, text_at, ArgView, DbError, Row, SqlArg, SqlValue, Stmt, StmtView};
use crate::text::{push_str, str_lt, string_of};

verus! {

/// What the graph is summing over.
#[derive(Debug, Clone, PartialEq, Eq)]
pub enum SeriesTarget {
    /// Every task.
    All,
    /// Tasks in one project.
    Project(String),
    /// One task and its subtasks.
    TaskSubtree(String),
}

/// The span the heatmap covers: the week, month or year around an anchor
/// date.
#[derive(Debug, Clone, Copy, PartialEq, Eq, Structural)]
pub enum HeatRange {
    Week,
    Month,
    Year,
}

/// The SQL of [`HeatRange::sql`].
pub open spec fn range_sql(r: HeatRange) -> (Seq<char>, Seq<char>, Seq<char>) {
    match r {
        HeatRange::Week => (
            "date(?1, '-' || (strftime('%u', ?1) - 1) || ' days')"@,
            "date(?1, '+' || (7 - strftime('%u', ?1)) || ' days')"@,
            "1"@,
        ),
        HeatRange::Month => (
            "date(date(?1,'start of month'), '-' || (strftime('%u', date(?1,'start of month')) - 1) || ' days')"@,
            "date(date(?1,'start of month','+1 month','-1 day'), '+' || (7 - strftime('%u', date(?1,'start of month','+1 month','-1 day'))) || ' days')"@,
            "strftime('%Y-%m', span.day) = strftime('%Y-%m', ?1)"@,
        ),
        HeatRange::Year => (
            "date(date(?1,'start of year'), '-' || (strftime('%u', date(?1,'start of year')) - 1) || ' days')"@,
            "date(date(?1,'start of year','+1 year','-1 day'), '+' || (7 - strftime('%u', date(?1,'start of year','+1 year','-1 day'))) || ' days')"@,
            "strftime('%Y', span.day) = strftime('%Y', ?1)"@,
        ),
    }
}

/// The step of [`HeatRange::step_modifier`].
pub open spec fn step_text(r: HeatRange) -> Seq<char> {
    match r {
        HeatRange::Week => "7 days"@,
        HeatRange::Month => "1 month"@,
        HeatRange::Year => "1 year"@,
    }
}

/// The snap of [`HeatRange::snap_modifier`].
pub open spec fn snap_text(r: HeatRange) -> Seq<char> {
    match r {
        HeatRange::Week => ""@,
        HeatRange::Month => "start of month"@,
        HeatRange::Year => "start of year"@,
    }
}

impl HeatRange {
    /// `(grid start, grid end, "inside the period proper" predicate)` as
    /// SQL. The first two evaluate to a Monday and a Sunday so the grid
    /// squares off; all three reference `?1`, any ISO date within the
    /// period.
    ///
    /// `date(X, 'weekday 1', '-7 days')` is deliberately avoided for the
    /// Monday shift - it overshoots a week when X already is a Monday - so
    /// the ISO weekday (`%u`, Mon=1) is subtracted directly.
    pub fn sql(self) -> (r: (&'static str, &'static str, &'static str))
        ensures
            (r.0@, r.1@, r.2@) == range_sql(self),
    {
        match self {
            HeatRange::Week => (
                "date(?1, '-' || (strftime('%u', ?1) - 1) || ' days')",
                "date(?1, '+' || (7 - strftime('%u', ?1)) || ' days')",
                "1",
            ),
            HeatRange::Month => (
                "date(date(?1,'start of month'), '-' || (strftime('%u', date(?1,'start of month')) - 1) || ' days')",
                "date(date(?1,'start of month','+1 month','-1 day'), '+' || (7 - strftime('%u', date(?1,'start of month','+1 month','-1 day'))) || ' days')",
                "strftime('%Y-%m', span.day) = strftime('%Y-%m', ?1)",
            ),
            HeatRange::Year => (
                "date(date(?1,'start of year'), '-' || (strftime('%u', date(?1,'start of year')) - 1) || ' days')",
                "date(date(?1,'start of year','+1 year','-1 day'), '+' || (7 - strftime('%u', date(?1,'start of year','+1 year','-1 day'))) || ' days')",
                "strftime('%Y', span.day) = strftime('%Y', ?1)",
            ),
        }
    }

    /// The SQLite date modifier for stepping one period.
    pub fn step_modifier(self) -> (r: &'static str)
        ensures
            r@ == step_text(self),
    {
        match self {
            HeatRange::Week => "7 days",
            HeatRange::Month => "1 month",
            HeatRange::Year => "1 year",
        }
    }

    /// The SQLite modifier that snaps a date to this period's first day
    /// (empty for a week, which [`snap_anchor`] handles by weekday
    /// arithmetic).
    pub fn snap_modifier(self) -> (r: &'static str)
        ensures
            r@ == snap_text(self),
    {
        match self {
            HeatRange::Week => "",
            HeatRange::Month => "start of month",
            HeatRange::Year => "start of year",
        }
    }
}

/// One day-cell of the calendar heatmap.
#[derive(Debug, Clone, PartialEq, Eq)]
pub struct HeatCell {
    /// `YYYY-MM-DD`.
    pub date: String,
    /// Seconds recorded that day for the target (0 if none).
    pub seconds: i64,
    /// False for the leading/trailing pad days borrowed from the
    /// neighbouring periods to square off the first and last weeks.
    pub in_period: bool,
}

/// The query snapping `?1` to the first day of its `range` period.
pub open spec fn snap_sql(range: HeatRange) -> Seq<char> {
    if range is Week {
        "SELECT date(?1, '-' || (strftime('%u', ?1) - 1) || ' days')"@
    } else {
        "SELECT date(?1, '"@ + snap_text(range) + "')"@
    }
}

fn snap_query(range: HeatRange) -> (s: String)
    ensures
        s@ == snap_sql(range),
{
    if range == HeatRange::Week {
        return "SELECT date(?1, '-' || (strftime('%u', ?1) - 1) || ' days')".to_owned();
    }
    let mut out: Vec<char> = Vec::new();
    push_str(&mut out, "SELECT date(?1, '");
    push_str(&mut out, range.snap_modifier());
    push_str(&mut out, "')");
    string_of(out.as_slice())
}

/// The query moving `?1` by one `range` period, back when `back`.
pub open spec fn step_sql(range: HeatRange, back: bool) -> Seq<char> {
    "SELECT date(?1, '"@ + (if back { "-"@ } else { "+"@ }) + step_text(range) + "')"@
}

fn step_query(range: HeatRange, back: bool) -> (s: String)
    ensures
        s@ == step_sql(range, back),
{
    let mut out: Vec<char> = Vec::new();
    push_str(&mut out, "SELECT date(?1, '");
    push_str(&mut out, if back { "-" } else { "+" });
    push_str(&mut out, range.step_modifier());
    push_str(&mut out, "')");
    string_of(out.as_slice())
}

fn one_text(conn: &rusqlite::Connection, sql: &str, args: Vec<SqlArg>) -> (r: Result<String, DbError>) {
    let row = query_one(conn, sql, args)?;
    col_text(&row, 0)
}

/// Snap `date` (ISO) to the first day of the `range` period containing it -
/// the Monday for a week, the 1st for a month, Jan 1 for a year. Keeping the
/// anchor normalised means stepping it by whole months or years can't
/// drift.
pub fn snap_anchor(conn: &rusqlite::Connection, range: HeatRange, date: &str) -> (r: Result<String, DbError>) {
    let sql = snap_query(range);
    one_text(conn, sql.as_str(), vec![text_arg(date)])
}

/// Move `anchor` (ISO, already snapped) by `direction` periods (back when
/// negative, forward otherwise) and re-snap.
pub fn step_anchor(conn: &rusqlite::Connection, range: HeatRange, anchor: &str, direction: i32) -> (r: Result<String, DbError>) {
    let sql = step_query(range, direction < 0);
    let stepped = one_text(conn, sql.as_str(), vec![text_arg(anchor)])?;
    snap_anchor(conn, range, stepped.as_str())
}

/// Local today's date, `YYYY-MM-DD`.
pub fn today_date(conn: &rusqlite::Connection) -> (r: Result<String, DbError>) {
    one_text(conn, "SELECT date('now', 'localtime')", vec![])
}

/// True when the period that `anchor` sits in contains today or lies in the
/// future - there is nothing newer to page to.
pub fn heat_at_latest(conn: &rusqlite::Connection, range: HeatRange, anchor: &str) -> (r: Result<bool, DbError>) {
    let today = today_date(conn)?;
    let today_anchor = snap_anchor(conn, range, today.as_str())?;
    Ok(!str_lt(anchor, today_anchor.as_str()))
}

const HEAT_SQL_START: &'static str = "WITH RECURSIVE
           span(day, last) AS (
             SELECT ";

const HEAT_SQL_SPAN_END: &'static str = "
             UNION ALL
             SELECT date(day, '+1 day'), last FROM span WHERE day < last
           )";

const HEAT_SQL_SUBTREE: &'static str = ", subtree(id) AS (
                 SELECT ?2
               UNION ALL
                 SELECT t.id FROM tasks t JOIN subtree s ON t.parent_task_id = s.id
             )";

const HEAT_SQL_SELECT: &'static str = "
         SELECT span.day,
                ";

const HEAT_SQL_JOIN: &'static str = " AS in_period,
                COALESCE(SUM(strftime('%s', e.end_ts) - strftime('%s', e.start_ts)), 0)
         FROM span
         LEFT JOIN time_entries e
                ON substr(e.start_ts, 1, 10) = span.day
               AND e.end_ts IS NOT NULL
               AND ";

const HEAT_SQL_PROJECT: &'static str = "e.task_id IN (SELECT id FROM tasks WHERE project_id = ?2)";

const HEAT_SQL_IN_SUBTREE: &'static str = "e.task_id IN (SELECT id FROM subtree)";

const HEAT_SQL_END: &'static str = "
         GROUP BY span.day
         ORDER BY span.day";

/// The entry condition of a target.
spec fn target_sql(target: SeriesTarget) -> Seq<char> {
    match target {
        SeriesTarget::All => "1"@,
        SeriesTarget::Project(_) => HEAT_SQL_PROJECT@,
        SeriesTarget::TaskSubtree(_) => HEAT_SQL_IN_SUBTREE@,
    }
}

/// The text of [`heatmap_sql`].
spec fn heatmap_text(target: SeriesTarget, range: HeatRange) -> Seq<char> {
    HEAT_SQL_START@ + range_sql(range).0 + ", "@ + range_sql(range).1 + HEAT_SQL_SPAN_END@ + (if target is TaskSubtree {
        HEAT_SQL_SUBTREE@
    } else {
        Seq::empty()
    }) + HEAT_SQL_SELECT@ + range_sql(range).2 + HEAT_SQL_JOIN@ + target_sql(target) + HEAT_SQL_END@
}

/// The query behind [`heatmap`].
fn heatmap_sql(target: &SeriesTarget, range: HeatRange) -> (s: String)
    ensures
        s@ == heatmap_text(*target, range),
{
    let (lo, hi, in_period) = range.sql();
    let mut out: Vec<char> = Vec::new();
    push_str(&mut out, HEAT_SQL_START);
    push_str(&mut out, lo);
    push_str(&mut out, ", ");
    push_str(&mut out, hi);
    push_str(&mut out, HEAT_SQL_SPAN_END);
    let ghost g1 = HEAT_SQL_START@ + range_sql(range).0 + ", "@ + range_sql(range).1 + HEAT_SQL_SPAN_END@;
    assert(out@ =~= g1);
    match target {
        SeriesTarget::TaskSubtree(_) => push_str(&mut out, HEAT_SQL_SUBTREE),
        _ => {},
    }
    let ghost g2 = g1 + (if *target is TaskSubtree {
        HEAT_SQL_SUBTREE@
    } else {
        Seq::empty()
    });
    assert(out@ =~= g2);
    push_str(&mut out, HEAT_SQL_SELECT);
    push_str(&mut out, in_period);
    push_str(&mut out, HEAT_SQL_JOIN);
    let ghost g3 = g2 + HEAT_SQL_SELECT@ + range_sql(range).2 + HEAT_SQL_JOIN@;
    assert(out@ =~= g3);
    match target {
        SeriesTarget::All => push_str(&mut out, "1"),
        SeriesTarget::Project(_) => push_str(&mut out, HEAT_SQL_PROJECT),
        SeriesTarget::TaskSubtree(_) => push_str(&mut out, HEAT_SQL_IN_SUBTREE),
    }
    let ghost g4 = g3 + target_sql(*target);
    assert(out@ =~= g4);
    push_str(&mut out, HEAT_SQL_END);
    assert(out@ =~= heatmap_text(*target, range));
    string_of(out.as_slice())
}

/// Dense day-by-day totals for `target` over the Monday-aligned grid that
/// spans the `range` period around `anchor`, ordered by date (so by week,
/// then weekday Mon..Sun): `cells[i]` sits at grid column `i / 7`, row
/// `i % 7` for a week-per-column layout, or row `i / 7`, column `i % 7` for
/// a week-per-row one. A running timer is not counted.
pub fn heatmap(conn: &rusqlite::Connection, target: &SeriesTarget, range: HeatRange, anchor: &str) -> (r: Result<Vec<HeatCell>, DbError>) {
    heatmap_read(conn, target, range, anchor).0
}

/// The query behind [`heatmap`]: the statement of [`heatmap_sql`], with the
/// anchor date, then the project or task id for a narrowed target.
pub closed spec fn heat_query(target: SeriesTarget, range: HeatRange, anchor: Seq<char>) -> StmtView {
    stmt_of(
        heatmap_text(target, range),
        match target {
            SeriesTarget::All => seq![ArgView::Text(anchor)],
            SeriesTarget::Project(id) => seq![ArgView::Text(anchor), ArgView::Text(id@)],
            SeriesTarget::TaskSubtree(id) => seq![ArgView::Text(anchor), ArgView::Text(id@)],
        },
    )
}

/// [`heatmap`], also giving back the query it handed to SQLite; each cell
/// is read from one row the query gives, in order.
pub fn heatmap_read(conn: &rusqlite::Connection, target: &SeriesTarget, range: HeatRange, anchor: &str) -> (r: (
    Result<Vec<HeatCell>, DbError>,
    Stmt,
))
    ensures
        r.1@ == heat_query(*target, range, anchor@),
{
    let sql = heatmap_sql(target, range);
    let args = match target {
        SeriesTarget::All => vec![text_arg(anchor)],
        SeriesTarget::Project(id) => vec![text_arg(anchor), text_arg(id.as_str())],
        SeriesTarget::TaskSubtree(id) => vec![text_arg(anchor), text_arg(id.as_str())],
    };
    let q = Stmt { sql, args };
    proof {
        assert(q@.args =~= heat_query(*target, range, anchor@).args);
    }
    let rows = match fetch(conn, &q) {
        Ok(rows) => rows,
        Err(e) => return (Err(e), q),
    };
    let mut out: Vec<HeatCell> = Vec::new();
    let mut k: usize = 0;
    while k < rows.len()
        invariant
            k <= rows.len(),
            out.len() == k,
            q@ == heat_query(*target, range, anchor@),
            forall|j: int| 0 <= j < k ==> heat_row(rows@[j]@, #[trigger] out@[j]),
        decreases rows.len() - k,
    {
        match row_to_heat_cell(&rows[k]) {
            Ok(c) => out.push(c),
            Err(e) => return (Err(e), q),
        }
        k += 1;
    }
    (Ok(out), q)
}

/// `c` is what the columns `(date, in-period flag, seconds)` of `row`
/// spell; a non-zero flag is in the period.
pub open spec fn heat_row(row: Seq<SqlValue>, c: HeatCell) -> bool {
    &&& text_at(row, 0) == Some(c.date@)
    &&& int_at(row, 1) is Some
    &&& c.in_period == (int_at(row, 1)->0 != 0)
    &&& int_at(row, 2) == Some(c.seconds)
}

/// One cell from one row of [`heatmap`]'s query.
pub fn row_to_heat_cell(row: &Row) -> (r: Result<HeatCell, DbError>)
    ensures
        match r {
            Ok(c) => heat_row(row@, c),
            Err(_) => !(text_at(row@, 0) is Some && int_at(row@, 1) is Some && int_at(row@, 2) is Some),
        },
{
    let date = col_text(row, 0)?;
    let in_period = col_int(row, 1)?;
    let seconds = col_int(row, 2)?;
    Ok(HeatCell { date, seconds, in_period: in_period != 0 })
}

} // verus!
