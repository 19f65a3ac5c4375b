//! Time entries, the running timer, crash recovery and time totals.
//!
//! Durations come from `strftime('%s', ...)`, which reads the naive local
//! timestamps as if they were UTC; both ends of an entry use the same clock,
//! so the difference is still right.
use vstd::prelude::*;
use crate::domain::{new_id, EntrySource, ProjectFilter, TimeEntry, manual_text};
use crate::sql::{
    col_int, col_opt_text, col_text, execute, null_at, query, query_one, query_opt, text_arg,
    text_at, DbError, Row, SqlArg, SqlValue, run, fetch, stmt, stmt_of, stmts_view, opt_text_view, ArgView, Stmt, StmtView,
};
use crate::text::{chars_lt, chars_of, is_ascii_digit, is_digit, lex_lt, string_of, trim, trim_str, trim_vec};
use crate::db::opt_text_is;

verus! {

/// The columns an entry is read from, in [`row_to_entry`]'s order.
pub const ENTRY_COLUMNS: &'static str = "id, task_id, start_ts, end_ts, source, note, created_at";

/// `meta` key holding the last local time the running timer was seen alive.
pub const HEARTBEAT_KEY: &'static str = "timer_heartbeat";

/// `e` is the entry columns `0..7` of `row` spell.
pub open spec fn entry_row(row: Seq<SqlValue>, e: TimeEntry) -> bool {
    &&& text_at(row, 0) == Some(e.id@)
    &&& text_at(row, 1) == Some(e.task_id@)
    &&& text_at(row, 2) == Some(e.start_ts@)
    &&& opt_text_is(row, 3, e.end_ts)
    &&& text_at(row, 4) is Some
    &&& e.source == (if text_at(row, 4)->0 == manual_text() {
        EntrySource::Manual
    } else {
        EntrySource::Timer
    })
    &&& text_at(row, 5) == Some(e.note@)
    &&& text_at(row, 6) == Some(e.created_at@)
}

/// Columns `0..7` of `row` have the types of an entry row.
pub open spec fn entry_row_ok(row: Seq<SqlValue>) -> bool {
    &&& text_at(row, 0) is Some
    &&& text_at(row, 1) is Some
    &&& text_at(row, 2) is Some
    &&& (null_at(row, 3) || text_at(row, 3) is Some)
    &&& text_at(row, 4) is Some
    &&& text_at(row, 5) is Some
    &&& text_at(row, 6) is Some
}

/// An entry from the columns of [`ENTRY_COLUMNS`].
pub fn row_to_entry(row: &Row) -> (r: Result<TimeEntry, DbError>)
    ensures
        match r {
            Ok(e) => entry_row(row@, e),
            Err(_) => !entry_row_ok(row@),
        },
{
    let id = col_text(row, 0)?;
    let task_id = col_text(row, 1)?;
    let start_ts = col_text(row, 2)?;
    let end_ts = col_opt_text(row, 3)?;
    let source = col_text(row, 4)?;
    let note = col_text(row, 5)?;
    let created_at = col_text(row, 6)?;
    Ok(
        TimeEntry {
            id,
            task_id,
            start_ts,
            end_ts,
            source: EntrySource::from_db(source.as_str()),
            note,
            created_at,
        },
    )
}

/// Fetch one time entry by id.
pub fn get_entry(conn: &rusqlite::Connection, id: &str) -> (r: Result<Option<TimeEntry>, DbError>) {
    let row = query_opt(
        conn,
        "SELECT id, task_id, start_ts, end_ts, source, note, created_at FROM time_entries WHERE id = ?1",
        vec![text_arg(id)],
    )?;
    match row {
        Some(row) => Ok(Some(row_to_entry(&row)?)),
        None => Ok(None),
    }
}

/// The currently running timer entry (`end_ts IS NULL`), if any.
pub fn running_entry(conn: &rusqlite::Connection) -> (r: Result<Option<TimeEntry>, DbError>) {
    let row = query_opt(
        conn,
        "SELECT id, task_id, start_ts, end_ts, source, note, created_at FROM time_entries WHERE end_ts IS NULL",
        vec![],
    )?;
    match row {
        Some(row) => Ok(Some(row_to_entry(&row)?)),
        None => Ok(None),
    }
}

/// The running timer joined with its task, for the UI's timer bar.
#[derive(Debug, Clone, PartialEq)]
pub struct RunningTimer {
    pub entry_id: String,
    pub task_id: String,
    pub task_title: String,
    pub start_ts: String,
}

/// The running timer, if any, with its task's title.
pub fn running_timer(conn: &rusqlite::Connection) -> (r: Result<Option<RunningTimer>, DbError>) {
    let row = query_opt(
        conn,
        "SELECT e.id, e.task_id, t.title, e.start_ts
         FROM time_entries e JOIN tasks t ON t.id = e.task_id
         WHERE e.end_ts IS NULL",
        vec![],
    )?;
    match row {
        Some(row) => Ok(Some(row_to_running_timer(&row)?)),
        None => Ok(None),
    }
}

/// `t` is what the columns `(entry id, task id, title, start)` of `row`
/// spell.
pub open spec fn running_row(row: Seq<SqlValue>, t: RunningTimer) -> bool {
    &&& text_at(row, 0) == Some(t.entry_id@)
    &&& text_at(row, 1) == Some(t.task_id@)
    &&& text_at(row, 2) == Some(t.task_title@)
    &&& text_at(row, 3) == Some(t.start_ts@)
}

/// The running timer from one row of [`running_timer`]'s query.
pub fn row_to_running_timer(row: &Row) -> (r: Result<RunningTimer, DbError>)
    ensures
        match r {
            Ok(t) => running_row(row@, t),
            Err(_) => !(text_at(row@, 0) is Some && text_at(row@, 1) is Some && text_at(row@, 2) is Some
                && text_at(row@, 3) is Some),
        },
{
    let entry_id = col_text(row, 0)?;
    let task_id = col_text(row, 1)?;
    let task_title = col_text(row, 2)?;
    let start_ts = col_text(row, 3)?;
    Ok(RunningTimer { entry_id, task_id, task_title, start_ts })
}

/// Start timing `task_id`. A timer already running is stopped first, so
/// starting is also how the timer moves on to another task.
pub fn start_timer(conn: &rusqlite::Connection, task_id: &str) -> (r: Result<TimeEntry, DbError>) {
    let (e, _id, _sent) = start_timer_sent(conn, task_id)?;
    Ok(e)
}

pub const START_TIMER_SQL: &'static str = "INSERT INTO time_entries (id, task_id, start_ts, source, created_at)
         VALUES (?1, ?2, strftime('%Y-%m-%dT%H:%M:%S', 'now', 'localtime'), 'timer',
                 strftime('%Y-%m-%dT%H:%M:%S', 'now', 'localtime'))";
pub const STOP_TIMER_SQL: &'static str = "UPDATE time_entries SET end_ts = strftime('%Y-%m-%dT%H:%M:%S', 'now', 'localtime') WHERE id = ?1";

/// Open timer entry `id` on task `task_id`, started now.
pub open spec fn start_timer_stmt(id: Seq<char>, task_id: Seq<char>) -> StmtView {
    stmt_of(START_TIMER_SQL@, seq![ArgView::Text(id), ArgView::Text(task_id)])
}

/// Close entry `id` now.
pub open spec fn stop_timer_stmt(id: Seq<char>) -> StmtView {
    stmt_of(STOP_TIMER_SQL@, seq![ArgView::Text(id)])
}

/// What stopping the timer writes: nothing when no entry is open, else the
/// closing of the open entry.
pub open spec fn stop_sent(sent: Seq<StmtView>) -> bool {
    sent.len() == 0 || exists|id: Seq<char>| sent == seq![#[trigger] stop_timer_stmt(id)]
}

/// [`start_timer`], also giving back the new entry's id and the statements
/// it ran: the running entry closed first (if any), then the new one
/// opened.
pub fn start_timer_sent(conn: &rusqlite::Connection, task_id: &str) -> (r: Result<(TimeEntry, String, Vec<Stmt>), DbError>)
    ensures
        r matches Ok((_e, id, sent)) ==> exists|stop: Seq<StmtView>|
            #[trigger] stop_sent(stop) && stmts_view(sent@) == stop + seq![start_timer_stmt(id@, task_id@)],
{
    let (_stopped, mut sent) = stop_timer_sent(conn)?;
    let ghost stop = stmts_view(sent@);
    let id = new_id();
    let s = stmt(START_TIMER_SQL, vec![text_arg(id.as_str()), text_arg(task_id)]);
    proof {
        assert(s@.args =~= start_timer_stmt(id@, task_id@).args);
    }
    run(conn, &s)?;
    let ghost before = sent@;
    let ghost sv = s@;
    sent.push(s);
    proof {
        assert(stmts_view(sent@) =~= stmts_view(before) + seq![sv]);
    }
    match get_entry(conn, id.as_str())? {
        Some(e) => Ok((e, id, sent)),
        None => Err(DbError::Missing),
    }
}

/// Stop the running timer, if any, setting its `end_ts` to now. Returns the
/// entry that was stopped.
pub fn stop_timer(conn: &rusqlite::Connection) -> (r: Result<Option<TimeEntry>, DbError>) {
    let (e, _sent) = stop_timer_sent(conn)?;
    Ok(e)
}

/// [`stop_timer`], also giving back what it wrote: the closing of the
/// running entry, if one was running.
pub fn stop_timer_sent(conn: &rusqlite::Connection) -> (r: Result<(Option<TimeEntry>, Vec<Stmt>), DbError>)
    ensures
        r matches Ok((_e, sent)) ==> stop_sent(stmts_view(sent@)),
{
    let entry = match running_entry(conn)? {
        Some(e) => e,
        None => {
            let sent: Vec<Stmt> = Vec::new();
            proof {
                assert(stmts_view(sent@) =~= Seq::<StmtView>::empty());
            }
            return Ok((None, sent));
        },
    };
    let s = stmt(STOP_TIMER_SQL, vec![text_arg(entry.id.as_str())]);
    proof {
        assert(s@.args =~= stop_timer_stmt(entry.id@).args);
    }
    run(conn, &s)?;
    let ghost sv = s@;
    let sent = vec![s];
    proof {
        assert(stmts_view(sent@) =~= seq![stop_timer_stmt(entry.id@)]);
    }
    let e = get_entry(conn, entry.id.as_str())?;
    Ok((e, sent))
}

/// Duration of a closed entry in whole seconds (0 if it is still open or
/// gone). Used by the timer's pause/resume bookkeeping to accumulate worked
/// time.
pub fn entry_duration_seconds(conn: &rusqlite::Connection, id: &str) -> (r: Result<i64, DbError>) {
    let row = query_opt(
        conn,
        "SELECT COALESCE(strftime('%s', end_ts) - strftime('%s', start_ts), 0)
         FROM time_entries WHERE id = ?1",
        vec![text_arg(id)],
    )?;
    match row {
        Some(row) => col_int(&row, 0),
        None => Ok(0),
    }
}

// --- Crash recovery -----------------------------------------------------------------

/// Read a value from the `meta` key/value table.
pub fn get_meta(conn: &rusqlite::Connection, key: &str) -> (r: Result<Option<String>, DbError>) {
    let row = query_opt(conn, "SELECT value FROM meta WHERE key = ?1", vec![text_arg(key)])?;
    match row {
        Some(row) => Ok(Some(col_text(&row, 0)?)),
        None => Ok(None),
    }
}

/// Upsert a value into the `meta` key/value table.
pub fn set_meta(conn: &rusqlite::Connection, key: &str, value: &str) -> (r: Result<(), DbError>) {
    execute(
        conn,
        "INSERT INTO meta (key, value) VALUES (?1, ?2)
         ON CONFLICT(key) DO UPDATE SET value = excluded.value",
        vec![text_arg(key), text_arg(value)],
    )?;
    Ok(())
}

/// Stamp the running timer as alive as of now. Called on start/resume and
/// on a periodic tick so [`recover_orphan_timer`] has a recent cut-off.
pub fn timer_heartbeat(conn: &rusqlite::Connection) -> (r: Result<(), DbError>) {
    let row = query_one(conn, "SELECT strftime('%Y-%m-%dT%H:%M:%S', 'now', 'localtime')", vec![])?;
    let now = col_text(&row, 0)?;
    set_meta(conn, HEARTBEAT_KEY, now.as_str())
}

/// What a crash left running, after it has been closed off.
#[derive(Debug, Clone, PartialEq)]
pub struct RecoveredTimer {
    pub task_id: String,
    pub task_title: String,
    /// Worked seconds now banked on the (now closed) entry.
    pub seconds: i64,
}

/// Close an entry a previous run left open (`end_ts IS NULL`), billing it
/// only up to the last heartbeat and never outside the entry's own
/// `[start, now]` span. Returns what was recovered so the caller can present
/// it as a paused session; `None` when nothing was left running.
///
/// The cut-off is `max(start_ts, min(heartbeat, now))`: a missing or stale
/// heartbeat collapses to `start_ts` (about zero duration - no guessing), a
/// future one is clamped to now, otherwise the heartbeat wins.
pub fn recover_orphan_timer(conn: &rusqlite::Connection) -> (r: Result<Option<RecoveredTimer>, DbError>) {
    let (rec, _sent) = recover_orphan_timer_sent(conn)?;
    Ok(rec)
}

pub const CLOSE_ORPHAN_SQL: &'static str = "UPDATE time_entries
            SET end_ts = MAX(start_ts, MIN(COALESCE(?2, start_ts), strftime('%Y-%m-%dT%H:%M:%S', 'now', 'localtime')))
          WHERE id = ?1";

/// Close entry `id` at `max(start, min(heartbeat, now))`, the heartbeat
/// being `beat` (NULL: none, which closes it at its start).
pub open spec fn close_orphan_stmt(id: Seq<char>, beat: Option<Seq<char>>) -> StmtView {
    stmt_of(CLOSE_ORPHAN_SQL@, seq![ArgView::Text(id), opt_text_view(beat)])
}

/// [`recover_orphan_timer`], also giving back what it wrote: nothing when
/// no entry was left open, else the closing of that entry at the cut-off
/// given by the heartbeat read from the `meta` table.
pub fn recover_orphan_timer_sent(conn: &rusqlite::Connection) -> (r: Result<(Option<RecoveredTimer>, Vec<Stmt>), DbError>)
    ensures
        r matches Ok((rec, sent)) ==> (rec is None <==> sent@.len() == 0) && (sent@.len() == 0 || exists|
            id: Seq<char>,
            beat: Option<Seq<char>>,
        | stmts_view(sent@) == seq![#[trigger] close_orphan_stmt(id, beat)]),
{
    let rt = match running_timer(conn)? {
        Some(rt) => rt,
        None => return Ok((None, Vec::new())),
    };
    let heartbeat = get_meta(conn, HEARTBEAT_KEY)?;
    let beat_arg = match &heartbeat {
        Some(h) => text_arg(h.as_str()),
        None => SqlArg::Null,
    };
    let s = stmt(CLOSE_ORPHAN_SQL, vec![text_arg(rt.entry_id.as_str()), beat_arg]);
    proof {
        assert(s@.args =~= close_orphan_stmt(rt.entry_id@, crate::domain::opt_view(heartbeat)).args);
    }
    run(conn, &s)?;
    let ghost sv = s@;
    let sent = vec![s];
    proof {
        assert(stmts_view(sent@) =~= seq![close_orphan_stmt(rt.entry_id@, crate::domain::opt_view(heartbeat))]);
    }
    let seconds = entry_duration_seconds(conn, rt.entry_id.as_str())?;
    Ok((Some(RecoveredTimer { task_id: rt.task_id, task_title: rt.task_title, seconds }), sent))
}

// --- Hand-entered spans -------------------------------------------------------------

/// Positions `from..to` of `t` hold ASCII digits.
pub open spec fn digits_in(t: Seq<char>, from: int, to: int) -> bool {
    forall|i: int| from <= i < to ==> is_digit(#[trigger] t[i])
}

/// `YYYY-MM-DDTHH:MM` or `YYYY-MM-DDTHH:MM:SS`, with a space allowed in
/// place of the `T`. A structural check, not a calendar validation.
///
/// Every position is checked to hold an ASCII character, so measuring in
/// characters (here) and in bytes (as the code's `str` does) agree.
pub open spec fn iso_datetime(t: Seq<char>) -> bool {
    &&& (t.len() == 16 || t.len() == 19)
    &&& digits_in(t, 0, 4)
    &&& t[4] == '-'
    &&& digits_in(t, 5, 7)
    &&& t[7] == '-'
    &&& digits_in(t, 8, 10)
    &&& (t[10] == 'T' || t[10] == ' ')
    &&& digits_in(t, 11, 13)
    &&& t[13] == ':'
    &&& digits_in(t, 14, 16)
    &&& (t.len() == 16 || (t[16] == ':' && digits_in(t, 17, 19)))
}

/// An accepted datetime in the stored form `YYYY-MM-DDTHH:MM:SS`: the
/// separator becomes `T` and missing seconds become `:00`.
pub open spec fn normalised(t: Seq<char>) -> Seq<char> {
    let u = t.update(10, 'T');
    if t.len() == 16 {
        u + seq![':', '0', '0']
    } else {
        u
    }
}

fn digits_between(t: &Vec<char>, from: usize, to: usize) -> (b: bool)
    requires
        from <= to <= t.len(),
    ensures
        b == digits_in(t@, from as int, to as int),
{
    let mut i = from;
    while i < to
        invariant
            from <= i <= to <= t.len(),
            digits_in(t@, from as int, i as int),
        decreases to - i,
    {
        if !is_ascii_digit(t[i]) {
            return false;
        }
        i += 1;
    }
    true
}

fn iso_datetime_chars(t: &Vec<char>) -> (b: bool)
    ensures
        b == iso_datetime(t@),
{
    let n = t.len();
    if !(n == 16 || n == 19) {
        return false;
    }
    digits_between(t, 0, 4) && t[4] == '-' && digits_between(t, 5, 7) && t[7] == '-'
        && digits_between(t, 8, 10) && (t[10] == 'T' || t[10] == ' ') && digits_between(t, 11, 13)
        && t[13] == ':' && digits_between(t, 14, 16) && (n == 16 || (t[16] == ':'
        && digits_between(t, 17, 19)))
}

/// True for `YYYY-MM-DDTHH:MM` or `YYYY-MM-DDTHH:MM:SS` once trimmed (a
/// space instead of `T` is also accepted).
pub fn is_iso_datetime(s: &str) -> (b: bool)
    ensures
        b == iso_datetime(trim(s@)),
{
    let v = chars_of(s);
    let t = trim_vec(&v);
    iso_datetime_chars(&t)
}

fn normalise_chars(t: &Vec<char>) -> (r: Vec<char>)
    requires
        iso_datetime(t@),
    ensures
        r@ == normalised(t@),
{
    let mut u = t.clone();
    u.set(10, 'T');
    if u.len() == 16 {
        u.push(':');
        u.push('0');
        u.push('0');
    }
    proof {
        assert(u@ =~= normalised(t@));
    }
    u
}

/// Normalise an accepted datetime to `YYYY-MM-DDTHH:MM:SS` (adds `:00`
/// seconds, swaps a space separator for `T`). The text must already pass
/// [`is_iso_datetime`].
pub fn normalise_datetime(s: &str) -> (r: String)
    requires
        iso_datetime(trim(s@)),
    ensures
        r@ == normalised(trim(s@)),
{
    let v = chars_of(s);
    let t = trim_vec(&v);
    let u = normalise_chars(&t);
    string_of(u.as_slice())
}

/// The stored span for a hand-entered `start` / `end`: both must be
/// accepted datetimes and, once normalised, `start` must sort strictly
/// before `end`.
pub open spec fn span_spec(start: Seq<char>, end: Seq<char>) -> Option<(Seq<char>, Seq<char>)> {
    let s = trim(start);
    let e = trim(end);
    if iso_datetime(s) && iso_datetime(e) && lex_lt(normalised(s), normalised(e)) {
        Some((normalised(s), normalised(e)))
    } else {
        None
    }
}

/// [`span_spec`]: the normalised span, or `None` for malformed or backwards
/// input.
pub fn entry_span(start: &str, end: &str) -> (r: Option<(String, String)>)
    ensures
        match r {
            Some((a, b)) => span_spec(start@, end@) == Some((a@, b@)),
            None => span_spec(start@, end@) is None,
        },
{
    let sv = chars_of(start);
    let ev = chars_of(end);
    let s = trim_vec(&sv);
    let e = trim_vec(&ev);
    if !iso_datetime_chars(&s) || !iso_datetime_chars(&e) {
        return None;
    }
    let a = normalise_chars(&s);
    let b = normalise_chars(&e);
    if !chars_lt(a.as_slice(), b.as_slice()) {
        return None;
    }
    Some((string_of(a.as_slice()), string_of(b.as_slice())))
}

/// A time entry plus its duration in seconds (0 while running).
#[derive(Debug, Clone, PartialEq)]
pub struct EntryRow {
    pub entry: TimeEntry,
    pub seconds: i64,
}

/// An entry with its duration from one row of [`list_entries_for_task`]'s
/// query: the entry columns, then the seconds.
pub fn row_to_entry_row(row: &Row) -> (r: Result<EntryRow, DbError>)
    ensures
        match r {
            Ok(er) => entry_row(row@, er.entry) && crate::sql::int_at(row@, 7) == Some(er.seconds),
            Err(_) => !(entry_row_ok(row@) && crate::sql::int_at(row@, 7) is Some),
        },
{
    let entry = row_to_entry(row)?;
    let seconds = col_int(row, 7)?;
    Ok(EntryRow { entry, seconds })
}

/// Every time entry for a task, most recent first, each with its duration.
pub fn list_entries_for_task(conn: &rusqlite::Connection, task_id: &str) -> (r: Result<Vec<EntryRow>, DbError>) {
    let rows = query(
        conn,
        "SELECT id, task_id, start_ts, end_ts, source, note, created_at,
                CASE WHEN end_ts IS NULL THEN 0
                     ELSE strftime('%s', end_ts) - strftime('%s', start_ts) END
         FROM time_entries
         WHERE task_id = ?1
         ORDER BY start_ts DESC, id DESC",
        vec![text_arg(task_id)],
    )?;
    let mut out: Vec<EntryRow> = Vec::new();
    let mut k: usize = 0;
    while k < rows.len()
        invariant
            k <= rows.len(),
        decreases rows.len() - k,
    {
        out.push(row_to_entry_row(&rows[k])?);
        k += 1;
    }
    Ok(out)
}

/// Add a hand-entered time entry. Both timestamps are required and `start`
/// must precede `end`; malformed or backwards input yields `Ok(None)`.
pub fn add_manual_entry(
    conn: &rusqlite::Connection,
    task_id: &str,
    start: &str,
    end: &str,
    note: &str,
) -> (r: Result<Option<TimeEntry>, DbError>)
    ensures
        span_spec(start@, end@) is None ==> r matches Ok(None),
{
    let (s, e) = match entry_span(start, end) {
        Some(span) => span,
        None => return Ok(None),
    };
    let id = new_id();
    execute(
        conn,
        "INSERT INTO time_entries (id, task_id, start_ts, end_ts, source, note, created_at)
         VALUES (?1, ?2, ?3, ?4, 'manual', ?5, strftime('%Y-%m-%dT%H:%M:%S', 'now', 'localtime'))",
        vec![text_arg(id.as_str()), text_arg(task_id), SqlArg::Text(s), SqlArg::Text(e), SqlArg::Text(trim_str(note))],
    )?;
    get_entry(conn, id.as_str())
}

/// Edit an existing entry's span and note. Malformed or backwards input is
/// ignored (`Ok(false)`); otherwise whether a row was changed.
pub fn update_entry(conn: &rusqlite::Connection, id: &str, start: &str, end: &str, note: &str) -> (r: Result<bool, DbError>)
    ensures
        span_spec(start@, end@) is None ==> r matches Ok(false),
{
    let (s, e) = match entry_span(start, end) {
        Some(span) => span,
        None => return Ok(false),
    };
    let n = execute(
        conn,
        "UPDATE time_entries SET start_ts = ?2, end_ts = ?3, note = ?4 WHERE id = ?1",
        vec![text_arg(id), SqlArg::Text(s), SqlArg::Text(e), SqlArg::Text(trim_str(note))],
    )?;
    Ok(n > 0)
}

/// Delete a time entry.
pub fn delete_entry(conn: &rusqlite::Connection, id: &str) -> (r: Result<(), DbError>) {
    execute(conn, "DELETE FROM time_entries WHERE id = ?1", vec![text_arg(id)])?;
    Ok(())
}

// --- Time-invested totals ---------------------------------------------------------

/// Seconds recorded against `task_id`: just its own entries, or - with
/// `include_subtree` - its own plus every descendant task's. Open entries
/// count 0.
pub fn task_seconds(conn: &rusqlite::Connection, task_id: &str, include_subtree: bool) -> (r: Result<i64, DbError>) {
    task_seconds_read(conn, task_id, include_subtree).0
}

pub const OWN_SECONDS_SQL: &'static str = "SELECT COALESCE(SUM(CASE WHEN end_ts IS NULL THEN 0
                    ELSE strftime('%s', end_ts) - strftime('%s', start_ts) END), 0)
         FROM time_entries WHERE task_id = ?1";
pub const SUBTREE_SECONDS_SQL: &'static str = "WITH RECURSIVE subtree(id) AS (
             SELECT ?1
           UNION ALL
             SELECT t.id FROM tasks t JOIN subtree s ON t.parent_task_id = s.id
         )
         SELECT COALESCE(SUM(CASE WHEN end_ts IS NULL THEN 0
                    ELSE strftime('%s', end_ts) - strftime('%s', start_ts) END), 0)
         FROM time_entries
         WHERE task_id IN (SELECT id FROM subtree)";
pub const HAS_SUBTASKS_SQL: &'static str = "SELECT EXISTS(SELECT 1 FROM tasks WHERE parent_task_id = ?1)";

/// The seconds recorded on closed entries of task `id` - of its whole
/// subtree when `include_subtree`.
pub open spec fn seconds_query(id: Seq<char>, include_subtree: bool) -> StmtView {
    stmt_of(if include_subtree { SUBTREE_SECONDS_SQL@ } else { OWN_SECONDS_SQL@ }, seq![ArgView::Text(id)])
}

/// Whether task `id` has a direct subtask.
pub open spec fn has_subtasks_query(id: Seq<char>) -> StmtView {
    stmt_of(HAS_SUBTASKS_SQL@, seq![ArgView::Text(id)])
}

/// [`task_seconds`], also giving back the query it handed to SQLite.
pub fn task_seconds_read(conn: &rusqlite::Connection, task_id: &str, include_subtree: bool) -> (r: (Result<i64, DbError>, Stmt))
    ensures
        r.1@ == seconds_query(task_id@, include_subtree),
{
    let q = stmt(if include_subtree { SUBTREE_SECONDS_SQL } else { OWN_SECONDS_SQL }, vec![text_arg(task_id)]);
    proof {
        assert(q@.args =~= seconds_query(task_id@, include_subtree).args);
    }
    let rows = match fetch(conn, &q) {
        Ok(rows) => rows,
        Err(e) => return (Err(e), q),
    };
    if rows.len() == 0 {
        return (Err(DbError::NoRows), q);
    }
    (col_int(&rows[0], 0), q)
}

/// [`has_subtasks`], also giving back the query it handed to SQLite.
pub fn has_subtasks_read(conn: &rusqlite::Connection, task_id: &str) -> (r: (Result<bool, DbError>, Stmt))
    ensures
        r.1@ == has_subtasks_query(task_id@),
{
    let q = stmt(HAS_SUBTASKS_SQL, vec![text_arg(task_id)]);
    proof {
        assert(q@.args =~= has_subtasks_query(task_id@).args);
    }
    let rows = match fetch(conn, &q) {
        Ok(rows) => rows,
        Err(e) => return (Err(e), q),
    };
    if rows.len() == 0 {
        return (Err(DbError::NoRows), q);
    }
    match col_int(&rows[0], 0) {
        Ok(n) => (Ok(n != 0), q),
        Err(e) => (Err(e), q),
    }
}

/// Whether `task_id` has at least one direct subtask.
pub fn has_subtasks(conn: &rusqlite::Connection, task_id: &str) -> (r: Result<bool, DbError>) {
    has_subtasks_read(conn, task_id).0
}

/// Seconds recorded across every task in `filter`'s scope (all tasks, the
/// project-less ones, or one project). Subtasks inherit their parent's
/// project, so a project scope already covers whole subtrees.
pub fn scope_seconds(conn: &rusqlite::Connection, filter: &ProjectFilter) -> (r: Result<i64, DbError>) {
    let head = "SELECT COALESCE(SUM(CASE WHEN end_ts IS NULL THEN 0
                    ELSE strftime('%s', end_ts) - strftime('%s', start_ts) END), 0)
         FROM time_entries e JOIN tasks t ON t.id = e.task_id
         WHERE ";
    let mut sql: Vec<char> = chars_of(head);
    let args = match filter {
        ProjectFilter::All => {
            crate::text::push_str(&mut sql, "1");
            vec![]
        },
        ProjectFilter::Unfiled => {
            crate::text::push_str(&mut sql, "t.project_id IS NULL");
            vec![]
        },
        ProjectFilter::Only(id) => {
            crate::text::push_str(&mut sql, "t.project_id = ?1");
            vec![text_arg(id.as_str())]
        },
    };
    let text = string_of(sql.as_slice());
    let row = query_one(conn, text.as_str(), args)?;
    col_int(&row, 0)
}

} // verus!
