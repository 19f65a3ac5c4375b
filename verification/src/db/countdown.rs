//! "Time left until a deadline", worded per the chosen mode.
//!
//! The calendar arithmetic (days to the deadline, whole calendar months, the
//! length of the month the leftover days fall in) is SQLite's, against the
//! local date; the wording is [`countdown_words`].
use vstd::prelude::*;
use crate::domain::{calendar_date, is_calendar_date};
use crate::format::{and_then, and_then_spec, decimal, decimal_spec, plural, plural_spec};
use crate::sql::{col_int, fetch, stmt, stmt_of, stmts_view, text_arg, ArgView, DbError, SqlArg, Stmt, StmtView};
use crate::text::{push_str, string_of, trim, trim_str};

verus! {

/// How "time until a deadline" is worded.
#[derive(Debug, Clone, Copy, PartialEq, Eq, Structural)]
pub enum CountdownMode {
    /// Don't show it.
    Off,
    /// Largest sensible pair: "1 month and 3 days", "2 weeks and 1 day".
    Optimal,
    /// A whole count of one unit.
    Days,
    Weeks,
    Months,
    Hours,
}

/// The wording for a deadline `days` days away (negative: past). `months`
/// is the number of whole calendar months from today up to the deadline,
/// `rem` the days left over after them, and `month_len` the length in days
/// of the month those leftover days fall in.
pub open spec fn countdown_spec(mode: CountdownMode, days: int, months: int, rem: int, month_len: int) -> Seq<char> {
    if mode is Off {
        Seq::empty()
    } else if days < 0 {
        if mode is Hours {
            "overdue by "@ + plural_spec(-days * 24, "hour"@)
        } else {
            "overdue by "@ + plural_spec(-days, "day"@)
        }
    } else {
        match mode {
            CountdownMode::Off => Seq::empty(),
            CountdownMode::Hours => plural_spec(days * 24, "hour"@),
            CountdownMode::Days => if days == 0 {
                "today"@
            } else if days == 1 {
                "tomorrow"@
            } else {
                plural_spec(days, "day"@)
            },
            CountdownMode::Weeks => if days == 0 {
                "today"@
            } else {
                decimal_spec(days, 7, "week"@)
            },
            CountdownMode::Months => if days == 0 {
                "today"@
            } else {
                decimal_spec(months * month_len + rem, month_len, "month"@)
            },
            CountdownMode::Optimal => if days == 0 {
                "today"@
            } else if days == 1 {
                "tomorrow"@
            } else if months >= 1 {
                and_then_spec(plural_spec(months, "month"@), rem, "day"@)
            } else if days >= 7 {
                and_then_spec(plural_spec(days / 7, "week"@), days % 7, "day"@)
            } else {
                plural_spec(days, "day"@)
            },
        }
    }
}

/// The calendar figures are in the range a real calendar gives: a deadline
/// within a few million years, and for the month wording a month of at
/// least one day and a count of months that fits the computation.
pub open spec fn countdown_inputs_ok(mode: CountdownMode, days: int, months: int, rem: int, month_len: int) -> bool {
    &&& -1_000_000_000 <= days <= 1_000_000_000
    &&& (mode is Months && days > 0) ==> {
        &&& 0 <= months <= 100_000
        &&& 0 <= rem <= 1_000_000
        &&& 1 <= month_len <= 1_000_000
    }
}

/// [`countdown_spec`]: the wording for the given calendar figures.
pub fn countdown_words(mode: CountdownMode, days: i64, months: i64, rem: i64, month_len: i64) -> (r: String)
    requires
        countdown_inputs_ok(mode, days as int, months as int, rem as int, month_len as int),
    ensures
        r@ == countdown_spec(mode, days as int, months as int, rem as int, month_len as int),
{
    if mode == CountdownMode::Off {
        return String::new();
    }
    if days < 0 {
        let mut out: Vec<char> = Vec::new();
        push_str(&mut out, "overdue by ");
        let tail = if mode == CountdownMode::Hours {
            plural(-days * 24, "hour")
        } else {
            plural(-days, "day")
        };
        push_str(&mut out, tail.as_str());
        return string_of(out.as_slice());
    }
    match mode {
        CountdownMode::Off => String::new(),
        CountdownMode::Hours => plural(days * 24, "hour"),
        CountdownMode::Days => {
            if days == 0 {
                "today".to_owned()
            } else if days == 1 {
                "tomorrow".to_owned()
            } else {
                plural(days, "day")
            }
        },
        CountdownMode::Weeks => {
            if days == 0 {
                "today".to_owned()
            } else {
                decimal(days, 7, "week")
            }
        },
        CountdownMode::Months => {
            if days == 0 {
                "today".to_owned()
            } else {
                proof {
                    assert(months * month_len <= 100_000 * 1_000_000) by (nonlinear_arith)
                        requires
                            0 <= months <= 100_000,
                            1 <= month_len <= 1_000_000,
                    ;
                    assert(months * month_len >= 0) by (nonlinear_arith)
                        requires
                            0 <= months,
                            1 <= month_len,
                    ;
                }
                decimal(months * month_len + rem, month_len, "month")
            }
        },
        CountdownMode::Optimal => {
            if days == 0 {
                "today".to_owned()
            } else if days == 1 {
                "tomorrow".to_owned()
            } else if months >= 1 {
                and_then(plural(months, "month"), rem, "day")
            } else if days >= 7 {
                and_then(plural(days / 7, "week"), days % 7, "day")
            } else {
                plural(days, "day")
            }
        },
    }
}

pub const DAYS_SQL: &'static str = "SELECT CAST(julianday(date(?1)) - julianday(date('now', 'localtime')) AS INTEGER)";
pub const MONTHS_SQL: &'static str = "WITH RECURSIVE m(n) AS (
             SELECT 0
           UNION ALL
             SELECT n + 1 FROM m
             WHERE date(date('now', 'localtime'), '+' || (n + 1) || ' months') <= date(?1)
         )
         SELECT MAX(n) FROM m";
pub const REM_SQL: &'static str = "SELECT CAST(julianday(date(?1))
                       - julianday(date(date('now', 'localtime'), '+' || ?2 || ' months')) AS INTEGER)";
pub const MONTH_LEN_SQL: &'static str = "SELECT CAST(julianday(date(date('now', 'localtime'), '+' || (?1 + 1) || ' months'))
                       - julianday(date(date('now', 'localtime'), '+' || ?1 || ' months')) AS INTEGER)";

/// Days from local today to the date `d` (negative: past).
pub open spec fn days_query(d: Seq<char>) -> StmtView {
    stmt_of(DAYS_SQL@, seq![ArgView::Text(d)])
}

/// Whole calendar months from local today up to (not past) the date `d`.
pub open spec fn months_query(d: Seq<char>) -> StmtView {
    stmt_of(MONTHS_SQL@, seq![ArgView::Text(d)])
}

/// Days left to the date `d` after `m` whole months from today.
pub open spec fn rem_query(d: Seq<char>, m: i64) -> StmtView {
    stmt_of(REM_SQL@, seq![ArgView::Text(d), ArgView::Int(m)])
}

/// The length in days of the month that starts `m` months from today.
pub open spec fn month_len_query(m: i64) -> StmtView {
    stmt_of(MONTH_LEN_SQL@, seq![ArgView::Int(m)])
}

/// `qs` are the figures asked of SQLite for the date `d`, in order: the
/// days to it, then (when months are needed) the whole months, the days
/// left over after those months, and the length of the month they fall in.
pub open spec fn countdown_queries(qs: Seq<StmtView>, d: Seq<char>) -> bool {
    &&& qs.len() <= 4
    &&& qs.len() >= 1 ==> qs[0] == days_query(d)
    &&& qs.len() >= 2 ==> qs[1] == months_query(d)
    &&& qs.len() >= 3 ==> exists|m: i64| #[trigger] rem_query(d, m) == qs[2] && (qs.len() >= 4 ==> qs[3] == month_len_query(m))
}

/// One integer figure: the first column of the first row of `q`.
fn figure(conn: &rusqlite::Connection, q: &Stmt) -> (r: Result<i64, DbError>) {
    let rows = fetch(conn, q)?;
    if rows.len() == 0 {
        return Err(DbError::NoRows);
    }
    col_int(&rows[0], 0)
}

/// A human "time left until `deadline`" per `mode`. `""` when the mode is
/// `Off` or the (trimmed) date is not a readable `YYYY-MM-DD` day of the
/// calendar (`"not-a-date"`, `"2026-13-01"`); past deadlines read
/// `"overdue ..."`. Figures outside what a calendar gives are refused with
/// `Range`.
pub fn deadline_countdown(conn: &rusqlite::Connection, deadline: &str, mode: CountdownMode) -> (r: Result<String, DbError>)
    ensures
        (mode is Off || !calendar_date(trim(deadline@))) ==> (r matches Ok(s) && s@.len() == 0),
        calendar_date(trim(deadline@)) ==> (r matches Ok(s) ==> exists|days: int, months: int, rem: int, month_len: int|
            s@ == countdown_spec(mode, days, months, rem, month_len)),
{
    countdown_read(conn, deadline, mode).0
}

/// [`deadline_countdown`], also giving back the queries it handed to
/// SQLite, in order.
pub fn countdown_read(conn: &rusqlite::Connection, deadline: &str, mode: CountdownMode) -> (r: (Result<String, DbError>, Vec<Stmt>))
    ensures
        (mode is Off || !calendar_date(trim(deadline@))) ==> (r.0 matches Ok(s) && s@.len() == 0 && r.1@.len() == 0),
        calendar_date(trim(deadline@)) ==> (r.0 matches Ok(s) ==> exists|days: int, months: int, rem: int, month_len: int|
            s@ == countdown_spec(mode, days, months, rem, month_len)),
        countdown_queries(stmts_view(r.1@), trim(deadline@)),
        !(mode is Off) && calendar_date(trim(deadline@)) && r.0 is Ok ==> r.1@.len() >= 1,
{
    let (text, qs, answers) = countdown_answers(conn, deadline, mode);
    proof {
        if mode is Off && text is Ok {
            assert(text->Ok_0@ == countdown_spec(mode, 0, 0, 0, 0));
        }
        if calendar_date(trim(deadline@)) && !(mode is Off) {
            if text is Ok {
                let a = answers@;
                assert(text->Ok_0@ == countdown_spec(mode, answer(a, 0), answer(a, 1), answer(a, 2), answer(a, 3)));
            }
        }
    }
    (text, qs)
}

/// Figure `i` of the answers, 0 when it was not asked for.
pub open spec fn answer(a: Seq<i64>, i: int) -> int {
    if 0 <= i < a.len() {
        a[i] as int
    } else {
        0
    }
}

/// [`countdown_read`], also giving back the figure SQLite answered to each
/// query, in order. The wording is the one for exactly those figures: the
/// days to the deadline, then (when asked) the whole months, the days left
/// over after them, and the length of the month they fall in.
pub fn countdown_answers(conn: &rusqlite::Connection, deadline: &str, mode: CountdownMode) -> (r: (
    Result<String, DbError>,
    Vec<Stmt>,
    Vec<i64>,
))
    ensures
        (mode is Off || !calendar_date(trim(deadline@))) ==> (r.0 matches Ok(s) && s@.len() == 0 && r.1@.len() == 0),
        countdown_queries(stmts_view(r.1@), trim(deadline@)),
        r.2@.len() <= r.1@.len(),
        r.0 is Ok ==> r.2@.len() == r.1@.len(),
        r.1@.len() >= 3 ==> r.1@[2]@ == rem_query(trim(deadline@), r.2@[1]),
        r.1@.len() >= 4 ==> r.1@[3]@ == month_len_query(r.2@[1]),
        !(mode is Off) && calendar_date(trim(deadline@)) ==> (r.0 matches Ok(s) ==> r.2@.len() >= 1 && s@ == countdown_spec(
            mode,
            answer(r.2@, 0),
            answer(r.2@, 1),
            answer(r.2@, 2),
            answer(r.2@, 3),
        )),
{
    let mut answers: Vec<i64> = Vec::new();
    let d = trim_str(deadline);
    let mut qs: Vec<Stmt> = Vec::new();
    proof {
        assert(stmts_view(qs@) =~= Seq::<StmtView>::empty());
    }
    if mode == CountdownMode::Off || !is_calendar_date(d.as_str()) {
        let empty = String::new();
        proof {
            assert(mode is Off ==> empty@ == countdown_spec(mode, 0, 0, 0, 0));
        }
        return (Ok(empty), qs, answers);
    }
    let q = stmt(DAYS_SQL, vec![text_arg(d.as_str())]);
    proof {
        assert(q@.args =~= days_query(d@).args);
    }
    let r = figure(conn, &q);
    let ghost v0 = q@;
    qs.push(q);
    proof {
        assert(stmts_view(qs@) =~= seq![v0]);
    }
    let days = match r {
        Ok(x) => {
            answers.push(x);
            x
        },
        Err(e) => return (Err(e), qs, answers),
    };
    let mut months: i64 = 0;
    let mut rem: i64 = 0;
    let mut month_len: i64 = 0;
    let needs_months = (mode == CountdownMode::Months && days > 0) || (mode == CountdownMode::Optimal && days > 1);
    if needs_months {
        let q = stmt(MONTHS_SQL, vec![text_arg(d.as_str())]);
        proof {
            assert(q@.args =~= months_query(d@).args);
        }
        let r = figure(conn, &q);
        let ghost v1 = q@;
        qs.push(q);
        proof {
            assert(stmts_view(qs@) =~= seq![v0, v1]);
        }
        months = match r {
            Ok(x) => {
                answers.push(x);
                x
            },
            Err(e) => return (Err(e), qs, answers),
        };
        let q = stmt(REM_SQL, vec![text_arg(d.as_str()), SqlArg::Int(months)]);
        proof {
            assert(q@.args =~= rem_query(d@, months).args);
        }
        let r = figure(conn, &q);
        let ghost v2 = q@;
        qs.push(q);
        proof {
            assert(stmts_view(qs@) =~= seq![v0, v1, v2]);
            assert(rem_query(d@, months) == stmts_view(qs@)[2]);
        }
        rem = match r {
            Ok(x) => {
                answers.push(x);
                x
            },
            Err(e) => return (Err(e), qs, answers),
        };
        if mode == CountdownMode::Months {
            let q = stmt(MONTH_LEN_SQL, vec![SqlArg::Int(months)]);
            proof {
                assert(q@.args =~= month_len_query(months).args);
            }
            let r = figure(conn, &q);
            let ghost v3 = q@;
            qs.push(q);
            proof {
                assert(stmts_view(qs@) =~= seq![v0, v1, v2, v3]);
                assert(rem_query(d@, months) == stmts_view(qs@)[2]);
            }
            month_len = match r {
                Ok(x) => {
                    answers.push(x);
                    x
                },
                Err(e) => return (Err(e), qs, answers),
            };
        }
    }
    if !countdown_inputs_ok_exec(mode, days, months, rem, month_len) {
        return (Err(DbError::Range), qs, answers);
    }
    proof {
        assert(answers@.len() == 1 ==> (months == 0 && rem == 0 && month_len == 0));
    }
    (Ok(countdown_words(mode, days, months, rem, month_len)), qs, answers)
}

fn countdown_inputs_ok_exec(mode: CountdownMode, days: i64, months: i64, rem: i64, month_len: i64) -> (b: bool)
    ensures
        b == countdown_inputs_ok(mode, days as int, months as int, rem as int, month_len as int),
{
    -1_000_000_000 <= days && days <= 1_000_000_000 && (!(mode == CountdownMode::Months && days > 0) || (
    0 <= months && months <= 100_000 && 0 <= rem && rem <= 1_000_000 && 1 <= month_len && month_len
        <= 1_000_000))
}

/// Law: at least two days and at least one whole month away, the optimal
/// wording names the whole months and then the days left over after them
/// ("1 month and 3 days"); only when no day is left over does it name the
/// months alone. So a deadline with leftover days never reads like one
/// without.
pub proof fn lemma_optimal_names_leftover_days(days: int, months: int, rem: int, month_len: int)
    requires
        days > 1,
        months >= 1,
    ensures
        rem >= 1 ==> countdown_spec(CountdownMode::Optimal, days, months, rem, month_len) == plural_spec(months, "month"@)
            + " and "@ + plural_spec(rem, "day"@),
        rem <= 0 ==> countdown_spec(CountdownMode::Optimal, days, months, rem, month_len) == plural_spec(months, "month"@),
        rem >= 1 ==> countdown_spec(CountdownMode::Optimal, days, months, rem, month_len).len() > countdown_spec(
            CountdownMode::Optimal,
            days,
            months,
            0,
            month_len,
        ).len(),
{
    reveal_strlit(" and ");
}

/// Law: a deadline in the past reads "overdue by" its distance, in hours in
/// the hours wording and in days otherwise; one in the future never does.
pub proof fn lemma_overdue_only_when_past(mode: CountdownMode, days: int, months: int, rem: int, month_len: int)
    requires
        !(mode is Off),
    ensures
        days < 0 && mode is Hours ==> countdown_spec(mode, days, months, rem, month_len) == "overdue by "@ + plural_spec(
            -days * 24,
            "hour"@,
        ),
        days < 0 && !(mode is Hours) ==> countdown_spec(mode, days, months, rem, month_len) == "overdue by "@
            + plural_spec(-days, "day"@),
{
}

} // verus!
