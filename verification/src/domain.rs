//! Domain types and the quick-creation text format.
//!
//! Quick creation is a bulk text import: one line per task,
//! `title|timeinvested|deadline|description`, `|` separated. An empty field
//! (or one that trims to "na" / "n/a", any case) marks an optional field as
//! empty. Nesting is by indentation: a child is exactly one more unit of the
//! configured indent character than the line above, a sibling has the same
//! indent, and a dedent must land exactly on an ancestor's indent. Blank
//! lines are skipped.
use vstd::prelude::*;
use crate::text::{
    all_ascii_digits, chars_eq, chars_of, dec_pad, digit_val, eq_ignore_ascii_case, eq_ignore_case, is_ascii_digit, is_digit,
    parse_u32, parse_u32_spec, push_dec_pad, split_char, split_spec, string_of, trim, trim_vec,
    views, lower_seq, find_char, signed_body, is_negative_lit, all_digits, digits_val, trim_start,
    parse_i64_spec, parse_i64, lemma_find_char, find_from, slice_of, push_chars, push_str,
    trim_start_vec, lower_vec, find, lemma_digits_val_take, splitn_spec, splitn_char, lines_spec,
    split_lines, is_blank,
};

verus! {

/// Stable identifier for every persisted row.
pub type Id = String;

/// Generate a fresh row id (a UUIDv7, hyphenated).
///
/// Trusted: calls `uuid::Uuid::now_v7` and formats it with `to_string`. The
/// id depends on the clock and on random bits, so nothing is claimed of it.
#[verifier::external_body]
pub fn new_id() -> (id: Id) {
    uuid::Uuid::now_v7().to_string()
}

#[derive(Debug, Clone, Copy, PartialEq, Eq, Structural)]
pub enum TaskStatus {
    Todo,
    Done,
}

/// How a status is stored.
pub open spec fn status_text(s: TaskStatus) -> Seq<char> {
    match s {
        TaskStatus::Todo => seq!['t', 'o', 'd', 'o'],
        TaskStatus::Done => seq!['d', 'o', 'n', 'e'],
    }
}

impl TaskStatus {
    /// The stored form: `"todo"` or `"done"`.
    pub fn as_str(self) -> (r: &'static str)
        ensures
            r@ == status_text(self),
    {
        match self {
            TaskStatus::Todo => {
                proof {
                    reveal_strlit("todo");
                }
                "todo"
            },
            TaskStatus::Done => {
                proof {
                    reveal_strlit("done");
                }
                "done"
            },
        }
    }

    /// Parse a stored status, defaulting unknown values to `Todo`.
    pub fn from_db(s: &str) -> (r: Self)
        ensures
            r == (if s@ == status_text(TaskStatus::Done) {
                TaskStatus::Done
            } else {
                TaskStatus::Todo
            }),
    {
        let v = chars_of(s);
        if chars_eq(&v, &['d', 'o', 'n', 'e']) {
            TaskStatus::Done
        } else {
            TaskStatus::Todo
        }
    }
}

/// A task. `parent_id` gives subtask nesting; `project_id` groups tasks under
/// a project. `track` is a display flag only ("show the time graph") - time invested is always
/// derived by summing time entries.
///
/// `sort_order` is the position among siblings. The schema stores it as a
/// REAL, but every value the application writes is a whole number (one more
/// than the largest sibling's), so it is carried as an integer here.
#[derive(Debug, Clone, PartialEq)]
pub struct Task {
    pub id: Id,
    pub parent_id: Option<Id>,
    pub project_id: Option<Id>,
    pub title: String,
    pub notes: String,
    pub deadline: Option<String>,
    pub track: bool,
    pub status: TaskStatus,
    pub sort_order: i64,
    pub created_at: String,
    /// A one-off starting duration set at creation, in seconds. Never summed
    /// into time totals.
    pub initial_time_seconds: Option<i64>,
}

impl Task {
    pub fn is_done(&self) -> (r: bool)
        ensures
            r == (self.status == TaskStatus::Done),
    {
        self.status == TaskStatus::Done
    }
}

/// A project groups root tasks.
#[derive(Debug, Clone, PartialEq)]
pub struct Project {
    pub id: Id,
    pub name: String,
    pub track: bool,
    pub archived: bool,
    pub created_at: String,
}

#[derive(Debug, Clone, Copy, PartialEq, Eq, Structural)]
pub enum EntrySource {
    /// Recorded by the in-app timer.
    Timer,
    /// Entered or edited by hand.
    Manual,
}

/// How a manual source is stored.
pub open spec fn manual_text() -> Seq<char> {
    seq!['m', 'a', 'n', 'u', 'a', 'l']
}

impl EntrySource {
    /// Parse a stored source, defaulting unknown values to `Timer`.
    pub fn from_db(s: &str) -> (r: Self)
        ensures
            r == (if s@ == manual_text() {
                EntrySource::Manual
            } else {
                EntrySource::Timer
            }),
    {
        let v = chars_of(s);
        if chars_eq(&v, &['m', 'a', 'n', 'u', 'a', 'l']) {
            EntrySource::Manual
        } else {
            EntrySource::Timer
        }
    }
}

/// A span of time spent on a task. `end_ts == None` marks the one currently
/// running timer.
#[derive(Debug, Clone, PartialEq)]
pub struct TimeEntry {
    pub id: Id,
    pub task_id: Id,
    pub start_ts: String,
    pub end_ts: Option<String>,
    pub source: EntrySource,
    pub note: String,
    pub created_at: String,
}

/// Which tasks the task view should show.
#[derive(Debug, Clone, PartialEq, Eq)]
pub enum ProjectFilter {
    /// Every task, regardless of project.
    All,
    /// Only tasks not assigned to any project.
    Unfiled,
    /// Only tasks in the project with this id.
    Only(Id),
}

// --- Dates ------------------------------------------------------------------

/// A structurally valid `YYYY-MM-DD` text.
pub open spec fn iso_date(t: Seq<char>) -> bool {
    &&& t.len() == 10
    &&& t[4] == '-'
    &&& t[7] == '-'
    &&& is_digit(t[0]) && is_digit(t[1]) && is_digit(t[2]) && is_digit(t[3])
    &&& is_digit(t[5]) && is_digit(t[6])
    &&& is_digit(t[8]) && is_digit(t[9])
}

/// True for a structurally valid `YYYY-MM-DD` calendar date string.
pub fn is_iso_date_chars(t: &Vec<char>) -> (b: bool)
    ensures
        b == iso_date(t@),
{
    t.len() == 10 && t[4] == '-' && t[7] == '-' && is_ascii_digit(t[0]) && is_ascii_digit(t[1])
        && is_ascii_digit(t[2]) && is_ascii_digit(t[3]) && is_ascii_digit(t[5])
        && is_ascii_digit(t[6]) && is_ascii_digit(t[8]) && is_ascii_digit(t[9])
}

/// True for a structurally valid `YYYY-MM-DD` calendar date string.
pub fn is_iso_date(s: &str) -> (b: bool)
    ensures
        b == iso_date(s@),
{
    let t = chars_of(s);
    is_iso_date_chars(&t)
}

/// A Gregorian leap year.
pub open spec fn leap_year(y: int) -> bool {
    y % 4 == 0 && (y % 100 != 0 || y % 400 == 0)
}

/// The number of days in month `m` (1..=12) of year `y`.
pub open spec fn month_days(y: int, m: int) -> int {
    if m == 2 {
        if leap_year(y) { 29 } else { 28 }
    } else if m == 4 || m == 6 || m == 9 || m == 11 {
        30
    } else {
        31
    }
}

/// The year, month and day that an `iso_date` text spells.
pub open spec fn iso_year(t: Seq<char>) -> int {
    (1000 * digit_val(t[0]) + 100 * digit_val(t[1]) + 10 * digit_val(t[2]) + digit_val(t[3])) as int
}

pub open spec fn iso_month(t: Seq<char>) -> int {
    (10 * digit_val(t[5]) + digit_val(t[6])) as int
}

pub open spec fn iso_day(t: Seq<char>) -> int {
    (10 * digit_val(t[8]) + digit_val(t[9])) as int
}

/// A `YYYY-MM-DD` text that names a day of the calendar: a month in 1..=12
/// and a day within that month.
pub open spec fn calendar_date(t: Seq<char>) -> bool {
    &&& iso_date(t)
    &&& 1 <= iso_month(t) <= 12
    &&& 1 <= iso_day(t) <= month_days(iso_year(t), iso_month(t))
}

/// The value of one ASCII digit.
fn digit_of(c: char) -> (d: u32)
    requires
        is_digit(c),
    ensures
        d == digit_val(c),
        d <= 9,
{
    (c as u32) - ('0' as u32)
}

/// True when `s` is a `YYYY-MM-DD` date that exists on the calendar.
pub fn is_calendar_date(s: &str) -> (b: bool)
    ensures
        b == calendar_date(s@),
{
    let t = chars_of(s);
    if !is_iso_date_chars(&t) {
        return false;
    }
    let y: u32 = 1000 * digit_of(t[0]) + 100 * digit_of(t[1]) + 10 * digit_of(t[2]) + digit_of(t[3]);
    let m: u32 = 10 * digit_of(t[5]) + digit_of(t[6]);
    let d: u32 = 10 * digit_of(t[8]) + digit_of(t[9]);
    if m < 1 || m > 12 || d < 1 {
        return false;
    }
    let leap: bool = y % 4 == 0 && (y % 100 != 0 || y % 400 == 0);
    let len: u32 = if m == 2 {
        if leap { 29 } else { 28 }
    } else if m == 4 || m == 6 || m == 9 || m == 11 {
        30
    } else {
        31
    };
    proof {
        assert(leap == leap_year(y as int));
        assert(len == month_days(y as int, m as int));
    }
    d <= len
}

/// The ISO date `y-mm-dd`, zero padded.
pub open spec fn iso_of(y: nat, m: nat, d: nat) -> Seq<char> {
    dec_pad(y, 4) + seq!['-'] + dec_pad(m, 2) + seq!['-'] + dec_pad(d, 2)
}

/// What `parse_date_with_format` gives: in format 0 (ISO `YYYY-MM-DD`) the
/// trimmed text when it is a valid ISO date; in format 1 (US `MM/DD/YYYY`)
/// or any other (EU `DD/MM/YYYY`) three `/`-separated parts of exactly 2, 2
/// and 4 ASCII digits that read as a month in 1..=12 and a day in 1..=31,
/// rewritten as ISO.
pub open spec fn date_spec(s: Seq<char>, format: i32) -> Option<Seq<char>> {
    let t = trim(s);
    if format == 0 {
        if iso_date(t) {
            Some(t)
        } else {
            None
        }
    } else {
        let parts = split_spec(t, '/');
        if parts.len() != 3 {
            None
        } else {
            let mm = if format == 1 { parts[0] } else { parts[1] };
            let dd = if format == 1 { parts[1] } else { parts[0] };
            let y = parts[2];
            if y.len() != 4 || mm.len() != 2 || dd.len() != 2 || !all_digits(y) || !all_digits(mm) || !all_digits(dd) {
                None
            } else {
                match (parse_u32_spec(y), parse_u32_spec(mm), parse_u32_spec(dd)) {
                    (Some(yv), Some(mv), Some(dv)) => {
                        if 1 <= mv <= 12 && 1 <= dv <= 31 {
                            Some(iso_of(yv as nat, mv as nat, dv as nat))
                        } else {
                            None
                        }
                    },
                    _ => None,
                }
            }
        }
    }
}

/// Parse a date typed in display format `format` (0 ISO `YYYY-MM-DD`, 1 US
/// `MM/DD/YYYY`, 2 EU `DD/MM/YYYY`) into ISO `YYYY-MM-DD`.
pub fn parse_date_with_format(s: &str, format: i32) -> (r: Option<String>)
    ensures
        match r {
            Some(d) => date_spec(s@, format) == Some(d@),
            None => date_spec(s@, format) is None,
        },
{
    let v = chars_of(s);
    match parse_date_chars(&v, format) {
        Some(d) => Some(string_of(d.as_slice())),
        None => None,
    }
}

/// [`parse_date_with_format`] on characters.
pub fn parse_date_chars(v: &Vec<char>, format: i32) -> (r: Option<Vec<char>>)
    ensures
        match r {
            Some(d) => date_spec(v@, format) == Some(d@),
            None => date_spec(v@, format) is None,
        },
{
    let t = trim_vec(v);
    if format == 0 {
        if is_iso_date_chars(&t) {
            return Some(t);
        }
        return None;
    }
    let parts = split_char(&t, '/');
    proof {
        assert(views(parts@).len() == parts@.len());
    }
    if parts.len() != 3 {
        return None;
    }
    proof {
        assert(views(parts@)[0] == parts@[0]@);
        assert(views(parts@)[1] == parts@[1]@);
        assert(views(parts@)[2] == parts@[2]@);
    }
    let (mm, dd) = if format == 1 { (&parts[0], &parts[1]) } else { (&parts[1], &parts[0]) };
    let y = &parts[2];
    if y.len() != 4 || mm.len() != 2 || dd.len() != 2 || !all_ascii_digits(y) || !all_ascii_digits(mm)
        || !all_ascii_digits(dd) {
        return None;
    }
    let yv = match parse_u32(y) {
        Some(x) => x,
        None => return None,
    };
    let mv = match parse_u32(mm) {
        Some(x) => x,
        None => return None,
    };
    let dv = match parse_u32(dd) {
        Some(x) => x,
        None => return None,
    };
    if !(1 <= mv && mv <= 12) || !(1 <= dv && dv <= 31) {
        return None;
    }
    let mut out: Vec<char> = Vec::new();
    push_dec_pad(&mut out, yv as u64, 4);
    out.push('-');
    push_dec_pad(&mut out, mv as u64, 2);
    out.push('-');
    push_dec_pad(&mut out, dv as u64, 2);
    proof {
        assert(out@ =~= iso_of(yv as nat, mv as nat, dv as nat));
    }
    Some(out)
}

// --- Quick-creation fields ------------------------------------------------------

/// `true` for an empty field or an explicit "na" / "n/a" marker.
pub open spec fn blank_field(s: Seq<char>) -> bool {
    let t = trim(s);
    t.len() == 0 || eq_ignore_case(t, seq!['n', 'a']) || eq_ignore_case(t, seq!['n', '/', 'a'])
}

/// `true` for an empty field or an explicit "na" / "n/a" marker.
pub fn is_blank_field(s: &Vec<char>) -> (b: bool)
    ensures
        b == blank_field(s@),
{
    let t = trim_vec(s);
    t.len() == 0 || eq_ignore_ascii_case(&t, &['n', 'a']) || eq_ignore_ascii_case(
        &t,
        &['n', '/', 'a'],
    )
}

// --- Durations --------------------------------------------------------------

pub open spec fn pow10(k: nat) -> nat
    decreases k,
{
    if k == 0 {
        1
    } else {
        10 * pow10((k - 1) as nat)
    }
}

/// The digits of a decimal number with its point taken out.
pub open spec fn point_free(b: Seq<char>) -> Seq<char> {
    match find_char(b, '.') {
        None => b,
        Some(d) => b.take(d as int) + b.skip(d as int + 1),
    }
}

/// How many digits follow the decimal point.
pub open spec fn frac_len(b: Seq<char>) -> nat {
    match find_char(b, '.') {
        None => 0,
        Some(d) => (b.len() - d - 1) as nat,
    }
}

/// Largest digit string (point removed) an hours figure may spell.
pub open spec fn hours_digit_limit() -> nat {
    pow10(30)
}

/// Whole seconds in the hours figure `n`: an optional sign, then digits with
/// at most one decimal point (at least one digit in all), times 3600,
/// rounded half away from zero. `None` when `n` is no such number, when its
/// digits (point removed) spell more than 10^30, or when the seconds do not
/// fit an `i64`.
pub open spec fn hours_secs(n: Seq<char>) -> Option<int> {
    let b = signed_body(n);
    let d = point_free(b);
    if d.len() > 0 && all_digits(d) && digits_val(d) <= hours_digit_limit() {
        let p = pow10(frac_len(b));
        let r = (digits_val(d) * 7200 + p) / (2 * p);
        if r <= i64::MAX {
            Some(if is_negative_lit(n) { -(r as int) } else { r as int })
        } else {
            None
        }
    } else {
        None
    }
}

pub proof fn lemma_pow10_mono(i: nat, j: nat)
    requires
        i <= j,
    ensures
        pow10(i) <= pow10(j),
        pow10(i) >= 1,
    decreases j,
{
    if j > i {
        lemma_pow10_mono(i, (j - 1) as nat);
    } else {
        lemma_pow10_pos(i);
    }
}

proof fn lemma_pow10_pos(i: nat)
    ensures
        pow10(i) >= 1,
    decreases i,
{
    if i > 0 {
        lemma_pow10_pos((i - 1) as nat);
    }
}

proof fn lemma_pow10_values()
    ensures
        pow10(30) == 1_000_000_000_000_000_000_000_000_000_000,
        pow10(37) == 10_000_000_000_000_000_000_000_000_000_000_000_000,
        pow10(38) == 100_000_000_000_000_000_000_000_000_000_000_000_000,
        pow10(39) == 1_000_000_000_000_000_000_000_000_000_000_000_000_000,
{
    reveal_with_fuel(pow10, 40);
}

proof fn lemma_round_zero(a: nat, p: nat)
    requires
        a < p,
    ensures
        (a + p) / (2 * p) == 0,
{
    assert((a + p) / (2 * p) == 0) by (nonlinear_arith)
        requires
            a < p,
    ;
}

/// Seconds in an hours figure, per [`hours_secs`].
pub fn parse_hours(n: &Vec<char>) -> (r: Option<i64>)
    ensures
        match r {
            Some(v) => hours_secs(n@) == Some(v as int),
            None => hours_secs(n@) is None,
        },
{
    let neg = n.len() > 0 && n[0] == '-';
    let from: usize = if n.len() > 0 && (n[0] == '+' || n[0] == '-') { 1 } else { 0 };
    let ghost b = signed_body(n@);
    proof {
        assert(b =~= n@.subrange(from as int, n.len() as int));
    }
    let dot = find_from(n, '.', from);
    let mut digits: Vec<char>;
    let k: usize;
    match dot {
        None => {
            digits = slice_of(n, from, n.len());
            k = 0;
        },
        Some(d) => {
            proof {
                lemma_find_char(b, '.');
            }
            digits = slice_of(n, from, d);
            let tail = slice_of(n, d + 1, n.len());
            push_chars(&mut digits, tail.as_slice());
            k = n.len() - d - 1;
            proof {
                assert(b.take((d - from) as int) =~= n@.subrange(from as int, d as int));
                assert(b.skip((d - from) as int + 1) =~= n@.subrange(d + 1, n.len() as int));
            }
        },
    }
    proof {
        assert(digits@ == point_free(b));
        assert(k == frac_len(b));
    }
    if digits.len() == 0 {
        return None;
    }
    let limit: u128 = 1_000_000_000_000_000_000_000_000_000_000;
    proof {
        lemma_pow10_values();
        assert(digits@.subrange(0, digits.len() as int) =~= digits@);
    }
    let big = match digits_value(&digits, limit) {
        Some(v) => v,
        None => return None,
    };
    let r: u128;
    if k > 38 {
        proof {
            lemma_pow10_mono(39, k as nat);
            lemma_pow10_values();
            lemma_round_zero((big * 7200) as nat, pow10(k as nat));
        }
        r = 0;
    } else {
        let mut p: u128 = 1;
        let mut i: usize = 0;
        while i < k
            invariant
                i <= k <= 38,
                p == pow10(i as nat),
            decreases k - i,
        {
            proof {
                lemma_pow10_mono(i as nat, 37);
                lemma_pow10_values();
            }
            p = p * 10;
            i += 1;
        }
        proof {
            lemma_pow10_mono(0, k as nat);
            lemma_pow10_mono(k as nat, 38);
            lemma_pow10_values();
        }
        r = (big * 7200 + p) / (2 * p);
    }
    if r > 0x7fff_ffff_ffff_ffff {
        return None;
    }
    let v = r as i64;
    if neg {
        Some(-v)
    } else {
        Some(v)
    }
}

/// Value of the all-digit text `s`, or `None` when a character is not a
/// digit or the value passes `limit`.
fn digits_value(s: &Vec<char>, limit: u128) -> (r: Option<u128>)
    requires
        limit < u128::MAX / 16,
    ensures
        match r {
            Some(v) => all_digits(s@) && v == digits_val(s@) && v <= limit,
            None => !all_digits(s@) || digits_val(s@) > limit,
        },
{
    let mut acc: u128 = 0;
    let mut k: usize = 0;
    while k < s.len()
        invariant
            k <= s.len(),
            all_digits(s@.take(k as int)),
            acc == digits_val(s@.take(k as int)),
            acc <= limit,
            limit < u128::MAX / 16,
        decreases s.len() - k,
    {
        let c = s[k];
        if !is_ascii_digit(c) {
            return None;
        }
        let d = (c as u32 - '0' as u32) as u128;
        proof {
            lemma_digits_val_take(s@, k as int);
            assert forall|i: int| 0 <= i < k + 1 implies is_digit(#[trigger] s@.take(k + 1)[i]) by {
                if i < k {
                    assert(s@.take(k + 1)[i] == s@.take(k as int)[i]);
                }
            }
        }
        acc = acc * 10 + d;
        k += 1;
        if acc > limit {
            proof {
                crate::text::lemma_digits_val_mono(s@, k as int);
            }
            return None;
        }
    }
    proof {
        assert(s@.take(k as int) =~= s@);
    }
    Some(acc)
}

/// `"…"`: `t` in double quotes.
pub open spec fn quoted(t: Seq<char>) -> Seq<char> {
    seq!['"'] + t + seq!['"']
}

pub open spec fn msg_bad_hours(t: Seq<char>) -> Seq<char> {
    "bad hours in "@ + quoted(t)
}

pub open spec fn msg_bad_minutes(t: Seq<char>) -> Seq<char> {
    "bad minutes in "@ + quoted(t)
}

pub open spec fn msg_trailing(t: Seq<char>) -> Seq<char> {
    "unexpected trailing text in "@ + quoted(t)
}

pub open spec fn msg_no_unit(t: Seq<char>) -> Seq<char> {
    quoted(t) + " has no h/m unit - write e.g. \"2h\", \"45m\", \"2h30m\""@
}

/// The end of a duration: nothing but whitespace may follow, and some unit
/// must have been read.
pub open spec fn dur_tail(t: Seq<char>, rest: Seq<char>, secs: int, matched: bool) -> Result<
    i64,
    Seq<char>,
> {
    if trim(rest).len() != 0 {
        Err(msg_trailing(t))
    } else if !matched {
        Err(msg_no_unit(t))
    } else {
        Ok(secs as i64)
    }
}

/// A duration after its hours part: an optional `<integer>m`, then the tail.
/// The total must fit an `i64`.
pub open spec fn dur_minutes(t: Seq<char>, rest: Seq<char>, secs: int, matched: bool) -> Result<
    i64,
    Seq<char>,
> {
    match find_char(rest, 'm') {
        None => dur_tail(t, rest, secs, matched),
        Some(mp) => match parse_i64_spec(trim(rest.take(mp as int))) {
            None => Err(msg_bad_minutes(t)),
            Some(m) => {
                let total = secs + m * 60;
                if i64::MIN <= total <= i64::MAX {
                    dur_tail(t, rest.skip(mp as int + 1), total, true)
                } else {
                    Err(msg_bad_minutes(t))
                }
            },
        },
    }
}

/// What `parse_duration` gives for `s`: with `t` the trimmed text and the
/// search done on its ASCII lower-case form, an optional `<number>h` (a
/// decimal number of hours, see [`hours_secs`]), then optional whitespace
/// and an optional `<integer>m`, then nothing but whitespace; at least one
/// unit is required. Each failure has its own message naming `t`.
pub open spec fn duration_spec(s: Seq<char>) -> Result<i64, Seq<char>> {
    let t = trim(s);
    if t.len() == 0 {
        Err("empty duration"@)
    } else {
        let lw = lower_seq(t);
        match find_char(lw, 'h') {
            None => dur_minutes(t, lw, 0, false),
            Some(hp) => match hours_secs(trim(lw.take(hp as int))) {
                None => Err(msg_bad_hours(t)),
                Some(h) => dur_minutes(t, trim_start(lw.skip(hp as int + 1)), h, true),
            },
        }
    }
}

fn message_quoting(head: &str, t: &Vec<char>, tail: &str) -> (r: String)
    ensures
        r@ == head@ + t@ + tail@,
{
    let mut out: Vec<char> = Vec::new();
    push_str(&mut out, head);
    push_chars(&mut out, t.as_slice());
    push_str(&mut out, tail);
    proof {
        assert(out@ =~= head@ + t@ + tail@);
    }
    string_of(out.as_slice())
}

fn err_bad_minutes(t: &Vec<char>) -> (r: String)
    ensures
        r@ == msg_bad_minutes(t@),
{
    let r = message_quoting("bad minutes in \"", t, "\"");
    proof {
        reveal_strlit("bad minutes in \"");
        reveal_strlit("bad minutes in ");
        reveal_strlit("\"");
        assert(r@ =~= msg_bad_minutes(t@));
    }
    r
}

fn duration_tail(t: &Vec<char>, rest: &Vec<char>, secs: i64, matched: bool) -> (r: Result<
    i64,
    String,
>)
    ensures
        match r {
            Ok(v) => dur_tail(t@, rest@, secs as int, matched) == Ok::<i64, Seq<char>>(v),
            Err(e) => dur_tail(t@, rest@, secs as int, matched) == Err::<i64, Seq<char>>(e@),
        },
{
    if !crate::text::is_blank(rest) {
        let r = message_quoting("unexpected trailing text in \"", t, "\"");
        proof {
            reveal_strlit("unexpected trailing text in \"");
            reveal_strlit("unexpected trailing text in ");
            reveal_strlit("\"");
            assert(r@ =~= msg_trailing(t@));
        }
        return Err(r);
    }
    if !matched {
        let r = message_quoting("\"", t, "\" has no h/m unit - write e.g. \"2h\", \"45m\", \"2h30m\"");
        proof {
            reveal_strlit("\"");
            reveal_strlit("\" has no h/m unit - write e.g. \"2h\", \"45m\", \"2h30m\"");
            reveal_strlit(" has no h/m unit - write e.g. \"2h\", \"45m\", \"2h30m\"");
            assert(r@ =~= msg_no_unit(t@));
        }
        return Err(r);
    }
    Ok(secs)
}

fn duration_minutes(t: &Vec<char>, rest: &Vec<char>, secs: i64, matched: bool) -> (r: Result<
    i64,
    String,
>)
    ensures
        match r {
            Ok(v) => dur_minutes(t@, rest@, secs as int, matched) == Ok::<i64, Seq<char>>(v),
            Err(e) => dur_minutes(t@, rest@, secs as int, matched) == Err::<i64, Seq<char>>(e@),
        },
{
    match find(rest, 'm') {
        None => duration_tail(t, rest, secs, matched),
        Some(mp) => {
            let num = slice_of(rest, 0, mp);
            let num = trim_vec(&num);
            proof {
                assert(rest@.take(mp as int) =~= rest@.subrange(0, mp as int));
            }
            match parse_i64(&num) {
                None => Err(err_bad_minutes(t)),
                Some(m) => {
                    let total = (secs as i128) + (m as i128) * 60;
                    if total < -0x8000_0000_0000_0000 || total > 0x7fff_ffff_ffff_ffff {
                        return Err(err_bad_minutes(t));
                    }
                    let after = slice_of(rest, mp + 1, rest.len());
                    proof {
                        assert(rest@.skip(mp as int + 1) =~= rest@.subrange(mp + 1, rest.len() as int));
                    }
                    duration_tail(t, &after, total as i64, true)
                },
            }
        },
    }
}

/// Parse a duration like `"2h"`, `"45m"`, `"2h30m"`, `"2h 30m"`, `"1.5h"` into
/// whole seconds. A bare number with no unit is rejected - it is genuinely
/// ambiguous (minutes? hours?) and this format fails loud, not silently.
pub fn parse_duration(s: &str) -> (r: Result<i64, String>)
    ensures
        match r {
            Ok(v) => duration_spec(s@) == Ok::<i64, Seq<char>>(v),
            Err(e) => duration_spec(s@) == Err::<i64, Seq<char>>(e@),
        },
{
    let v = chars_of(s);
    parse_duration_chars(&v)
}

/// [`parse_duration`] on characters.
pub fn parse_duration_chars(v: &Vec<char>) -> (r: Result<i64, String>)
    ensures
        match r {
            Ok(x) => duration_spec(v@) == Ok::<i64, Seq<char>>(x),
            Err(e) => duration_spec(v@) == Err::<i64, Seq<char>>(e@),
        },
{
    let t = trim_vec(v);
    if t.len() == 0 {
        let r = "empty duration".to_owned();
        return Err(r);
    }
    let lw = lower_vec(&t);
    match find(&lw, 'h') {
        None => duration_minutes(&t, &lw, 0, false),
        Some(hp) => {
            let num = slice_of(&lw, 0, hp);
            let num = trim_vec(&num);
            proof {
                assert(lw@.take(hp as int) =~= lw@.subrange(0, hp as int));
            }
            match parse_hours(&num) {
                None => {
                    let r = message_quoting("bad hours in \"", &t, "\"");
                    proof {
                        reveal_strlit("bad hours in \"");
                        reveal_strlit("bad hours in ");
                        reveal_strlit("\"");
                        assert(r@ =~= msg_bad_hours(t@));
                    }
                    Err(r)
                },
                Some(h) => {
                    let after = slice_of(&lw, hp + 1, lw.len());
                    let rest = trim_start_vec(&after);
                    proof {
                        assert(lw@.skip(hp as int + 1) =~= lw@.subrange(hp + 1, lw.len() as int));
                    }
                    duration_minutes(&t, &rest, h, true)
                },
            }
        },
    }
}

// --- Quick-creation lines -----------------------------------------------------

/// One successfully parsed task line from quick-creation input.
#[derive(Debug, Clone, PartialEq)]
pub struct QuickCreateTask {
    /// Nesting depth, 0 = root.
    pub depth: usize,
    pub title: String,
    pub initial_time_seconds: Option<i64>,
    /// ISO `YYYY-MM-DD`.
    pub deadline: Option<String>,
    pub description: String,
}

/// One line of quick-creation input, parsed or not. `line_no` is 1-based
/// against the original pasted text, for error display.
#[derive(Debug, PartialEq)]
pub struct QuickCreateLine {
    pub line_no: usize,
    pub result: Result<QuickCreateTask, String>,
}

/// The fields of one task line, as plain values.
pub struct TaskFields {
    pub title: Seq<char>,
    pub secs: Option<i64>,
    pub deadline: Option<Seq<char>>,
    pub description: Seq<char>,
}

/// One quick-creation line as plain values: its number and either a depth
/// with the task's fields or an error message.
pub struct LineSpec {
    pub line_no: nat,
    pub result: Result<(nat, TaskFields), Seq<char>>,
}

pub open spec fn opt_view(o: Option<String>) -> Option<Seq<char>> {
    match o {
        Some(s) => Some(s@),
        None => None,
    }
}

pub open spec fn task_view(t: QuickCreateTask) -> (nat, TaskFields) {
    (
        t.depth as nat,
        TaskFields {
            title: t.title@,
            secs: t.initial_time_seconds,
            deadline: opt_view(t.deadline),
            description: t.description@,
        },
    )
}

pub open spec fn line_view(l: QuickCreateLine) -> LineSpec {
    LineSpec {
        line_no: l.line_no as nat,
        result: match l.result {
            Ok(t) => Ok(task_view(t)),
            Err(e) => Err(e@),
        },
    }
}

pub open spec fn lines_view(v: Seq<QuickCreateLine>) -> Seq<LineSpec> {
    v.map_values(|l: QuickCreateLine| line_view(l))
}

pub open spec fn msg_shape() -> Seq<char> {
    "expected `title|timeinvested|deadline|description` (3 `|` separators)"@
}

/// What `parse_task_fields` gives for a line's content (indentation already
/// stripped): exactly four `|`-separated fields (the last takes the rest); a
/// title that is not blank once trimmed; a time that is blank (see
/// [`blank_field`]) or a duration; a deadline that is blank or a date in
/// `date_format`; a description that is blank (read as empty) or kept
/// trimmed.
pub open spec fn fields_spec(content: Seq<char>, date_format: i32) -> Result<TaskFields, Seq<char>> {
    let parts = splitn_spec(content, 4, '|');
    if parts.len() != 4 {
        Err(msg_shape())
    } else if trim(parts[0]).len() == 0 {
        Err("title is required"@)
    } else {
        let secs: Result<Option<i64>, Seq<char>> = if blank_field(parts[1]) {
            Ok(None)
        } else {
            match duration_spec(parts[1]) {
                Ok(v) => Ok(Some(v)),
                Err(e) => Err(e),
            }
        };
        match secs {
            Err(e) => Err(e),
            Ok(secs) => {
                if !blank_field(parts[2]) && date_spec(parts[2], date_format) is None {
                    Err("bad deadline "@ + quoted(trim(parts[2])))
                } else {
                    Ok(
                        TaskFields {
                            title: trim(parts[0]),
                            secs,
                            deadline: if blank_field(parts[2]) {
                                None
                            } else {
                                date_spec(parts[2], date_format)
                            },
                            description: if blank_field(parts[3]) {
                                seq![]
                            } else {
                                trim(parts[3])
                            },
                        },
                    )
                }
            },
        }
    }
}

/// Parse one line's `title|time|deadline|description` content (indentation
/// already stripped) into a task (depth 0), or an error message.
pub fn parse_task_fields(content: &Vec<char>, date_format: i32) -> (r: Result<QuickCreateTask, String>)
    ensures
        match r {
            Ok(t) => t.depth == 0 && fields_spec(content@, date_format) == Ok::<
                TaskFields,
                Seq<char>,
            >(task_view(t).1),
            Err(e) => fields_spec(content@, date_format) == Err::<TaskFields, Seq<char>>(e@),
        },
{
    let parts = splitn_char(content, 4, '|');
    proof {
        assert(views(parts@).len() == parts@.len());
    }
    if parts.len() != 4 {
        let e = "expected `title|timeinvested|deadline|description` (3 `|` separators)".to_owned();
        return Err(e);
    }
    proof {
        assert(views(parts@)[0] == parts@[0]@);
        assert(views(parts@)[1] == parts@[1]@);
        assert(views(parts@)[2] == parts@[2]@);
        assert(views(parts@)[3] == parts@[3]@);
    }
    let title = trim_vec(&parts[0]);
    if title.len() == 0 {
        return Err("title is required".to_owned());
    }
    let secs = if is_blank_field(&parts[1]) {
        None
    } else {
        match parse_duration_chars(&parts[1]) {
            Ok(v) => Some(v),
            Err(e) => return Err(e),
        }
    };
    let deadline = if is_blank_field(&parts[2]) {
        None
    } else {
        match parse_date_chars(&parts[2], date_format) {
            Some(d) => Some(string_of(d.as_slice())),
            None => {
                let t = trim_vec(&parts[2]);
                let e = message_quoting("bad deadline \"", &t, "\"");
                proof {
                    reveal_strlit("bad deadline \"");
                    reveal_strlit("bad deadline ");
                    reveal_strlit("\"");
                    assert(e@ =~= "bad deadline "@ + quoted(t@));
                }
                return Err(e);
            },
        }
    };
    let description = if is_blank_field(&parts[3]) {
        String::new()
    } else {
        let d = trim_vec(&parts[3]);
        string_of(d.as_slice())
    };
    let task = QuickCreateTask {
        depth: 0,
        title: string_of(title.as_slice()),
        initial_time_seconds: secs,
        deadline,
        description,
    };
    Ok(task)
}

/// The whitespace character that is not the indent unit.
pub open spec fn other_indent(indent_char: char) -> char {
    if indent_char == ' ' {
        '\t'
    } else {
        ' '
    }
}

pub open spec fn msg_mixed(indent_char: char) -> Seq<char> {
    "line uses "@ + (if other_indent(indent_char) == '\t' {
        "tabs"@
    } else {
        "spaces"@
    }) + ", but indent is set to "@ + quoted(seq![indent_char])
}

/// The leading run of `indent_char` in `line`, or an error when the other
/// whitespace character turns up in it.
pub open spec fn indent_spec(line: Seq<char>, indent_char: char) -> Result<nat, Seq<char>>
    decreases line.len(),
{
    if line.len() > 0 && line[0] == indent_char {
        match indent_spec(line.drop_first(), indent_char) {
            Ok(n) => Ok(n + 1),
            Err(e) => Err(e),
        }
    } else if line.len() > 0 && line[0] == other_indent(indent_char) {
        Err(msg_mixed(indent_char))
    } else {
        Ok(0)
    }
}

proof fn lemma_indent_suffix(line: Seq<char>, indent_char: char, k: int)
    requires
        0 <= k <= line.len(),
        forall|i: int| 0 <= i < k ==> line[i] == indent_char,
    ensures
        indent_spec(line, indent_char) == (match indent_spec(line.skip(k), indent_char) {
            Ok(n) => Ok::<nat, Seq<char>>(n + k as nat),
            Err(e) => Err(e),
        }),
        indent_spec(line, indent_char) matches Ok(n) ==> n <= line.len(),
    decreases k,
{
    if k > 0 {
        assert forall|i: int| 0 <= i < k - 1 implies line.drop_first()[i] == indent_char by {
            assert(line.drop_first()[i] == line[i + 1]);
        }
        lemma_indent_suffix(line.drop_first(), indent_char, k - 1);
        assert(line.drop_first().skip(k - 1) =~= line.skip(k));
    } else {
        assert(line.skip(0) =~= line);
        lemma_indent_bound(line, indent_char);
    }
}

proof fn lemma_indent_err(line: Seq<char>, indent_char: char)
    ensures
        indent_spec(line, indent_char) matches Err(e) ==> e == msg_mixed(indent_char),
    decreases line.len(),
{
    if line.len() > 0 {
        lemma_indent_err(line.drop_first(), indent_char);
    }
}

proof fn lemma_indent_bound(line: Seq<char>, indent_char: char)
    ensures
        indent_spec(line, indent_char) matches Ok(n) ==> n <= line.len(),
    decreases line.len(),
{
    if line.len() > 0 {
        lemma_indent_bound(line.drop_first(), indent_char);
    }
}

/// Leading run of `indent_char`, or an error if it is mixed with the other
/// whitespace character.
pub fn leading_indent(line: &Vec<char>, indent_char: char) -> (r: Result<usize, String>)
    ensures
        match r {
            Ok(n) => indent_spec(line@, indent_char) == Ok::<nat, Seq<char>>(n as nat) && n <= line.len(),
            Err(e) => indent_spec(line@, indent_char) == Err::<nat, Seq<char>>(e@),
        },
{
    let other = if indent_char == ' ' { '\t' } else { ' ' };
    let mut n: usize = 0;
    while n < line.len() && line[n] == indent_char
        invariant
            n <= line.len(),
            forall|i: int| 0 <= i < n ==> line@[i] == indent_char,
        decreases line.len() - n,
    {
        n += 1;
    }
    proof {
        lemma_indent_suffix(line@, indent_char, n as int);
        let rest = line@.skip(n as int);
        if n < line.len() {
            assert(rest[0] == line@[n as int]);
        }
    }
    if n < line.len() && line[n] == other {
        let mut out: Vec<char> = Vec::new();
        push_str(&mut out, "line uses ");
        if other == '\t' {
            push_str(&mut out, "tabs");
        } else {
            push_str(&mut out, "spaces");
        }
        push_str(&mut out, ", but indent is set to \"");
        out.push(indent_char);
        push_str(&mut out, "\"");
        proof {
            reveal_strlit("line uses ");
            reveal_strlit("tabs");
            reveal_strlit("spaces");
            reveal_strlit(", but indent is set to \"");
            reveal_strlit(", but indent is set to ");
            reveal_strlit("\"");
            assert(out@ =~= msg_mixed(indent_char));
        }
        return Err(string_of(out.as_slice()));
    }
    Ok(n)
}

pub open spec fn msg_first_indented() -> Seq<char> {
    "first task can't be indented"@
}

pub open spec fn msg_no_parent() -> Seq<char> {
    "indentation doesn't match any parent level"@
}

pub open spec fn msg_too_deep() -> Seq<char> {
    "indented more than one level deeper than the line above"@
}

/// A dedent to indent `n`: pop open levels until one sits at `n`.
pub open spec fn dedent(stack: Seq<usize>, n: usize) -> (Seq<usize>, Result<nat, Seq<char>>)
    decreases stack.len(),
{
    if stack.len() == 0 {
        (stack, Err(msg_no_parent()))
    } else if stack.last() == n {
        (stack, Ok((stack.len() - 1) as nat))
    } else if stack.last() < n {
        (stack, Err(msg_no_parent()))
    } else {
        dedent(stack.drop_last(), n)
    }
}

/// How a line indented by `n` moves the stack of open levels (`stack[i]` is
/// the indent of the open line at depth `i`), and the line's depth.
pub open spec fn depth_step(stack: Seq<usize>, n: usize) -> (Seq<usize>, Result<nat, Seq<char>>) {
    if stack.len() == 0 {
        if n != 0 {
            (stack, Err(msg_first_indented()))
        } else {
            (seq![0usize], Ok(0))
        }
    } else {
        let top = stack.last();
        if n == top + 1 {
            (stack.push(n), Ok(stack.len()))
        } else if n == top {
            (stack, Ok((stack.len() - 1) as nat))
        } else if n < top {
            dedent(stack, n)
        } else {
            (stack, Err(msg_too_deep()))
        }
    }
}

/// One non-blank line against the stack of open levels.
pub open spec fn qc_line(raw: Seq<char>, indent_char: char, date_format: i32, stack: Seq<usize>) -> (
    Seq<usize>,
    Result<(nat, TaskFields), Seq<char>>,
) {
    match indent_spec(raw, indent_char) {
        Err(e) => (stack, Err(e)),
        Ok(n) => {
            let (st, d) = depth_step(stack, n as usize);
            match d {
                Err(e) => (st, Err(e)),
                Ok(depth) => match fields_spec(raw.skip(n as int), date_format) {
                    Err(e) => (st, Err(e)),
                    Ok(f) => (st, Ok((depth, f))),
                },
            }
        },
    }
}

/// The lines from index `i` on, each non-blank one numbered and parsed.
pub open spec fn qc_from(
    lines: Seq<Seq<char>>,
    i: nat,
    indent_char: char,
    date_format: i32,
    stack: Seq<usize>,
) -> Seq<LineSpec>
    decreases lines.len() - i,
{
    if i >= lines.len() {
        seq![]
    } else if trim(lines[i as int]).len() == 0 {
        qc_from(lines, i + 1, indent_char, date_format, stack)
    } else {
        let (st, r) = qc_line(lines[i as int], indent_char, date_format, stack);
        seq![LineSpec { line_no: i + 1, result: r }] + qc_from(
            lines,
            i + 1,
            indent_char,
            date_format,
            st,
        )
    }
}

/// What `parse_quick_creation` gives for a text.
pub open spec fn quick_creation_spec(text: Seq<char>, indent_char: char, date_format: i32) -> Seq<
    LineSpec,
> {
    qc_from(lines_spec(text), 0, indent_char, date_format, seq![])
}

/// The depth a line's indent puts it at, updating the stack of open levels.
fn step_depth(stack: &mut Vec<usize>, n: usize) -> (r: Result<usize, String>)
    ensures
        final(stack)@ == depth_step(old(stack)@, n).0,
        match r {
            Ok(d) => depth_step(old(stack)@, n).1 == Ok::<nat, Seq<char>>(d as nat),
            Err(e) => depth_step(old(stack)@, n).1 == Err::<nat, Seq<char>>(e@),
        },
{
    if stack.len() == 0 {
        if n != 0 {
            return Err("first task can't be indented".to_owned());
        }
        stack.push(0);
        proof {
            assert(stack@ =~= seq![0usize]);
        }
        return Ok(0);
    }
    let top = stack[stack.len() - 1];
    if top < usize::MAX && n == top + 1 {
        stack.push(n);
        Ok(stack.len() - 1)
    } else if n == top {
        Ok(stack.len() - 1)
    } else if n < top {
        let ghost start = stack@;
        proof {
            assert(depth_step(start, n) == dedent(start, n));
        }
        loop
            invariant
                start == old(stack)@,
                depth_step(start, n) == dedent(stack@, n),
            decreases stack.len(),
        {
            if stack.len() == 0 {
                return Err("indentation doesn't match any parent level".to_owned());
            }
            let t = stack[stack.len() - 1];
            if t == n {
                return Ok(stack.len() - 1);
            } else if t < n {
                return Err("indentation doesn't match any parent level".to_owned());
            }
            stack.pop();
        }
    } else {
        Err("indented more than one level deeper than the line above".to_owned())
    }
}

/// Parse the whole quick-creation text into one entry per non-blank line -
/// each either a task (with `depth` resolved from indentation) or a
/// line-level error. Blank lines are silently skipped.
///
/// The indent unit must be an ASCII character (it is a space or a tab).
pub fn parse_quick_creation(text: &str, indent_char: char, date_format: i32) -> (r: Vec<
    QuickCreateLine,
>)
    requires
        (indent_char as u32) < 128,
    ensures
        lines_view(r@) == quick_creation_spec(text@, indent_char, date_format),
{
    let chars = chars_of(text);
    let lines = split_lines(&chars);
    let ghost ls = lines_spec(text@);
    let mut out: Vec<QuickCreateLine> = Vec::new();
    let mut stack: Vec<usize> = Vec::new();
    let mut i: usize = 0;
    while i < lines.len()
        invariant
            i <= lines.len(),
            views(lines@) == ls,
            ls == lines_spec(text@),
            lines_view(out@) + qc_from(ls, i as nat, indent_char, date_format, stack@)
                == quick_creation_spec(text@, indent_char, date_format),
        decreases lines.len() - i,
    {
        let ghost before = out@;
        let ghost st0 = stack@;
        let raw = &lines[i];
        proof {
            assert(views(lines@)[i as int] == raw@);
        }
        if is_blank(raw) {
            i += 1;
            continue;
        }
        let result = match leading_indent(raw, indent_char) {
            Err(e) => Err(e),
            Ok(n) => {
                let content = slice_of(raw, n, raw.len());
                proof {
                    assert(raw@.skip(n as int) =~= content@);
                }
                match step_depth(&mut stack, n) {
                    Err(e) => Err(e),
                    Ok(depth) => match parse_task_fields(&content, date_format) {
                        Err(e) => Err(e),
                        Ok(task) => Ok(QuickCreateTask { depth, ..task }),
                    },
                }
            },
        };
        let line = QuickCreateLine { line_no: i + 1, result };
        out.push(line);
        proof {
            assert(lines_view(out@) =~= lines_view(before).push(line_view(line)));
            let (st, r) = qc_line(raw@, indent_char, date_format, st0);
            assert(st == stack@);
            assert(line_view(line).result == r);
            assert(lines_view(before) + qc_from(ls, i as nat, indent_char, date_format, st0)
                =~= lines_view(out@) + qc_from(ls, (i + 1) as nat, indent_char, date_format, stack@));
        }
        i += 1;
    }
    out
}

// --- Laws of the indentation scheme ---------------------------------------------

/// The open levels sit at indents 0, 1, 2, ... - one unit per depth.
pub open spec fn contiguous(stack: Seq<usize>) -> bool {
    forall|i: int| 0 <= i < stack.len() ==> stack[i] == i
}

proof fn lemma_dedent_contiguous(stack: Seq<usize>, n: usize)
    requires
        contiguous(stack),
        stack.len() > 0,
        n < stack.last(),
    ensures
        dedent(stack, n) == (stack.take(n + 1), Ok::<nat, Seq<char>>(n as nat)),
    decreases stack.len(),
{
    let s2 = stack.drop_last();
    assert(stack.last() == stack.len() - 1);
    assert(dedent(stack, n) == dedent(s2, n));
    assert(s2.len() > 0);
    assert(s2.last() == s2.len() - 1);
    if s2.last() == n {
        assert(s2 =~= stack.take(n + 1));
    } else {
        assert(contiguous(s2));
        lemma_dedent_contiguous(s2, n);
        assert(s2.take(n + 1) =~= stack.take(n + 1));
    }
}

/// From a stack of contiguous levels, a line's depth is exactly its indent,
/// the stack stays contiguous, and no dedent ever misses a parent level.
pub proof fn lemma_depth_step_contiguous(stack: Seq<usize>, n: usize)
    requires
        contiguous(stack),
    ensures
        contiguous(depth_step(stack, n).0),
        depth_step(stack, n).1 matches Ok(d) ==> d == n,
        depth_step(stack, n).1 matches Ok(d) ==> d <= stack.len() && depth_step(stack, n).0.len() == d + 1,
        depth_step(stack, n).1 != Err::<nat, Seq<char>>(msg_no_parent()),
{
    reveal_strlit("indentation doesn't match any parent level");
    reveal_strlit("first task can't be indented");
    reveal_strlit("indented more than one level deeper than the line above");
    assert(msg_first_indented()[0] != msg_no_parent()[0]);
    assert(msg_too_deep()[6] != msg_no_parent()[6]);
    if stack.len() > 0 {
        let top = stack.last();
        assert(top == stack.len() - 1);
        if n == top + 1 {
            assert(contiguous(stack.push(n)));
        } else if n == top {
        } else if n < top {
            lemma_dedent_contiguous(stack, n);
            assert(contiguous(stack.take(n + 1)));
        }
    } else if n == 0 {
        assert(contiguous(seq![0usize]));
    }
}

/// The first character of every message a task line's fields can fail with.
proof fn lemma_field_errors_start(content: Seq<char>, date_format: i32)
    ensures
        fields_spec(content, date_format) matches Err(e) ==> e.len() > 0 && e[0] != 'i' && e[0] != 'l' && e[0] != 'f',
{
    reveal_strlit("expected `title|timeinvested|deadline|description` (3 `|` separators)");
    reveal_strlit("title is required");
    reveal_strlit("bad deadline ");
    reveal_strlit("empty duration");
    reveal_strlit("bad hours in ");
    reveal_strlit("bad minutes in ");
    reveal_strlit("unexpected trailing text in ");
    let parts = splitn_spec(content, 4, '|');
    if parts.len() == 4 && trim(parts[0]).len() != 0 && !blank_field(parts[1]) {
        let t = trim(parts[1]);
        if t.len() > 0 {
            assert((msg_bad_hours(t))[0] == 'b');
            assert((msg_bad_minutes(t))[0] == 'b');
            assert((msg_trailing(t))[0] == 'u');
            assert((msg_no_unit(t))[0] == '"');
        }
    }
    if parts.len() == 4 {
        let t2 = trim(parts[2]);
        assert(("bad deadline "@ + quoted(t2))[0] == 'b');
    }
}

/// Every line result of a parse run from a contiguous stack: an accepted
/// task's depth is its indent, and no line fails for missing a parent level.
proof fn lemma_qc_from(
    lines: Seq<Seq<char>>,
    i: nat,
    indent_char: char,
    date_format: i32,
    stack: Seq<usize>,
)
    requires
        contiguous(stack),
        forall|k: int| 0 <= k < lines.len() ==> #[trigger] lines[k].len() <= usize::MAX,
    ensures
        forall|k: int|
            0 <= k < qc_from(lines, i, indent_char, date_format, stack).len() ==> {
                let l = #[trigger] qc_from(lines, i, indent_char, date_format, stack)[k];
                &&& 1 <= l.line_no <= lines.len()
                &&& (l.result matches Ok(r) ==> indent_spec(lines[l.line_no - 1], indent_char)
                    == Ok::<nat, Seq<char>>(r.0))
                &&& l.result != Err::<(nat, TaskFields), Seq<char>>(msg_no_parent())
            },
    decreases lines.len() - i,
{
    if i < lines.len() {
        if trim(lines[i as int]).len() == 0 {
            lemma_qc_from(lines, i + 1, indent_char, date_format, stack);
        } else {
            let raw = lines[i as int];
            let (st, r) = qc_line(raw, indent_char, date_format, stack);
            reveal_strlit("indentation doesn't match any parent level");
            reveal_strlit("line uses ");
            match indent_spec(raw, indent_char) {
                Err(e) => {
                    lemma_indent_err(raw, indent_char);
                    assert(msg_mixed(indent_char)[0] != msg_no_parent()[0]);
                },
                Ok(n) => {
                    lemma_indent_bound(raw, indent_char);
                    assert(n <= usize::MAX);
                    lemma_depth_step_contiguous(stack, n as usize);
                    lemma_field_errors_start(raw.skip(n as int), date_format);
                    assert(msg_no_parent()[0] == 'i');
                    assert(r matches Ok(x) ==> x.0 == n);
                },
            }
            assert(r != Err::<(nat, TaskFields), Seq<char>>(msg_no_parent()));
            assert(r matches Ok(x) ==> indent_spec(raw, indent_char) == Ok::<nat, Seq<char>>(x.0));
            assert(contiguous(st));
            lemma_qc_from(lines, i + 1, indent_char, date_format, st);
            let rest = qc_from(lines, i + 1, indent_char, date_format, st);
            let all = qc_from(lines, i, indent_char, date_format, stack);
            assert forall|k: int| 0 <= k < all.len() implies {
                let l = #[trigger] all[k];
                &&& 1 <= l.line_no <= lines.len()
                &&& (l.result matches Ok(r) ==> indent_spec(lines[l.line_no - 1], indent_char)
                    == Ok::<nat, Seq<char>>(r.0))
                &&& l.result != Err::<(nat, TaskFields), Seq<char>>(msg_no_parent())
            } by {
                if k > 0 {
                    assert(all[k] == rest[k - 1]);
                }
            }
        }
    }
}

/// Law: in the parse of any text, an accepted task's depth equals the
/// number of indent units its line starts with, and no line is ever rejected
/// with "indentation doesn't match any parent level" - under the
/// one-unit-per-level scheme every dedent that is not a jump lands on an
/// open ancestor.
pub proof fn lemma_quick_creation_depth_is_indent(text: Seq<char>, indent_char: char, date_format: i32)
    requires
        text.len() <= usize::MAX,
    ensures
        forall|k: int|
            0 <= k < quick_creation_spec(text, indent_char, date_format).len() ==> {
                let l = #[trigger] quick_creation_spec(text, indent_char, date_format)[k];
                &&& 1 <= l.line_no <= lines_spec(text).len()
                &&& (l.result matches Ok(r) ==> indent_spec(
                    lines_spec(text)[l.line_no - 1],
                    indent_char,
                ) == Ok::<nat, Seq<char>>(r.0))
                &&& l.result != Err::<(nat, TaskFields), Seq<char>>(msg_no_parent())
            },
{
    crate::text::lemma_lines_len(text);
    lemma_qc_from(lines_spec(text), 0, indent_char, date_format, seq![]);
}

/// The number of lines from index `i` on that are not blank.
pub open spec fn nonblank_from(lines: Seq<Seq<char>>, i: nat) -> nat
    decreases lines.len() - i,
{
    if i >= lines.len() {
        0
    } else {
        (if trim(lines[i as int]).len() == 0 { 0nat } else { 1nat }) + nonblank_from(lines, i + 1)
    }
}

/// The entries of a parse run from line `i` on: one per non-blank line,
/// numbered after `i`, in increasing order.
proof fn lemma_qc_lines(lines: Seq<Seq<char>>, i: nat, indent_char: char, date_format: i32, stack: Seq<usize>)
    ensures
        ({
            let r = qc_from(lines, i, indent_char, date_format, stack);
            &&& r.len() == nonblank_from(lines, i)
            &&& forall|k: int| 0 <= k < r.len() ==> i + 1 <= #[trigger] r[k].line_no <= lines.len()
                && trim(lines[r[k].line_no - 1]).len() > 0
            &&& forall|j: int, k: int| 0 <= j < k < r.len() ==> #[trigger] r[j].line_no < #[trigger] r[k].line_no
        }),
    decreases lines.len() - i,
{
    if i < lines.len() {
        if trim(lines[i as int]).len() == 0 {
            lemma_qc_lines(lines, i + 1, indent_char, date_format, stack);
        } else {
            let (st, res) = qc_line(lines[i as int], indent_char, date_format, stack);
            lemma_qc_lines(lines, i + 1, indent_char, date_format, st);
            let rest = qc_from(lines, i + 1, indent_char, date_format, st);
            let all = qc_from(lines, i, indent_char, date_format, stack);
            assert(all == seq![LineSpec { line_no: i + 1, result: res }] + rest);
            assert forall|k: int| 0 <= k < all.len() implies i + 1 <= #[trigger] all[k].line_no <= lines.len()
                && trim(lines[all[k].line_no - 1]).len() > 0 by {
                if k > 0 {
                    assert(all[k] == rest[k - 1]);
                }
            }
            assert forall|j: int, k: int| 0 <= j < k < all.len() implies #[trigger] all[j].line_no < #[trigger] all[k].line_no by {
                assert(all[k] == rest[k - 1]);
                if j > 0 {
                    assert(all[j] == rest[j - 1]);
                }
            }
        }
    }
}

/// Law: the parse of a text has one entry per non-blank line, in the order
/// of the lines: each entry's 1-based `line_no` names a non-blank line, and
/// line numbers strictly increase.
pub proof fn lemma_quick_creation_lines(text: Seq<char>, indent_char: char, date_format: i32)
    ensures
        ({
            let r = quick_creation_spec(text, indent_char, date_format);
            let ls = lines_spec(text);
            &&& r.len() == nonblank_from(ls, 0)
            &&& forall|k: int| 0 <= k < r.len() ==> 1 <= #[trigger] r[k].line_no <= ls.len()
                && trim(ls[r[k].line_no - 1]).len() > 0
            &&& forall|j: int, k: int| 0 <= j < k < r.len() ==> #[trigger] r[j].line_no < #[trigger] r[k].line_no
        }),
{
    lemma_qc_lines(lines_spec(text), 0, indent_char, date_format, seq![]);
}

/// The depth of an accepted line (0 for a rejected one).
pub open spec fn line_depth(l: LineSpec) -> nat {
    match l.result {
        Ok(x) => x.0,
        Err(_) => 0,
    }
}

/// Every line of a parse was accepted.
pub open spec fn all_accepted(r: Seq<LineSpec>) -> bool {
    forall|k: int| 0 <= k < r.len() ==> (#[trigger] r[k]).result is Ok
}

/// A run of accepted lines from a contiguous stack: the first sits at most
/// one level below the open ones, and each next at most one level deeper
/// than the one before.
proof fn lemma_qc_depths(lines: Seq<Seq<char>>, i: nat, indent_char: char, date_format: i32, stack: Seq<usize>)
    requires
        contiguous(stack),
        forall|k: int| 0 <= k < lines.len() ==> #[trigger] lines[k].len() <= usize::MAX,
    ensures
        ({
            let r = qc_from(lines, i, indent_char, date_format, stack);
            all_accepted(r) ==> {
                &&& r.len() > 0 ==> line_depth(r[0]) <= stack.len()
                &&& forall|k: int| 0 < k < r.len() ==> line_depth(#[trigger] r[k]) <= line_depth(r[k - 1]) + 1
            }
        }),
    decreases lines.len() - i,
{
    if i < lines.len() {
        if trim(lines[i as int]).len() == 0 {
            lemma_qc_depths(lines, i + 1, indent_char, date_format, stack);
        } else {
            let raw = lines[i as int];
            let (st, res) = qc_line(raw, indent_char, date_format, stack);
            let rest = qc_from(lines, i + 1, indent_char, date_format, st);
            let all = qc_from(lines, i, indent_char, date_format, stack);
            assert(all == seq![LineSpec { line_no: i + 1, result: res }] + rest);
            if all_accepted(all) {
                assert(all[0].result is Ok);
                match indent_spec(raw, indent_char) {
                    Err(e) => {},
                    Ok(n) => {
                        lemma_indent_bound(raw, indent_char);
                        lemma_depth_step_contiguous(stack, n as usize);
                        let d = line_depth(all[0]);
                        assert(st.len() == d + 1);
                        assert(contiguous(st));
                        lemma_qc_depths(lines, i + 1, indent_char, date_format, st);
                        assert(all_accepted(rest)) by {
                            assert forall|k: int| 0 <= k < rest.len() implies (#[trigger] rest[k]).result is Ok by {
                                assert(rest[k] == all[k + 1]);
                            }
                        }
                        assert forall|k: int| 0 < k < all.len() implies line_depth(#[trigger] all[k]) <= line_depth(all[k - 1]) + 1 by {
                            assert(all[k] == rest[k - 1]);
                            if k > 1 {
                                assert(all[k - 1] == rest[k - 2]);
                            }
                        }
                    },
                }
            }
        }
    }
}

/// Law: when every line of a text parses, the depths form a valid outline -
/// the first task is a root (depth 0) and each task is at most one level
/// deeper than the one before it. This is what an import relies on to find
/// every parent.
pub proof fn lemma_quick_creation_depths_valid(text: Seq<char>, indent_char: char, date_format: i32)
    requires
        text.len() <= usize::MAX,
    ensures
        ({
            let r = quick_creation_spec(text, indent_char, date_format);
            all_accepted(r) ==> {
                &&& r.len() > 0 ==> line_depth(r[0]) == 0
                &&& forall|k: int| 0 < k < r.len() ==> line_depth(#[trigger] r[k]) <= line_depth(r[k - 1]) + 1
            }
        }),
{
    crate::text::lemma_lines_len(text);
    assert(contiguous(seq![]));
    lemma_qc_depths(lines_spec(text), 0, indent_char, date_format, seq![]);
}

/// A line is refused for its indentation, against `m` open levels (at
/// indents 0..m): its leading run mixes in the other whitespace character,
/// or it is indented while nothing is open, or it goes more than one level
/// deeper than the deepest open one.
pub open spec fn indent_refused(raw: Seq<char>, indent_char: char, m: nat) -> bool {
    match indent_spec(raw, indent_char) {
        Err(_) => true,
        Ok(n) => (m == 0 && n != 0) || (m > 0 && n > m),
    }
}

/// One of the three messages a line's indentation can be refused with.
pub open spec fn indent_message(e: Seq<char>, indent_char: char) -> bool {
    e == msg_mixed(indent_char) || e == msg_first_indented() || e == msg_too_deep()
}

/// Law: against open levels at indents 0, 1, ... (the only shape the parse
/// ever builds), a line is refused with an indentation message exactly when
/// [`indent_refused`] holds - mixed whitespace in its indent, an indented
/// first task, or a jump of more than one level.
pub proof fn lemma_indent_refusal(raw: Seq<char>, indent_char: char, date_format: i32, stack: Seq<usize>)
    requires
        contiguous(stack),
        raw.len() <= usize::MAX,
    ensures
        (qc_line(raw, indent_char, date_format, stack).1 matches Err(e) && indent_message(e, indent_char))
            <==> indent_refused(raw, indent_char, stack.len()),
{
    reveal_strlit("line uses ");
    reveal_strlit("first task can't be indented");
    reveal_strlit("indented more than one level deeper than the line above");
    assert(msg_mixed(indent_char)[0] == 'l');
    assert(msg_first_indented()[0] == 'f');
    assert(msg_too_deep()[0] == 'i');
    lemma_indent_err(raw, indent_char);
    match indent_spec(raw, indent_char) {
        Err(e) => {},
        Ok(n) => {
            lemma_indent_bound(raw, indent_char);
            let n = n as usize;
            lemma_depth_step_contiguous(stack, n);
            lemma_field_errors_start(raw.skip(n as int), date_format);
            if stack.len() > 0 {
                let top = stack.last();
                assert(top == stack.len() - 1);
                if n < top {
                    lemma_dedent_contiguous(stack, n);
                }
            }
        },
    }
}

/// Law: only the trimmed text matters to a duration - surrounding
/// whitespace never changes what `parse_duration` gives.
pub proof fn lemma_duration_ignores_surrounding_space(s: Seq<char>)
    ensures
        duration_spec(trim(s)) == duration_spec(s),
{
    crate::text::lemma_trim_idempotent(s);
}

/// Law: only the trimmed text matters to a date - surrounding whitespace
/// never changes what `parse_date_with_format` gives, in any format.
pub proof fn lemma_date_ignores_surrounding_space(s: Seq<char>, format: i32)
    ensures
        date_spec(trim(s), format) == date_spec(s, format),
{
    crate::text::lemma_trim_idempotent(s);
}

/// Law: a date read in the ISO format is a `YYYY-MM-DD` text, and reading
/// it again gives it back unchanged.
pub proof fn lemma_iso_date_round_trip(s: Seq<char>)
    ensures
        date_spec(s, 0) matches Some(d) ==> iso_date(d) && date_spec(d, 0) == Some(d),
{
    if let Some(d) = date_spec(s, 0) {
        assert(!crate::text::is_ws(d[0]));
        assert(!crate::text::is_ws(d[9]));
        crate::text::lemma_trim_end_subrange(d, 10);
        assert(d.subrange(0, 10) =~= d);
        crate::text::lemma_trim_start_subrange(d, 0);
        assert(d.subrange(0, d.len() as int) =~= d);
    }
}

/// Law: a duration is read without regard to case - two texts that agree
/// once trimmed and ASCII lower-cased both parse, to the same number of
/// seconds, or both fail.
pub proof fn lemma_duration_ignores_case(s1: Seq<char>, s2: Seq<char>)
    requires
        lower_seq(trim(s1)) == lower_seq(trim(s2)),
    ensures
        duration_spec(s1) is Ok <==> duration_spec(s2) is Ok,
        duration_spec(s1) matches Ok(v) ==> duration_spec(s2) == Ok::<i64, Seq<char>>(v),
{
    assert(trim(s1).len() == lower_seq(trim(s1)).len());
    assert(trim(s2).len() == lower_seq(trim(s2)).len());
}

} // verus!
