//! The quick-creation dialog: a live preview of the pasted text, and the
//! import of a whole project from it.
use vstd::prelude::*;
use crate::db::actions::{import_quick_creation, imported_as, ImportOutcome};
use crate::db::insert_project_stmt;
use crate::sql::stmts_view;
use crate::domain::{line_view, lines_view, parse_quick_creation, quick_creation_spec, task_view, LineSpec, QuickCreateLine, QuickCreateTask};
use crate::format::{serde_str_spec, push_serde_str};
use crate::journal::{jarray, join_commas};
use crate::text::{chars_of, dec, push_dec, push_str, string_of, trim, trim_str};

verus! {

/// The indent unit: a tab, or a space.
pub fn indent_char(indent_tab: bool) -> (c: char)
    ensures
        c == (if indent_tab { '\t' } else { ' ' }),
{
    if indent_tab {
        '\t'
    } else {
        ' '
    }
}

/// The lines of `text` with a tab (or a space) as the indent unit.
pub open spec fn text_lines(text: Seq<char>, indent_tab: bool, date_format: i32) -> Seq<LineSpec> {
    quick_creation_spec(text, if indent_tab { '\t' } else { ' ' }, date_format)
}

/// One preview line as JSON: its number, whether it parsed, and its depth
/// and title or its error.
pub open spec fn line_json(l: LineSpec) -> Seq<char> {
    match l.result {
        Ok((depth, fields)) => "{\"lineNo\":"@ + dec(l.line_no) + ",\"ok\":true,\"depth\":"@ + dec(depth)
            + ",\"title\":"@ + serde_str_spec(fields.title) + ",\"error\":\"\"}"@,
        Err(e) => "{\"lineNo\":"@ + dec(l.line_no) + ",\"ok\":false,\"depth\":0,\"title\":\"\",\"error\":"@
            + serde_str_spec(e) + "}"@,
    }
}

/// The preview of some lines as a JSON array.
pub open spec fn preview_json(lines: Seq<LineSpec>) -> Seq<char> {
    jarray(Seq::new(lines.len(), |i: int| line_json(lines[i])))
}

/// A failure reply: `{"error": msg, "ok": false}`.
pub open spec fn fail_json(msg: Seq<char>) -> Seq<char> {
    "{\"error\":"@ + serde_str_spec(msg) + ",\"ok\":false}"@
}

/// A success reply: `{"ok": true, "projectId": id, "taskCount": n}`.
pub open spec fn done_json(project_id: Seq<char>, n: nat) -> Seq<char> {
    "{\"ok\":true,\"projectId\":"@ + serde_str_spec(project_id) + ",\"taskCount\":"@ + dec(n) + "}"@
}

/// The first line that did not parse, as its number and error.
pub open spec fn first_error(lines: Seq<LineSpec>) -> Option<(nat, Seq<char>)>
    decreases lines.len(),
{
    if lines.len() == 0 {
        None
    } else {
        match lines[0].result {
            Err(e) => Some((lines[0].line_no, e)),
            Ok(_) => first_error(lines.drop_first()),
        }
    }
}

/// The reply an import gives before touching the database: a blank
/// project name, an empty text, or the first line that did not parse.
pub open spec fn refusal(project_name: Seq<char>, lines: Seq<LineSpec>) -> Option<Seq<char>> {
    if trim(project_name).len() == 0 {
        Some(fail_json("Project name is required"@))
    } else if lines.len() == 0 {
        Some(fail_json("Nothing to create - the text area is empty"@))
    } else {
        match first_error(lines) {
            Some((n, e)) => Some(fail_json("Line "@ + dec(n) + ": "@ + e)),
            None => None,
        }
    }
}

fn push_jstr(out: &mut Vec<char>, s: &str)
    ensures
        final(out)@ == old(out)@ + serde_str_spec(s@),
{
    let v = chars_of(s);
    push_serde_str(out, v.as_slice());
}

fn push_line_json(out: &mut Vec<char>, l: &QuickCreateLine)
    ensures
        final(out)@ == old(out)@ + line_json(crate::domain::line_view(*l)),
{
    let ghost start = out@;
    push_str(out, "{\"lineNo\":");
    push_dec(out, l.line_no as u64);
    match &l.result {
        Ok(t) => {
            push_str(out, ",\"ok\":true,\"depth\":");
            push_dec(out, t.depth as u64);
            push_str(out, ",\"title\":");
            push_jstr(out, t.title.as_str());
            push_str(out, ",\"error\":\"\"}");
        },
        Err(e) => {
            push_str(out, ",\"ok\":false,\"depth\":0,\"title\":\"\",\"error\":");
            push_jstr(out, e.as_str());
            push_str(out, "}");
        },
    }
    proof {
        assert(out@ =~= start + line_json(crate::domain::line_view(*l)));
    }
}

/// The preview of parsed lines as JSON (see [`preview_json`]).
pub fn preview_of(lines: &Vec<QuickCreateLine>) -> (r: String)
    ensures
        r@ == preview_json(lines_view(lines@)),
{
    let ghost lv = lines_view(lines@);
    let ghost all = Seq::new(lv.len(), |i: int| line_json(lv[i]));
    let mut out: Vec<char> = Vec::new();
    out.push('[');
    let mut k: usize = 0;
    while k < lines.len()
        invariant
            k <= lines.len(),
            lv == lines_view(lines@),
            all == Seq::new(lv.len(), |i: int| line_json(lv[i])),
            out@ == seq!['['] + join_commas(all.take(k as int)),
        decreases lines.len() - k,
    {
        if k > 0 {
            out.push(',');
        }
        push_line_json(&mut out, &lines[k]);
        proof {
            assert(lv[k as int] == crate::domain::line_view(lines@[k as int]));
            assert(all.take(k + 1).drop_last() =~= all.take(k as int));
            if k == 0 {
                assert(all.take(1) =~= seq![all[0]]);
            }
            assert(out@ =~= seq!['['] + join_commas(all.take(k + 1)));
        }
        k += 1;
    }
    out.push(']');
    proof {
        assert(all.take(k as int) =~= all);
        assert(out@ =~= jarray(all));
    }
    string_of(out.as_slice())
}

fn fail(msg: &str) -> (r: String)
    ensures
        r@ == fail_json(msg@),
{
    let mut out: Vec<char> = Vec::new();
    push_str(&mut out, "{\"error\":");
    push_jstr(&mut out, msg);
    push_str(&mut out, ",\"ok\":false}");
    string_of(out.as_slice())
}

/// The parsed tasks, or the first line that did not parse.
fn collect_tasks(lines: Vec<QuickCreateLine>) -> (r: Result<Vec<QuickCreateTask>, (usize, String)>)
    ensures
        match r {
            Ok(ts) => first_error(lines_view(lines@)) is None && ts.len() == lines.len() && forall|k: int|
                0 <= k < ts.len() ==> lines@[k].result == Ok::<QuickCreateTask, String>(#[trigger] ts@[k]),
            Err((n, e)) => first_error(lines_view(lines@)) == Some((n as nat, e@)),
        },
{
    let ghost lv = lines_view(lines@);
    let ghost orig = lines@;
    let mut rest = lines;
    let mut out: Vec<QuickCreateTask> = Vec::new();
    let ghost mut k: int = 0;
    while rest.len() > 0
        invariant
            0 <= k <= lv.len(),
            lv == lines_view(lines@),
            lines_view(rest@) == lv.skip(k),
            first_error(lv) == first_error(lv.skip(k)),
            out.len() == k,
            orig.len() == lv.len(),
            rest@ == orig.skip(k),
            forall|m: int| 0 <= m < k ==> orig[m].result == Ok::<QuickCreateTask, String>(#[trigger] out@[m]),
        decreases rest.len(),
    {
        let ghost r0 = rest@;
        let l = rest.remove(0);
        proof {
            assert(l == orig[k]);
        }
        proof {
            assert(lv.skip(k)[0] == crate::domain::line_view(l));
            assert(lv.skip(k).drop_first() =~= lv.skip(k + 1));
        }
        let line_no = l.line_no;
        match l.result {
            Ok(t) => out.push(t),
            Err(e) => {
                proof {
                    assert(lv.skip(k).len() > 0);
                    assert(lv.skip(k)[0].result == Err::<(nat, crate::domain::TaskFields), Seq<char>>(e@));
                    assert(first_error(lv.skip(k)) == Some((line_no as nat, e@)));
                }
                return Err((line_no, e));
            },
        }
        proof {
            k = k + 1;
            assert(lines_view(rest@) =~= lv.skip(k));
            assert(rest@ =~= orig.skip(k));
        }
    }
    proof {
        assert(lv.skip(k).len() == 0);
    }
    Ok(out)
}

/// The quick-creation dialog's state.
pub struct QuickCreate {
    conn: rusqlite::Connection,
}

impl QuickCreate {
    /// The dialog on `conn`.
    pub fn new(conn: rusqlite::Connection) -> (r: Self) {
        QuickCreate { conn }
    }

    /// The live preview of `text`: every non-blank line with its number,
    /// and its depth and title or its error, as JSON.
    pub fn parse(&self, text: &str, indent_tab: bool, date_format: i32) -> (r: String)
        ensures
            r@ == preview_json(text_lines(text@, indent_tab, date_format)),
    {
        let parsed = parse_quick_creation(text, indent_char(indent_tab), date_format);
        preview_of(&parsed)
    }

    /// Import a whole project: refuse a blank name, an empty text or a text
    /// with a line that does not parse (naming the first such line);
    /// otherwise create the project and its tasks in one transaction and
    /// reply with the new project's id and the task count.
    pub fn create(&self, project_name: &str, text: &str, indent_tab: bool, date_format: i32) -> (r: String)
        ensures
            match refusal(project_name@, text_lines(text@, indent_tab, date_format)) {
                Some(msg) => r@ == msg,
                None => (exists|pid: Seq<char>| r@ == #[trigger] done_json(pid, text_lines(text@, indent_tab, date_format).len()))
                    || exists|detail: Seq<char>| r@ == #[trigger] fail_json("Couldn't create the project: "@ + detail),
            },
    {
        self.create_handing(project_name, text, indent_tab, date_format).0
    }

    /// [`QuickCreate::create`], also giving back the tasks it handed to the
    /// import (none when it refused): exactly the parsed lines' tasks, in
    /// order.
    pub fn create_handing(&self, project_name: &str, text: &str, indent_tab: bool, date_format: i32) -> (r: (
        String,
        Option<Vec<QuickCreateTask>>,
    ))
        ensures
            match refusal(project_name@, text_lines(text@, indent_tab, date_format)) {
                Some(msg) => r.0@ == msg && r.1 is None,
                None => ((exists|pid: Seq<char>| r.0@ == #[trigger] done_json(pid, text_lines(text@, indent_tab, date_format).len()))
                    || exists|detail: Seq<char>| r.0@ == #[trigger] fail_json("Couldn't create the project: "@ + detail))
                    && (r.1 matches Some(ts) && ts.len() == text_lines(text@, indent_tab, date_format).len() && forall|k: int|
                        0 <= k < ts.len() ==> text_lines(text@, indent_tab, date_format)[k].result == Ok::<
                            (nat, crate::domain::TaskFields),
                            Seq<char>,
                        >(task_view(#[trigger] ts@[k]))),
            },
    {
        let (reply, handed, _outcome) = self.create_import(project_name, text, indent_tab, date_format);
        (reply, handed)
    }

    /// [`QuickCreate::create_handing`], also giving back what the import
    /// created. The reply names the project the import created and counts
    /// the tasks it created, and those are the tasks handed to it: every
    /// parsed line's task, in order.
    pub fn create_import(&self, project_name: &str, text: &str, indent_tab: bool, date_format: i32) -> (r: (
        String,
        Option<Vec<QuickCreateTask>>,
        Option<ImportOutcome>,
    ))
        ensures
            match refusal(project_name@, text_lines(text@, indent_tab, date_format)) {
                Some(msg) => r.0@ == msg && r.1 is None && r.2 is None,
                None => {
                    &&& r.1 matches Some(ts) && ts.len() == text_lines(text@, indent_tab, date_format).len() && forall|k: int|
                        0 <= k < ts.len() ==> text_lines(text@, indent_tab, date_format)[k].result == Ok::<
                            (nat, crate::domain::TaskFields),
                            Seq<char>,
                        >(task_view(#[trigger] ts@[k]))
                    &&& match r.2 {
                        Some(o) => {
                            &&& r.0@ == done_json(o.project_id@, o.task_count as nat)
                            &&& o.task_count == text_lines(text@, indent_tab, date_format).len()
                            &&& o.tasks.len() == o.task_count
                            &&& forall|k: int| 0 <= k < o.task_count ==> #[trigger] imported_as(r.1->0@, o.project_id, o.tasks@, k)
                            &&& stmts_view(o.created@) == seq![insert_project_stmt(o.project_id@, trim(project_name@))]
                        },
                        None => exists|detail: Seq<char>| r.0@ == #[trigger] fail_json("Couldn't create the project: "@ + detail),
                    }
                },
            },
    {
        let name = trim_str(project_name);
        if name.unicode_len() == 0 {
            return (fail("Project name is required"), None, None);
        }
        let parsed = parse_quick_creation(text, indent_char(indent_tab), date_format);
        if parsed.len() == 0 {
            return (fail("Nothing to create - the text area is empty"), None, None);
        }
        let ghost pv = parsed@;
        let tasks = match collect_tasks(parsed) {
            Ok(ts) => ts,
            Err((line_no, e)) => {
                let mut msg: Vec<char> = Vec::new();
                push_str(&mut msg, "Line ");
                push_dec(&mut msg, line_no as u64);
                push_str(&mut msg, ": ");
                push_str(&mut msg, e.as_str());
                return (fail(string_of(msg.as_slice()).as_str()), None, None);
            },
        };
        proof {
            assert forall|k: int| 0 <= k < tasks.len() implies text_lines(text@, indent_tab, date_format)[k].result
                == Ok::<(nat, crate::domain::TaskFields), Seq<char>>(task_view(#[trigger] tasks@[k])) by {
                assert(lines_view(pv)[k] == line_view(pv[k]));
            }
            crate::text::lemma_trim_idempotent(project_name@);
        }
        match import_quick_creation(&self.conn, name.as_str(), tasks.as_slice()) {
            Ok(outcome) => {
                let mut out: Vec<char> = Vec::new();
                push_str(&mut out, "{\"ok\":true,\"projectId\":");
                push_jstr(&mut out, outcome.project_id.as_str());
                push_str(&mut out, ",\"taskCount\":");
                push_dec(&mut out, outcome.task_count as u64);
                push_str(&mut out, "}");
                proof {
                    assert(out@ =~= done_json(outcome.project_id@, outcome.task_count as nat));
                }
                (string_of(out.as_slice()), Some(tasks), Some(outcome))
            },
            Err(e) => {
                let mut msg: Vec<char> = Vec::new();
                push_str(&mut msg, "Couldn't create the project: ");
                push_str(&mut msg, e.message().as_str());
                (fail(string_of(msg.as_slice()).as_str()), Some(tasks), None)
            },
        }
    }
}

/// Law: what a successful create hands to the import is a valid outline -
/// the first task is a root and each task is at most one level deeper than
/// the one before it - so every task finds its parent; and it reports one
/// task per non-blank line of the text.
pub proof fn lemma_create_hands_a_valid_outline(text: Seq<char>, indent_tab: bool, date_format: i32, ts: Seq<QuickCreateTask>)
    requires
        text.len() <= usize::MAX,
        ts.len() == text_lines(text, indent_tab, date_format).len(),
        forall|k: int|
            0 <= k < ts.len() ==> text_lines(text, indent_tab, date_format)[k].result == Ok::<
                (nat, crate::domain::TaskFields),
                Seq<char>,
            >(task_view(#[trigger] ts[k])),
    ensures
        ts.len() == crate::domain::nonblank_from(crate::text::lines_spec(text), 0),
        ts.len() > 0 ==> ts[0].depth == 0,
        forall|k: int| 0 < k < ts.len() ==> (#[trigger] ts[k]).depth <= ts[k - 1].depth + 1,
{
    let ic = if indent_tab { '\t' } else { ' ' };
    let r = text_lines(text, indent_tab, date_format);
    crate::domain::lemma_quick_creation_lines(text, ic, date_format);
    crate::domain::lemma_quick_creation_depths_valid(text, ic, date_format);
    assert(crate::domain::all_accepted(r)) by {
        assert forall|k: int| 0 <= k < r.len() implies (#[trigger] r[k]).result is Ok by {
            assert(r[k].result == Ok::<(nat, crate::domain::TaskFields), Seq<char>>(task_view(ts[k])));
        }
    }
    assert forall|k: int| 0 <= k < ts.len() implies crate::domain::line_depth(r[k]) == (#[trigger] ts[k]).depth by {
        assert(r[k].result == Ok::<(nat, crate::domain::TaskFields), Seq<char>>(task_view(ts[k])));
    }
    assert forall|k: int| 0 < k < ts.len() implies (#[trigger] ts[k]).depth <= ts[k - 1].depth + 1 by {
        assert(crate::domain::line_depth(r[k]) == ts[k].depth);
        assert(crate::domain::line_depth(r[k - 1]) == ts[k - 1].depth);
    }
    if ts.len() > 0 {
        assert(crate::domain::line_depth(r[0]) == ts[0].depth);
    }
}

} // verus!
