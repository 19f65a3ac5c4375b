//! The calendar / agenda page: every open task with a deadline.
use vstd::prelude::*;
use crate::db::actions::log_set_status;
use crate::db::{deadline_items, get_task, set_task_status, DeadlineItem};
use crate::domain::TaskStatus;
use crate::format::{json_str_spec, push_json_str};
use crate::journal::{jarray, join_commas};
use crate::text::{chars_of, push_str, string_of};

verus! {

/// One deadline item as a JSON object.
pub open spec fn item_json(it: DeadlineItem) -> Seq<char> {
    "{\"id\":"@ + json_str_spec(it.id@) + ",\"title\":"@ + json_str_spec(it.title@) + ",\"date\":"@
        + json_str_spec(it.deadline@) + ",\"overdue\":"@ + (if it.overdue { "true"@ } else { "false"@ })
        + ",\"project\":"@ + json_str_spec(it.project@) + "}"@
}

fn push_jstr(out: &mut Vec<char>, s: &str)
    ensures
        final(out)@ == old(out)@ + json_str_spec(s@),
{
    let v = chars_of(s);
    push_json_str(out, v.as_slice());
}

fn push_item_json(out: &mut Vec<char>, it: &DeadlineItem)
    ensures
        final(out)@ == old(out)@ + item_json(*it),
{
    let ghost start = out@;
    push_str(out, "{\"id\":");
    push_jstr(out, it.id.as_str());
    push_str(out, ",\"title\":");
    push_jstr(out, it.title.as_str());
    push_str(out, ",\"date\":");
    push_jstr(out, it.deadline.as_str());
    push_str(out, ",\"overdue\":");
    push_str(out, if it.overdue { "true" } else { "false" });
    push_str(out, ",\"project\":");
    push_jstr(out, it.project.as_str());
    push_str(out, "}");
    proof {
        assert(out@ =~= start + item_json(*it));
    }
}

/// The items as a JSON array of `{id, title, date, overdue, project}`
/// objects, in order.
pub fn items_json_of(items: &Vec<DeadlineItem>) -> (r: String)
    ensures
        r@ == jarray(Seq::new(items.len() as nat, |i: int| item_json(items@[i]))),
{
    let ghost all = Seq::new(items.len() as nat, |i: int| item_json(items@[i]));
    let mut out: Vec<char> = Vec::new();
    out.push('[');
    let mut k: usize = 0;
    while k < items.len()
        invariant
            k <= items.len(),
            all == Seq::new(items.len() as nat, |i: int| item_json(items@[i])),
            out@ == seq!['['] + join_commas(all.take(k as int)),
        decreases items.len() - k,
    {
        if k > 0 {
            out.push(',');
        }
        push_item_json(&mut out, &items[k]);
        proof {
            assert(all.take(k + 1).drop_last() =~= all.take(k as int));
            if k == 0 {
                assert(all.take(1) =~= seq![all[0]]);
            }
            assert(out@ =~= seq!['['] + join_commas(all.take(k + 1)));
        }
        k += 1;
    }
    out.push(']');
    proof {
        assert(all.take(k as int) =~= all);
        assert(out@ =~= jarray(all));
    }
    string_of(out.as_slice())
}

/// The calendar's state.
pub struct Calendar {
    conn: rusqlite::Connection,
    items: Vec<DeadlineItem>,
    revision: i32,
}

impl Calendar {
    /// The items on show.
    pub closed spec fn entries(&self) -> Seq<DeadlineItem> {
        self.items@
    }

    /// The reload counter.
    pub closed spec fn version(&self) -> i32 {
        self.revision
    }

    /// The calendar on `conn` (no items when the read fails).
    pub fn new(conn: rusqlite::Connection) -> (r: Self)
        ensures
            r.version() == 0,
    {
        let items = match deadline_items(&conn) {
            Ok(v) => v,
            Err(_) => Vec::new(),
        };
        Calendar { conn, items, revision: 0 }
    }

    /// Re-read the items and bump the counter; a failed read changes
    /// nothing.
    pub fn reload(&mut self)
        ensures
            final(self).version() == old(self).version() || final(self).version() == old(self).version().wrapping_add(1),
    {
        match deadline_items(&self.conn) {
            Ok(items) => {
                self.items = items;
                self.revision = self.revision.wrapping_add(1);
            },
            Err(_) => {},
        }
    }

    /// Mark the task `id` done or not done from the calendar, logging the
    /// old status; a no-op when the update fails.
    pub fn set_done(&mut self, id: &str, done: bool) {
        let status = if done { TaskStatus::Done } else { TaskStatus::Todo };
        let before = match get_task(&self.conn, id) {
            Ok(t) => t,
            Err(_) => None,
        };
        if set_task_status(&self.conn, id, status).is_err() {
            return;
        }
        match before {
            Some(t) => {
                let _ = log_set_status(&self.conn, id, t.title.as_str(), t.status, done);
            },
            None => {},
        }
        self.reload();
    }

    /// The items on show as JSON (see [`items_json_of`]).
    pub fn items_json(&self) -> (r: String)
        ensures
            r@ == jarray(Seq::new(self.entries().len(), |i: int| item_json(self.entries()[i]))),
    {
        items_json_of(&self.items)
    }

    /// The reload counter.
    pub fn revision(&self) -> (r: i32)
        ensures
            r == self.version(),
    {
        self.revision
    }
}

} // verus!
