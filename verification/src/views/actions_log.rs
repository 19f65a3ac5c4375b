//! The "Recent actions" page: the revert log, newest first, with reset of
//! one action or of everything from one action on.
use vstd::prelude::*;
use crate::db::actions::{list_actions, revert_action, revert_from, ActionRow};
use crate::format::{serde_str_spec, push_serde_str};
use crate::journal::{jarray, join_commas};
use crate::text::{chars_of, dec_int, push_dec_i64, push_str, string_of};

verus! {

/// One log row as JSON: `{id, summary, createdAt}`.
pub open spec fn action_json(a: ActionRow) -> Seq<char> {
    "{\"id\":"@ + dec_int(a.id as int) + ",\"summary\":"@ + serde_str_spec(a.summary@) + ",\"createdAt\":"@
        + serde_str_spec(a.created_at@) + "}"@
}

fn push_jstr(out: &mut Vec<char>, s: &str)
    ensures
        final(out)@ == old(out)@ + serde_str_spec(s@),
{
    let v = chars_of(s);
    push_serde_str(out, v.as_slice());
}

fn push_action_json(out: &mut Vec<char>, a: &ActionRow)
    ensures
        final(out)@ == old(out)@ + action_json(*a),
{
    let ghost start = out@;
    push_str(out, "{\"id\":");
    push_dec_i64(out, a.id);
    push_str(out, ",\"summary\":");
    push_jstr(out, a.summary.as_str());
    push_str(out, ",\"createdAt\":");
    push_jstr(out, a.created_at.as_str());
    push_str(out, "}");
    proof {
        assert(out@ =~= start + action_json(*a));
    }
}

/// The rows as a JSON array, in order.
pub fn actions_json_of(items: &Vec<ActionRow>) -> (r: String)
    ensures
        r@ == jarray(Seq::new(items.len() as nat, |i: int| action_json(items@[i]))),
{
    let ghost all = Seq::new(items.len() as nat, |i: int| action_json(items@[i]));
    let mut out: Vec<char> = Vec::new();
    out.push('[');
    let mut k: usize = 0;
    while k < items.len()
        invariant
            k <= items.len(),
            all == Seq::new(items.len() as nat, |i: int| action_json(items@[i])),
            out@ == seq!['['] + join_commas(all.take(k as int)),
        decreases items.len() - k,
    {
        if k > 0 {
            out.push(',');
        }
        push_action_json(&mut out, &items[k]);
        proof {
            assert(all.take(k + 1).drop_last() =~= all.take(k as int));
            if k == 0 {
                assert(all.take(1) =~= seq![all[0]]);
            }
            assert(out@ =~= seq!['['] + join_commas(all.take(k + 1)));
        }
        k += 1;
    }
    out.push(']');
    proof {
        assert(all.take(k as int) =~= all);
        assert(out@ =~= jarray(all));
    }
    string_of(out.as_slice())
}

/// The log page's state.
pub struct ActionsLog {
    conn: rusqlite::Connection,
    items: Vec<ActionRow>,
    revision: i32,
}

impl ActionsLog {
    /// The rows on show.
    pub closed spec fn entries(&self) -> Seq<ActionRow> {
        self.items@
    }

    /// The reload counter.
    pub closed spec fn version(&self) -> i32 {
        self.revision
    }

    /// The log on `conn` (empty when the read fails).
    pub fn new(conn: rusqlite::Connection) -> (r: Self)
        ensures
            r.version() == 0,
    {
        let items = match list_actions(&conn) {
            Ok(v) => v,
            Err(_) => Vec::new(),
        };
        ActionsLog { conn, items, revision: 0 }
    }

    /// Re-read the log and bump the counter; a failed read changes nothing.
    pub fn reload(&mut self)
        ensures
            *final(self) == *old(self) || final(self).version() == old(self).version().wrapping_add(1),
    {
        match list_actions(&self.conn) {
            Ok(items) => {
                self.items = items;
                self.revision = self.revision.wrapping_add(1);
            },
            Err(_) => {},
        }
    }

    /// The rows as JSON (see [`actions_json_of`]).
    pub fn items_json(&self) -> (r: String)
        ensures
            r@ == jarray(Seq::new(self.entries().len(), |i: int| action_json(self.entries()[i]))),
    {
        actions_json_of(&self.items)
    }

    /// Undo action `id` and drop it from the log; a no-op when the revert
    /// fails.
    pub fn reset(&mut self, id: i64) {
        if revert_action(&self.conn, id).is_err() {
            return;
        }
        self.reload();
    }

    /// Undo action `id` and every newer one, newest first; a no-op when the
    /// revert fails.
    pub fn reset_from(&mut self, id: i64) {
        if revert_from(&self.conn, id).is_err() {
            return;
        }
        self.reload();
    }

    /// The reload counter.
    pub fn revision(&self) -> (r: i32)
        ensures
            r == self.version(),
    {
        self.revision
    }
}

} // verus!
