//! The timer bar: one running or paused session on one task, kept in step
//! with the database's open time entry.
//!
//! Pausing closes the open entry and banks its seconds; resuming opens a new
//! entry on the same task. A session a crash left running comes back as a
//! paused session on that task.
use vstd::prelude::*;
use crate::db::{entry_duration_seconds, recover_orphan_timer, running_timer, start_timer, stop_timer, timer_heartbeat};

verus! {

/// `x` as an `i32`, or `i32::MAX` when it does not fit.
pub open spec fn to_i32_or_max(x: i64) -> i32 {
    if i32::MIN <= x <= i32::MAX {
        x as i32
    } else {
        i32::MAX
    }
}

fn fit_i32(x: i64) -> (r: i32)
    ensures
        r == to_i32_or_max(x),
{
    if -0x8000_0000 <= x && x <= 0x7fff_ffff {
        x as i32
    } else {
        0x7fff_ffff
    }
}

/// `acc + s`, held to the range of an `i64`.
pub open spec fn sat_add(acc: i64, s: i64) -> i64 {
    if acc + s > i64::MAX {
        i64::MAX
    } else if acc + s < i64::MIN {
        i64::MIN
    } else {
        (acc + s) as i64
    }
}

/// The timer's state.
pub struct TimerController {
    conn: rusqlite::Connection,
    running_task_id: String,
    running_task_title: String,
    /// Start of the open entry; empty while paused or idle.
    running_since: String,
    paused: bool,
    /// Seconds banked before the current segment, for display.
    base_seconds: i32,
    /// The session came back from a crash.
    recovered: bool,
    /// Worked seconds from completed segments of the current session.
    accumulated: i64,
    /// Seconds of the segment the last pause closed (0 when it closed none).
    segment: Ghost<i64>,
}

impl TimerController {
    /// Whether the session is paused.
    pub closed spec fn is_paused(&self) -> bool {
        self.paused
    }

    /// The session's task.
    pub closed spec fn task(&self) -> Seq<char> {
        self.running_task_id@
    }

    /// The session's task title.
    pub closed spec fn title(&self) -> Seq<char> {
        self.running_task_title@
    }

    /// When the open segment started (empty when none is open).
    pub closed spec fn since(&self) -> Seq<char> {
        self.running_since@
    }

    /// Seconds banked from completed segments.
    pub closed spec fn banked(&self) -> i64 {
        self.accumulated
    }

    /// Seconds of the segment the last pause closed, as the database
    /// measured the closed entry (0 when it closed none).
    pub closed spec fn last_segment(&self) -> i64 {
        self.segment@
    }

    /// The displayed banked seconds.
    pub closed spec fn base(&self) -> i32 {
        self.base_seconds
    }

    /// Whether the session came back from a crash.
    pub closed spec fn is_recovered(&self) -> bool {
        self.recovered
    }

    /// The timer on `conn`: a session a crash left open is closed off at its
    /// last heartbeat and comes back paused on its task; otherwise the
    /// state mirrors the database's open entry.
    pub fn new(conn: rusqlite::Connection) -> (r: Self)
        ensures
            r.is_recovered() ==> r.is_paused() && r.since().len() == 0 && r.base() == to_i32_or_max(r.banked()),
            !r.is_recovered() ==> !r.is_paused() && r.banked() == 0 && r.base() == 0,
    {
        let rec = match recover_orphan_timer(&conn) {
            Ok(r) => r,
            Err(_) => None,
        };
        let mut t = TimerController {
            conn,
            running_task_id: String::new(),
            running_task_title: String::new(),
            running_since: String::new(),
            paused: false,
            base_seconds: 0,
            recovered: false,
            accumulated: 0,
            segment: Ghost(0),
        };
        match rec {
            Some(rec) => {
                t.accumulated = rec.seconds;
                t.base_seconds = fit_i32(rec.seconds);
                t.running_task_id = rec.task_id;
                t.running_task_title = rec.task_title;
                t.running_since = String::new();
                t.paused = true;
                t.recovered = true;
            },
            None => t.refresh(),
        }
        t
    }

    /// Mirror the database's open entry into the running fields and clear
    /// the paused flag; banked time is kept, unless there is no open entry,
    /// which ends the session.
    pub fn refresh(&mut self)
        ensures
            !final(self).is_paused(),
            final(self).is_recovered() == old(self).is_recovered(),
            final(self).task().len() == 0 ==> final(self).banked() == 0 && final(self).base() == 0,
            final(self).task().len() != 0 ==> final(self).banked() == old(self).banked() && final(self).base() == old(self).base(),
    {
        let (id, title, since) = match running_timer(&self.conn) {
            Ok(Some(running)) => (running.task_id, running.task_title, running.start_ts),
            _ => (String::new(), String::new(), String::new()),
        };
        let had_entry = id.unicode_len() > 0;
        self.running_task_id = id;
        self.running_task_title = title;
        self.running_since = since;
        self.paused = false;
        if !had_entry {
            self.accumulated = 0;
            self.base_seconds = 0;
        }
    }

    /// Start a new session on `task_id` (stopping any open entry), dropping
    /// banked time; a no-op for an empty id, and only the session reset when
    /// the start fails.
    pub fn start(&mut self, task_id: &str)
        ensures
            task_id@.len() == 0 ==> *final(self) == *old(self),
            task_id@.len() != 0 ==> final(self).banked() == 0 && final(self).base() == 0 && !final(self).is_recovered(),
    {
        if task_id.unicode_len() == 0 {
            return;
        }
        self.accumulated = 0;
        self.base_seconds = 0;
        self.recovered = false;
        if start_timer(&self.conn, task_id).is_err() {
            return;
        }
        let _ = timer_heartbeat(&self.conn);
        self.refresh();
    }

    /// Pause the running session: close the open entry and bank its
    /// seconds on top of what the session banked before. A no-op when
    /// nothing is running or the stop fails.
    pub fn pause(&mut self)
        ensures
            old(self).since().len() == 0 ==> *final(self) == *old(self),
            final(self).is_recovered() == old(self).is_recovered(),
            final(self).task() == old(self).task(),
            *final(self) == *old(self) || (final(self).is_paused() && final(self).since().len() == 0),
            *final(self) == *old(self) || (final(self).banked() == sat_add(old(self).banked(), final(self).last_segment())
                && final(self).base() == to_i32_or_max(final(self).banked())),
    {
        if self.running_since.unicode_len() == 0 {
            return;
        }
        let secs: i64 = match stop_timer(&self.conn) {
            Ok(Some(entry)) => match entry_duration_seconds(&self.conn, entry.id.as_str()) {
                Ok(s) => s,
                Err(_) => 0,
            },
            Ok(None) => 0,
            Err(_) => return,
        };
        let acc = self.accumulated;
        let total: i64 = if secs > 0 && acc > 0x7fff_ffff_ffff_ffff - secs {
            0x7fff_ffff_ffff_ffff
        } else if secs < 0 && acc < -0x8000_0000_0000_0000 - secs {
            -0x8000_0000_0000_0000
        } else {
            acc + secs
        };
        proof {
            self.segment@ = secs;
        }
        self.accumulated = total;
        self.base_seconds = fit_i32(total);
        self.running_since = String::new();
        self.paused = true;
    }

    /// Resume a paused session on its task; a no-op when not paused,
    /// without a task, or when the start fails.
    pub fn resume(&mut self)
        ensures
            (!old(self).is_paused() || old(self).task().len() == 0) ==> *final(self) == *old(self),
            final(self).task().len() != 0 ==> final(self).banked() == old(self).banked() && final(self).base() == old(self).base(),
    {
        if !self.paused {
            return;
        }
        if self.running_task_id.unicode_len() == 0 {
            return;
        }
        if start_timer(&self.conn, self.running_task_id.as_str()).is_err() {
            return;
        }
        let _ = timer_heartbeat(&self.conn);
        self.recovered = false;
        self.refresh();
    }

    /// End the session: close any open entry and drop banked time; a no-op
    /// when the stop fails.
    pub fn stop(&mut self)
        ensures
            *final(self) == *old(self) || (final(self).banked() == 0 && final(self).base() == 0
                && !final(self).is_recovered() && !final(self).is_paused()),
    {
        if stop_timer(&self.conn).is_err() {
            return;
        }
        self.accumulated = 0;
        self.base_seconds = 0;
        self.recovered = false;
        self.refresh();
    }

    /// Stamp the open entry as alive now (failures are ignored).
    pub fn heartbeat(&self) {
        let _ = timer_heartbeat(&self.conn);
    }

    /// The session's task id (`""` when idle).
    pub fn running_task_id(&self) -> (r: &str)
        ensures
            r@ == self.task(),
    {
        self.running_task_id.as_str()
    }

    /// The session's task title.
    pub fn running_task_title(&self) -> (r: &str)
        ensures
            r@ == self.title(),
    {
        self.running_task_title.as_str()
    }

    /// When the open segment started (`""` when paused or idle).
    pub fn running_since(&self) -> (r: &str)
        ensures
            r@ == self.since(),
    {
        self.running_since.as_str()
    }

    /// Whether the session is paused.
    pub fn paused(&self) -> (r: bool)
        ensures
            r == self.is_paused(),
    {
        self.paused
    }

    /// Seconds banked before the current segment.
    pub fn base_seconds(&self) -> (r: i32)
        ensures
            r == self.base(),
    {
        self.base_seconds
    }

    /// Whether the session came back from a crash.
    pub fn recovered(&self) -> (r: bool)
        ensures
            r == self.is_recovered(),
    {
        self.recovered
    }
}

/// Law: a session's banked time is the sum of the segments its pauses
/// closed. Pausing twice (with the resume between them keeping what was
/// banked) banks both segments on top of what was banked before, as long as
/// the sum fits.
pub proof fn lemma_pauses_add_up(m0: TimerController, m1: TimerController, m2: TimerController, m3: TimerController)
    requires
        m1.banked() == sat_add(m0.banked(), m1.last_segment()),
        m2.banked() == m1.banked(),
        m3.banked() == sat_add(m2.banked(), m3.last_segment()),
        0 <= m0.banked(),
        0 <= m1.last_segment(),
        0 <= m3.last_segment(),
        m0.banked() + m1.last_segment() + m3.last_segment() <= i64::MAX,
    ensures
        m3.banked() == m0.banked() + m1.last_segment() + m3.last_segment(),
        m3.banked() >= m3.last_segment(),
        m0.banked() > 0 ==> m3.banked() > m3.last_segment(),
{
}

} // verus!
