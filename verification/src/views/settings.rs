//! Application settings kept in the database's `meta` table.
use vstd::prelude::*;
use crate::db::{deadline_countdown, get_meta, set_meta, CountdownMode};
use crate::text::{chars_of, parse_i64, parse_i64_spec, push_dec_i64, string_of};

verus! {

/// The `meta` key the deadline-countdown mode is stored under.
pub const COUNTDOWN_KEY: &'static str = "deadline_countdown";

/// The countdown mode a setting number stands for: 1 optimal, 2 days,
/// 3 weeks, 4 months, 5 hours, anything else off.
pub fn mode_of(value: i32) -> (r: CountdownMode)
    ensures
        r == (if value == 1 {
            CountdownMode::Optimal
        } else if value == 2 {
            CountdownMode::Days
        } else if value == 3 {
            CountdownMode::Weeks
        } else if value == 4 {
            CountdownMode::Months
        } else if value == 5 {
            CountdownMode::Hours
        } else {
            CountdownMode::Off
        }),
{
    if value == 1 {
        CountdownMode::Optimal
    } else if value == 2 {
        CountdownMode::Days
    } else if value == 3 {
        CountdownMode::Weeks
    } else if value == 4 {
        CountdownMode::Months
    } else if value == 5 {
        CountdownMode::Hours
    } else {
        CountdownMode::Off
    }
}

/// A stored setting number: the text read as an `i32`, as `str::parse`
/// reads one.
pub open spec fn stored_number(s: Seq<char>) -> Option<i32> {
    match parse_i64_spec(s) {
        Some(x) => if i32::MIN <= x <= i32::MAX {
            Some(x as i32)
        } else {
            None
        },
        None => None,
    }
}

/// [`stored_number`].
pub fn parse_setting(s: &str) -> (r: Option<i32>)
    ensures
        r == stored_number(s@),
{
    let v = chars_of(s);
    match parse_i64(&v) {
        Some(x) => if -0x8000_0000 <= x && x <= 0x7fff_ffff {
            Some(x as i32)
        } else {
            None
        },
        None => None,
    }
}

/// `value` clamped to the countdown modes' numbers, 0..=5.
pub open spec fn clamp_mode(value: i32) -> i32 {
    if value < 0 {
        0
    } else if value > 5 {
        5
    } else {
        value
    }
}

/// The settings' state.
pub struct Settings {
    conn: rusqlite::Connection,
    deadline_countdown: i32,
}

impl Settings {
    /// The countdown mode number.
    pub closed spec fn countdown(&self) -> i32 {
        self.deadline_countdown
    }

    /// The settings on `conn`: the stored countdown mode, or 0 (off) when
    /// none is stored or it cannot be read.
    pub fn new(conn: rusqlite::Connection) -> (r: Self) {
        let stored = match get_meta(&conn, COUNTDOWN_KEY) {
            Ok(Some(s)) => match parse_setting(s.as_str()) {
                Some(v) => v,
                None => 0,
            },
            _ => 0,
        };
        Settings { conn, deadline_countdown: stored }
    }

    /// The countdown mode number.
    pub fn deadline_countdown(&self) -> (r: i32)
        ensures
            r == self.countdown(),
    {
        self.deadline_countdown
    }

    /// Set the countdown mode (clamped to 0..=5) and store it; a no-op when
    /// unchanged. A failed store keeps the new mode for this session.
    pub fn set_deadline_countdown(&mut self, value: i32)
        ensures
            final(self).countdown() == clamp_mode(value),
            old(self).countdown() == clamp_mode(value) ==> *final(self) == *old(self),
    {
        let v = if value < 0 {
            0
        } else if value > 5 {
            5
        } else {
            value
        };
        if self.deadline_countdown == v {
            return;
        }
        self.deadline_countdown = v;
        let mut text: Vec<char> = Vec::new();
        push_dec_i64(&mut text, v as i64);
        let _ = set_meta(&self.conn, COUNTDOWN_KEY, string_of(text.as_slice()).as_str());
    }

    /// The countdown wording for `iso_date` in the current mode (`""` when
    /// the computation fails).
    pub fn countdown_text(&self, iso_date: &str) -> (r: String) {
        match deadline_countdown(&self.conn, iso_date, mode_of(self.deadline_countdown)) {
            Ok(s) => s,
            Err(_) => String::new(),
        }
    }
}

} // verus!
