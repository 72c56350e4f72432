//! Display of stored timestamps as US Eastern wall-clock time.

use chrono::{Datelike, Timelike};
use vstd::prelude::*;

use crate::decimal::{decimal_chars, decimal_string};
use crate::text::{push_chars, string_of};

verus! {

/// A wall-clock date and time, field by field.
#[derive(Clone, Copy, Debug, PartialEq, Eq, Structural)]
pub struct LocalDateTime {
    pub year: i32,
    pub month: u32,
    pub day: u32,
    pub hour: u32,
    pub minute: u32,
    pub second: u32,
}

impl LocalDateTime {
    pub open spec fn wf(self) -> bool {
        &&& 1 <= self.month <= 12
        &&& 1 <= self.day <= 31
        &&& self.hour < 24
        &&& self.minute < 60
        &&& self.second < 60
    }
}

/// The US Eastern wall-clock time of an RFC 3339 timestamp, if it parses.
pub uninterp spec fn eastern_time_of(timestamp: Seq<char>) -> Option<LocalDateTime>;

/// Relies on chrono's `DateTime::parse_from_rfc3339` to parse the timestamp
/// and on chrono-tz's `US::Eastern` zone to convert it; the fields are
/// chrono's `Datelike` and `Timelike` readings, whose documented ranges
/// `wf` states.
#[verifier::external_body]
fn eastern_time(timestamp: &str) -> (r: Option<LocalDateTime>)
    ensures
        r == eastern_time_of(timestamp@),
        r matches Some(t) ==> t.wf(),
{
    match chrono::DateTime::parse_from_rfc3339(timestamp) {
        Ok(dt) => {
            let e = dt.with_timezone(&chrono_tz::US::Eastern);
            Some(LocalDateTime {
                year: e.year(),
                month: e.month(),
                day: e.day(),
                hour: e.hour(),
                minute: e.minute(),
                second: e.second(),
            })
        },
        Err(_) => None,
    }
}

/// `'0'` repeated `n` times.
pub open spec fn zeros(n: nat) -> Seq<char>
    decreases n,
{
    if n == 0 {
        Seq::empty()
    } else {
        zeros((n - 1) as nat).push('0')
    }
}

/// The base-10 text of `n`, padded with leading zeros to `width`.
pub open spec fn padded(n: nat, width: nat) -> Seq<char> {
    let d = decimal_string(n);
    if d.len() < width {
        zeros((width - d.len()) as nat) + d
    } else {
        d
    }
}

/// A year as `%Y` writes it: four digits for years 0 to 9999, otherwise
/// a sign followed by at least four digits.
pub open spec fn year_text(y: int) -> Seq<char> {
    if 0 <= y <= 9999 {
        padded(y as nat, 4)
    } else if y < 0 {
        seq!['-'] + padded((-y) as nat, 4)
    } else {
        seq!['+'] + padded(y as nat, 4)
    }
}

/// `YYYY-MM-DD HH:MM`.
pub open spec fn minute_text(t: LocalDateTime) -> Seq<char> {
    year_text(t.year as int) + seq!['-'] + padded(t.month as nat, 2) + seq!['-'] + padded(
        t.day as nat,
        2,
    ) + seq![' '] + padded(t.hour as nat, 2) + seq![':'] + padded(t.minute as nat, 2)
}

/// `YYYY-MM-DD HH:MM:SS`.
pub open spec fn second_text(t: LocalDateTime) -> Seq<char> {
    minute_text(t) + seq![':'] + padded(t.second as nat, 2)
}

/// What is shown for a stored timestamp: its Eastern time to the minute,
/// or the stored text itself when it is not an RFC 3339 timestamp.
pub open spec fn date_display(timestamp: Seq<char>) -> Seq<char> {
    match eastern_time_of(timestamp) {
        Some(t) => minute_text(t),
        None => timestamp,
    }
}

/// As [`date_display`], to the second.
pub open spec fn timestamp_display(timestamp: Seq<char>) -> Seq<char> {
    match eastern_time_of(timestamp) {
        Some(t) => second_text(t),
        None => timestamp,
    }
}

fn push_padded(out: &mut Vec<char>, n: u64, width: usize)
    ensures
        final(out)@ == old(out)@ + padded(n as nat, width as nat),
{
    let d = decimal_chars(n);
    if d.len() < width {
        let fill = width - d.len();
        let mut i: usize = 0;
        while i < fill
            invariant
                i <= fill,
                out@ == old(out)@ + zeros(i as nat),
            decreases fill - i,
        {
            out.push('0');
            i += 1;
        }
    }
    push_chars(out, &d);
    assert(final(out)@ =~= old(out)@ + padded(n as nat, width as nat));
}

fn push_year(out: &mut Vec<char>, y: i32)
    ensures
        final(out)@ == old(out)@ + year_text(y as int),
{
    if 0 <= y && y <= 9999 {
        push_padded(out, y as u64, 4);
    } else if y < 0 {
        out.push('-');
        push_padded(out, (-(y as i64)) as u64, 4);
    } else {
        out.push('+');
        push_padded(out, y as u64, 4);
    }
    assert(final(out)@ =~= old(out)@ + year_text(y as int));
}

impl LocalDateTime {
    fn push_minutes(&self, out: &mut Vec<char>)
        ensures
            final(out)@ == old(out)@ + minute_text(*self),
    {
        push_year(out, self.year);
        out.push('-');
        push_padded(out, self.month as u64, 2);
        out.push('-');
        push_padded(out, self.day as u64, 2);
        out.push(' ');
        push_padded(out, self.hour as u64, 2);
        out.push(':');
        push_padded(out, self.minute as u64, 2);
        assert(final(out)@ =~= old(out)@ + minute_text(*self));
    }

    /// This time as `YYYY-MM-DD HH:MM`.
    pub fn to_minute_text(&self) -> (r: String)
        ensures
            r@ == minute_text(*self),
    {
        let mut out: Vec<char> = Vec::new();
        self.push_minutes(&mut out);
        assert(out@ =~= minute_text(*self));
        string_of(&out)
    }

    /// This time as `YYYY-MM-DD HH:MM:SS`.
    pub fn to_second_text(&self) -> (r: String)
        ensures
            r@ == second_text(*self),
    {
        let mut out: Vec<char> = Vec::new();
        self.push_minutes(&mut out);
        out.push(':');
        push_padded(&mut out, self.second as u64, 2);
        assert(out@ =~= second_text(*self));
        string_of(&out)
    }
}

/// A stored RFC 3339 timestamp as Eastern time to the minute; any other
/// text is shown as it is.
pub fn format_date(timestamp: &str) -> (r: String)
    ensures
        r@ == date_display(timestamp@),
{
    match eastern_time(timestamp) {
        Some(t) => t.to_minute_text(),
        None => timestamp.to_owned(),
    }
}

/// A stored RFC 3339 timestamp as Eastern time to the second; any other
/// text is shown as it is.
pub fn format_timestamp(timestamp: &str) -> (r: String)
    ensures
        r@ == timestamp_display(timestamp@),
{
    match eastern_time(timestamp) {
        Some(t) => t.to_second_text(),
        None => timestamp.to_owned(),
    }
}

} // verus!
