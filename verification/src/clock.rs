//! Wall-clock time-of-day values, the `HH:MM` text format that cached
//! entries are stored in, and the projection of a UTC instant into local
//! time under a fixed offset.

use vstd::prelude::*;

use crate::text::{
    digit_value, is_digit, push_two_digits, spec_two_digits, string_push,
};

verus! {

/// A local wall-clock time of day with minute granularity.
#[derive(Clone, Copy, Debug, PartialEq, Eq, Structural)]
pub struct TimeOfDay {
    pub minute_of_day: u16,
}

impl TimeOfDay {
    /// Minutes since local midnight stay below one day.
    pub open spec fn is_valid(&self) -> bool {
        self.minute_of_day < 1440
    }

    pub open spec fn spec_hour(&self) -> int {
        self.minute_of_day as int / 60
    }

    pub open spec fn spec_minute(&self) -> int {
        self.minute_of_day as int % 60
    }

    pub fn hour(&self) -> (h: u16)
        ensures
            h == self.spec_hour(),
    {
        self.minute_of_day / 60
    }

    pub fn minute(&self) -> (m: u16)
        ensures
            m == self.spec_minute(),
    {
        self.minute_of_day % 60
    }
}

/// A time of day with second granularity, for "now" instants.
#[derive(Clone, Copy, Debug, PartialEq, Eq, Structural)]
pub struct ClockTime {
    pub second_of_day: u32,
}

impl ClockTime {
    /// Seconds since local midnight stay below one day.
    pub open spec fn is_valid(&self) -> bool {
        self.second_of_day < 86400
    }

    pub fn from_hms(hour: u32, minute: u32, second: u32) -> (r: ClockTime)
        requires
            hour < 24,
            minute < 60,
            second < 60,
        ensures
            r.second_of_day == hour * 3600 + minute * 60 + second,
            r.is_valid(),
    {
        ClockTime { second_of_day: hour * 3600 + minute * 60 + second }
    }
}

/// The `HH:MM` rendering of a time of day.
pub open spec fn spec_hhmm(t: TimeOfDay) -> Seq<char> {
    spec_two_digits(t.spec_hour()) + seq![':'] + spec_two_digits(t.spec_minute())
}

/// Whether a character sequence is a well-formed zero-padded `HH:MM`
/// 24-hour time.
pub open spec fn is_hhmm(s: Seq<char>) -> bool {
    &&& s.len() == 5
    &&& is_digit(s[0])
    &&& is_digit(s[1])
    &&& s[2] == ':'
    &&& is_digit(s[3])
    &&& is_digit(s[4])
    &&& digit_value(s[0]) * 10 + digit_value(s[1]) < 24
    &&& digit_value(s[3]) * 10 + digit_value(s[4]) < 60
}

/// The minute of day a well-formed `HH:MM` string denotes.
pub open spec fn hhmm_minutes(s: Seq<char>) -> int {
    (digit_value(s[0]) * 10 + digit_value(s[1])) * 60 + digit_value(s[3]) * 10 + digit_value(s[4])
}

/// Format a time of day as zero-padded 24-hour `HH:MM`.
pub fn format_time(t: &TimeOfDay) -> (r: String)
    requires
        t.is_valid(),
    ensures
        r@ == spec_hhmm(*t),
{
    let mut out = String::new();
    push_two_digits(&mut out, (t.minute_of_day / 60) as u8);
    string_push(&mut out, ':');
    push_two_digits(&mut out, (t.minute_of_day % 60) as u8);
    proof {
        assert(out@ =~= spec_hhmm(*t));
    }
    out
}

/// Parse a zero-padded 24-hour `HH:MM` string; anything else is `None`.
pub fn parse_time(s: &str) -> (r: Option<TimeOfDay>)
    ensures
        r == (if is_hhmm(s@) {
            Some(TimeOfDay { minute_of_day: hhmm_minutes(s@) as u16 })
        } else {
            None::<TimeOfDay>
        }),
{
    let len = s.unicode_len();
    if len != 5 {
        return None;
    }
    let c0 = s.get_char(0);
    let c1 = s.get_char(1);
    let c2 = s.get_char(2);
    let c3 = s.get_char(3);
    let c4 = s.get_char(4);
    if c2 != ':' {
        return None;
    }
    if !(c0 >= '0' && c0 <= '9' && c1 >= '0' && c1 <= '9' && c3 >= '0' && c3 <= '9' && c4 >= '0'
        && c4 <= '9') {
        return None;
    }
    let h: u32 = (c0 as u32 - '0' as u32) * 10 + (c1 as u32 - '0' as u32);
    let m: u32 = (c3 as u32 - '0' as u32) * 10 + (c4 as u32 - '0' as u32);
    if h < 24 && m < 60 {
        Some(TimeOfDay { minute_of_day: (h * 60 + m) as u16 })
    } else {
        None
    }
}

/// Formatting then parsing a valid time of day restores it exactly.
pub proof fn lemma_hhmm_round_trip(t: TimeOfDay)
    requires
        t.is_valid(),
    ensures
        is_hhmm(spec_hhmm(t)),
        hhmm_minutes(spec_hhmm(t)) == t.minute_of_day,
{
    let s = spec_hhmm(t);
    let h = t.spec_hour();
    let m = t.spec_minute();
    crate::text::lemma_digit_value(h / 10);
    crate::text::lemma_digit_value(h % 10);
    crate::text::lemma_digit_value(m / 10);
    crate::text::lemma_digit_value(m % 10);
    assert(s[0] == crate::text::spec_digit(h / 10));
    assert(s[1] == crate::text::spec_digit(h % 10));
    assert(s[3] == crate::text::spec_digit(m / 10));
    assert(s[4] == crate::text::spec_digit(m % 10));
    assert(digit_value(s[0]) * 10 + digit_value(s[1]) == h);
    assert(digit_value(s[3]) * 10 + digit_value(s[4]) == m);
    assert(h * 60 + m == t.minute_of_day);
}

/// Project a UTC minute of day into local wall-clock time under a fixed
/// offset, wrapping across midnight. Pure arithmetic; never fails for
/// offsets within one day.
pub fn project(utc_minute_of_day: u16, utc_offset_minutes: i32) -> (r: TimeOfDay)
    requires
        utc_minute_of_day < 1440,
        -1440 <= utc_offset_minutes <= 1440,
    ensures
        r.minute_of_day == (utc_minute_of_day + utc_offset_minutes) % 1440,
        r.is_valid(),
{
    let mut t: i32 = utc_minute_of_day as i32 + utc_offset_minutes;
    if t < 0 {
        t = t + 1440;
    } else if t >= 1440 {
        t = t - 1440;
    }
    proof {
        let v = utc_minute_of_day + utc_offset_minutes;
        assert(t == v || t == v + 1440 || t == v - 1440);
        assert(0 <= t < 1440);
        assert(t % 1440 == v % 1440) by (nonlinear_arith)
            requires
                t == v || t == v + 1440 || t == v - 1440,
        ;
        assert(t % 1440 == t);
    }
    TimeOfDay { minute_of_day: t as u16 }
}

} // verus!
