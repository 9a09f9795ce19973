//! Gregorian calendar dates, their linear day index, the following-day
//! step, and the `YYYY-MM-DD` text format used as the cache key.

use vstd::prelude::*;

use crate::text::{digit_value, is_digit, push_two_digits, spec_digit, string_push};

verus! {

/// A calendar date in the proleptic Gregorian calendar, between years 1
/// and 9999. It denotes a local calendar day; it carries no time zone.
#[derive(Clone, Copy, Debug, PartialEq, Eq, Structural)]
pub struct Date {
    pub year: u16,
    pub month: u8,
    pub day: u8,
}

/// A year divisible by four is a leap year, except century years not
/// divisible by four hundred.
pub open spec fn is_leap_year(y: int) -> bool {
    y % 4 == 0 && (y % 100 != 0 || y % 400 == 0)
}

/// Days in a month of a given year.
pub open spec fn spec_days_in_month(y: int, m: int) -> int {
    if m == 2 {
        if is_leap_year(y) {
            29
        } else {
            28
        }
    } else if m == 4 || m == 6 || m == 9 || m == 11 {
        30
    } else {
        31
    }
}

/// Days of the year strictly before the first of a given month.
pub open spec fn days_before_month(y: int, m: int) -> int {
    let base: int = if m == 1 {
        0
    } else if m == 2 {
        31
    } else if m == 3 {
        59
    } else if m == 4 {
        90
    } else if m == 5 {
        120
    } else if m == 6 {
        151
    } else if m == 7 {
        181
    } else if m == 8 {
        212
    } else if m == 9 {
        243
    } else if m == 10 {
        273
    } else if m == 11 {
        304
    } else {
        334
    };
    if m >= 3 && is_leap_year(y) {
        base + 1
    } else {
        base
    }
}

/// Leap years in `[1, y-1]`.
pub open spec fn leap_count_before(y: int) -> int {
    (y - 1) / 4 - (y - 1) / 100 + (y - 1) / 400
}

/// Days strictly before the first of January of a year, counted from
/// 0001-01-01.
pub open spec fn days_before_year(y: int) -> int {
    365 * (y - 1) + leap_count_before(y)
}

/// The linear index of a date: 0001-01-01 is day zero, and consecutive
/// calendar days have consecutive indices.
pub open spec fn spec_day_index(d: Date) -> int {
    days_before_year(d.year as int) + days_before_month(d.year as int, d.month as int)
        + d.day as int - 1
}

impl Date {
    pub open spec fn is_valid(&self) -> bool {
        &&& 1 <= self.year <= 9999
        &&& 1 <= self.month <= 12
        &&& 1 <= self.day <= spec_days_in_month(self.year as int, self.month as int)
    }

    /// Check calendar validity.
    pub fn valid(&self) -> (r: bool)
        ensures
            r == self.is_valid(),
    {
        1 <= self.year && self.year <= 9999 && 1 <= self.month && self.month <= 12 && 1 <= self.day
            && self.day <= days_in_month(self.year, self.month)
    }

    /// Construct a date after checking calendar validity.
    pub fn new(year: u16, month: u8, day: u8) -> (r: Option<Date>)
        ensures
            r == (if (Date { year, month, day }).is_valid() {
                Some(Date { year, month, day })
            } else {
                None::<Date>
            }),
    {
        let d = Date { year, month, day };
        if 1 <= year && year <= 9999 && 1 <= month && month <= 12 && 1 <= day && day
            <= days_in_month(year, month) {
            Some(d)
        } else {
            None
        }
    }
}

pub fn is_leap(y: u16) -> (r: bool)
    ensures
        r == is_leap_year(y as int),
{
    y % 4 == 0 && (y % 100 != 0 || y % 400 == 0)
}

pub fn days_in_month(y: u16, m: u8) -> (r: u8)
    ensures
        r == spec_days_in_month(y as int, m as int),
{
    if m == 2 {
        if is_leap(y) {
            29
        } else {
            28
        }
    } else if m == 4 || m == 6 || m == 9 || m == 11 {
        30
    } else {
        31
    }
}

/// The linear day index of a valid date, as an integer.
pub fn day_index(d: &Date) -> (r: i64)
    requires
        d.is_valid(),
    ensures
        r == spec_day_index(*d),
        0 <= r < 3652059,
{
    let y: i64 = d.year as i64;
    let leaps: i64 = (y - 1) / 4 - (y - 1) / 100 + (y - 1) / 400;
    let base: i64 = match d.month {
        1 => 0,
        2 => 31,
        3 => 59,
        4 => 90,
        5 => 120,
        6 => 151,
        7 => 181,
        8 => 212,
        9 => 243,
        10 => 273,
        11 => 304,
        _ => 334,
    };
    let before_month: i64 = if d.month >= 3 && is_leap(d.year) {
        base + 1
    } else {
        base
    };
    365 * (y - 1) + leaps + before_month + d.day as i64 - 1
}

/// The day index of a valid date lies between 0 and the index of
/// 9999-12-31.
pub proof fn lemma_day_index_bounds(d: Date)
    requires
        d.is_valid(),
    ensures
        0 <= spec_day_index(d) <= max_day_index(),
{
}

/// How the quotient by a positive constant moves when the argument steps
/// by one: it grows exactly on multiples.
proof fn lemma_div_step(y: int, k: int)
    requires
        k >= 2,
    ensures
        y / k - (y - 1) / k == if y % k == 0 {
            1int
        } else {
            0int
        },
{
    vstd::arithmetic::div_mod::lemma_fundamental_div_mod(y, k);
    vstd::arithmetic::div_mod::lemma_fundamental_div_mod(y - 1, k);
    vstd::arithmetic::div_mod::lemma_mod_bound(y, k);
    vstd::arithmetic::div_mod::lemma_mod_bound(y - 1, k);
    let a = y / k - (y - 1) / k;
    assert(k * a == 1 + (y - 1) % k - y % k) by (nonlinear_arith)
        requires
            y == k * (y / k) + y % k,
            y - 1 == k * ((y - 1) / k) + (y - 1) % k,
            a == y / k - (y - 1) / k,
    ;
    assert(a == if y % k == 0 {
        1int
    } else {
        0int
    }) by (nonlinear_arith)
        requires
            k >= 2,
            k * a == 1 + (y - 1) % k - y % k,
            0 <= y % k < k,
            0 <= (y - 1) % k < k,
    ;
}

/// Stepping a year forward adds one leap day exactly when the old year
/// is a leap year.
proof fn lemma_leap_count_step(y: int)
    requires
        1 <= y,
    ensures
        leap_count_before(y + 1) == leap_count_before(y) + if is_leap_year(y) {
            1int
        } else {
            0int
        },
{
    lemma_div_step(y, 4);
    lemma_div_step(y, 100);
    lemma_div_step(y, 400);
    if y % 400 == 0 {
        vstd::arithmetic::div_mod::lemma_mod_breakdown(y, 4, 100);
        assert(y % 4 == 0 && y % 100 == 0);
    } else if y % 100 == 0 {
        vstd::arithmetic::div_mod::lemma_mod_breakdown(y, 4, 25);
        assert(y % 4 == 0);
    }
}

/// The day index of the last representable date, 9999-12-31.
pub open spec fn max_day_index() -> int {
    3652058
}

/// The calendar day after a date, as a specification value.
pub open spec fn spec_next_date(d: Date) -> Date {
    if d.day < spec_days_in_month(d.year as int, d.month as int) {
        Date { year: d.year, month: d.month, day: (d.day + 1) as u8 }
    } else if d.month < 12 {
        Date { year: d.year, month: (d.month + 1) as u8, day: 1 }
    } else {
        Date { year: (d.year + 1) as u16, month: 1, day: 1 }
    }
}

/// Stepping to the next calendar day is valid below 9999-12-31 and
/// advances the day index by exactly one.
pub proof fn lemma_next_date(d: Date)
    requires
        d.is_valid(),
        spec_day_index(d) < max_day_index(),
    ensures
        spec_next_date(d).is_valid(),
        spec_day_index(spec_next_date(d)) == spec_day_index(d) + 1,
{
    if d.year == 9999 && d.month == 12 && d.day == 31 {
        assert(spec_day_index(d) == max_day_index());
    }
    if d.day < spec_days_in_month(d.year as int, d.month as int) {
    } else if d.month < 12 {
        assert(days_before_month(d.year as int, d.month as int + 1) == days_before_month(
            d.year as int,
            d.month as int,
        ) + spec_days_in_month(d.year as int, d.month as int));
    } else {
        lemma_leap_count_step(d.year as int);
        assert(days_before_year(d.year as int + 1) == days_before_year(d.year as int) + 365
            + if is_leap_year(d.year as int) {
            1int
        } else {
            0int
        });
        assert(days_before_month(d.year as int, 12) + 31 == 365 + if is_leap_year(d.year as int) {
            1int
        } else {
            0int
        });
    }
}

/// The calendar day after a valid date.
pub fn next_date(d: &Date) -> (r: Date)
    requires
        d.is_valid(),
        spec_day_index(*d) < max_day_index(),
    ensures
        r == spec_next_date(*d),
        r.is_valid(),
        spec_day_index(r) == spec_day_index(*d) + 1,
{
    proof {
        lemma_next_date(*d);
    }
    if d.day < days_in_month(d.year, d.month) {
        Date { year: d.year, month: d.month, day: d.day + 1 }
    } else if d.month < 12 {
        Date { year: d.year, month: d.month + 1, day: 1 }
    } else {
        Date { year: d.year + 1, month: 1, day: 1 }
    }
}

/// The `n`-th following calendar day.
pub open spec fn nth_next(d: Date, n: nat) -> Date
    decreases n,
{
    if n == 0 {
        d
    } else {
        nth_next(spec_next_date(d), (n - 1) as nat)
    }
}

/// Along the chain of following days, validity is kept and the day
/// index advances one step at a time.
pub proof fn lemma_nth_next(d: Date, n: nat)
    requires
        d.is_valid(),
        spec_day_index(d) + n <= max_day_index(),
    ensures
        nth_next(d, n).is_valid(),
        spec_day_index(nth_next(d, n)) == spec_day_index(d) + n,
    decreases n,
{
    if n > 0 {
        lemma_next_date(d);
        lemma_nth_next(spec_next_date(d), (n - 1) as nat);
    }
}

/// Chaining one more step at the far end.
pub proof fn lemma_nth_next_unfold(d: Date, n: nat)
    ensures
        nth_next(d, n + 1) == spec_next_date(nth_next(d, n)),
    decreases n,
{
    assert(nth_next(d, n + 1) == nth_next(spec_next_date(d), n));
    if n > 0 {
        lemma_nth_next_unfold(spec_next_date(d), (n - 1) as nat);
        assert(nth_next(d, n) == nth_next(spec_next_date(d), (n - 1) as nat));
    }
}

/// The run of `count` consecutive calendar days starting at `start`.
pub open spec fn spec_date_seq(start: Date, count: nat) -> Seq<Date>
    decreases count,
{
    if count == 0 {
        Seq::<Date>::empty()
    } else {
        seq![start] + spec_date_seq(spec_next_date(start), (count - 1) as nat)
    }
}

/// Extending the run by one day appends the next date at its end.
pub proof fn lemma_date_seq_push(start: Date, n: nat)
    ensures
        spec_date_seq(start, n + 1) =~= spec_date_seq(start, n).push(nth_next(start, n)),
    decreases n,
{
    if n == 0 {
        reveal_with_fuel(spec_date_seq, 2);
        assert(spec_date_seq(start, 1) =~= seq![start]);
    } else {
        lemma_date_seq_push(spec_next_date(start), (n - 1) as nat);
        assert(spec_date_seq(start, n + 1) =~= seq![start] + spec_date_seq(
            spec_next_date(start),
            n,
        ));
    }
}

/// The `YYYY-MM-DD` rendering of a date: four-digit year, two-digit
/// month and day, zero padded.
pub open spec fn spec_date_string(d: Date) -> Seq<char> {
    seq![
        spec_digit(d.year as int / 1000),
        spec_digit(d.year as int / 100 % 10),
        spec_digit(d.year as int / 10 % 10),
        spec_digit(d.year as int % 10),
        '-',
        spec_digit(d.month as int / 10),
        spec_digit(d.month as int % 10),
        '-',
        spec_digit(d.day as int / 10),
        spec_digit(d.day as int % 10),
    ]
}

/// Format a date as ISO `YYYY-MM-DD`.
pub fn format_date(d: &Date) -> (r: String)
    requires
        d.is_valid(),
    ensures
        r@ == spec_date_string(*d),
{
    let mut out = String::new();
    push_two_digits(&mut out, (d.year / 100) as u8);
    push_two_digits(&mut out, (d.year % 100) as u8);
    string_push(&mut out, '-');
    push_two_digits(&mut out, d.month);
    string_push(&mut out, '-');
    push_two_digits(&mut out, d.day);
    proof {
        assert(d.year as int / 100 / 10 == d.year as int / 1000);
        assert(d.year as int / 100 % 10 == d.year as int / 100 % 10);
        assert(d.year as int % 100 / 10 == d.year as int / 10 % 10) by (nonlinear_arith)
            requires
                0 <= d.year as int <= 9999,
        ;
        assert(d.year as int % 100 % 10 == d.year as int % 10) by (nonlinear_arith)
            requires
                0 <= d.year as int,
        ;
        assert(out@ =~= spec_date_string(*d));
    }
    out
}

/// Whether a character sequence is a well-formed `YYYY-MM-DD` date that
/// names a valid calendar day.
pub open spec fn is_date_string(s: Seq<char>) -> bool {
    &&& s.len() == 10
    &&& is_digit(s[0])
    &&& is_digit(s[1])
    &&& is_digit(s[2])
    &&& is_digit(s[3])
    &&& s[4] == '-'
    &&& is_digit(s[5])
    &&& is_digit(s[6])
    &&& s[7] == '-'
    &&& is_digit(s[8])
    &&& is_digit(s[9])
    &&& date_string_value(s).is_valid()
}

/// The date a well-formed `YYYY-MM-DD` string denotes.
pub open spec fn date_string_value(s: Seq<char>) -> Date {
    Date {
        year: (digit_value(s[0]) * 1000 + digit_value(s[1]) * 100 + digit_value(s[2]) * 10
            + digit_value(s[3])) as u16,
        month: (digit_value(s[5]) * 10 + digit_value(s[6])) as u8,
        day: (digit_value(s[8]) * 10 + digit_value(s[9])) as u8,
    }
}

/// Parse an ISO `YYYY-MM-DD` string naming a valid calendar day; anything
/// else is `None`.
pub fn parse_date(s: &str) -> (r: Option<Date>)
    ensures
        r == (if is_date_string(s@) {
            Some(date_string_value(s@))
        } else {
            None::<Date>
        }),
{
    let len = s.unicode_len();
    if len != 10 {
        return None;
    }
    let c0 = s.get_char(0);
    let c1 = s.get_char(1);
    let c2 = s.get_char(2);
    let c3 = s.get_char(3);
    let c4 = s.get_char(4);
    let c5 = s.get_char(5);
    let c6 = s.get_char(6);
    let c7 = s.get_char(7);
    let c8 = s.get_char(8);
    let c9 = s.get_char(9);
    if c4 != '-' || c7 != '-' {
        return None;
    }
    if !(c0 >= '0' && c0 <= '9' && c1 >= '0' && c1 <= '9' && c2 >= '0' && c2 <= '9' && c3 >= '0'
        && c3 <= '9' && c5 >= '0' && c5 <= '9' && c6 >= '0' && c6 <= '9' && c8 >= '0' && c8 <= '9'
        && c9 >= '0' && c9 <= '9') {
        return None;
    }
    let year: u32 = (c0 as u32 - '0' as u32) * 1000 + (c1 as u32 - '0' as u32) * 100 + (c2 as u32
        - '0' as u32) * 10 + (c3 as u32 - '0' as u32);
    let month: u32 = (c5 as u32 - '0' as u32) * 10 + (c6 as u32 - '0' as u32);
    let day: u32 = (c8 as u32 - '0' as u32) * 10 + (c9 as u32 - '0' as u32);
    let candidate = Date { year: year as u16, month: month as u8, day: day as u8 };
    proof {
        assert(candidate == date_string_value(s@));
    }
    if 1 <= year && 1 <= month && month <= 12 && 1 <= day && day as u8 <= days_in_month(
        year as u16,
        month as u8,
    ) {
        Some(candidate)
    } else {
        proof {
            assert(!date_string_value(s@).is_valid());
        }
        None
    }
}

/// Formatting then parsing a valid date restores it exactly.
pub proof fn lemma_date_string_round_trip(d: Date)
    requires
        d.is_valid(),
    ensures
        is_date_string(spec_date_string(d)),
        date_string_value(spec_date_string(d)) == d,
{
    let s = spec_date_string(d);
    crate::text::lemma_digit_value(d.year as int / 1000);
    crate::text::lemma_digit_value(d.year as int / 100 % 10);
    crate::text::lemma_digit_value(d.year as int / 10 % 10);
    crate::text::lemma_digit_value(d.year as int % 10);
    crate::text::lemma_digit_value(d.month as int / 10);
    crate::text::lemma_digit_value(d.month as int % 10);
    crate::text::lemma_digit_value(d.day as int / 10);
    crate::text::lemma_digit_value(d.day as int % 10);
    assert((d.year as int / 1000) * 1000 + (d.year as int / 100 % 10) * 100 + (d.year as int / 10
        % 10) * 10 + d.year as int % 10 == d.year as int) by (nonlinear_arith)
        requires
            0 <= d.year as int <= 9999,
    ;
    assert((d.month as int / 10) * 10 + d.month as int % 10 == d.month as int);
    assert((d.day as int / 10) * 10 + d.day as int % 10 == d.day as int);
    assert(date_string_value(s) == d);
}

} // verus!
