//! Hijri calendar display: conversion of a Gregorian date through the
//! Umm al-Qura tables of an outside crate, and the formatted date line.

use vstd::prelude::*;

use crate::date::Date;
use crate::error::EngineError;
use crate::text::{push_decimal, spec_decimal, string_push};

verus! {

/// What the Umm al-Qura conversion yields for a Gregorian date: the
/// Hijri day, month and year (in that order), a function of the date
/// alone.
pub uninterp spec fn hijri_parts(y: int, m: int, d: int) -> Seq<int>;

/// Relies on `hijri_date::HijriDate::from_gr` and its `day`, `month`,
/// `year` and `day_name_en` accessors: converts a valid Gregorian date
/// to the Umm al-Qura Hijri calendar. The crate handles Gregorian years
/// 1938 through 2076; on a real calendar day within 1939..=2075 the
/// conversion succeeds, and the month it yields is always between 1
/// and 12.
#[verifier::external_body]
fn hijri_from_gregorian(y: u16, m: u8, d: u8) -> (r: Result<
    (usize, usize, usize, String),
    EngineError,
>)
    requires
        1939 <= y <= 2075,
        (Date { year: y, month: m, day: d }).is_valid(),
    ensures
        r is Ok,
        r.unwrap().0 == hijri_parts(y as int, m as int, d as int)[0],
        r.unwrap().1 == hijri_parts(y as int, m as int, d as int)[1],
        1 <= r.unwrap().1 <= 12,
        r.unwrap().2 == hijri_parts(y as int, m as int, d as int)[2],
{
    match hijri_date::HijriDate::from_gr(y as usize, m as usize, d as usize) {
        Ok(h) => Ok((h.day(), h.month(), h.year(), h.day_name_en())),
        Err(_) => Err(EngineError::CalculationError),
    }
}

/// The English name of a Hijri month; out-of-range numbers read
/// `Unknown`.
pub open spec fn spec_hijri_month_name(m: int) -> Seq<char> {
    if m == 1 {
        "Muharram"@
    } else if m == 2 {
        "Safar"@
    } else if m == 3 {
        "Rabi' al-Awwal"@
    } else if m == 4 {
        "Rabi' al-Thani"@
    } else if m == 5 {
        "Jumada al-Awwal"@
    } else if m == 6 {
        "Jumada al-Thani"@
    } else if m == 7 {
        "Rajab"@
    } else if m == 8 {
        "Sha'ban"@
    } else if m == 9 {
        "Ramadan"@
    } else if m == 10 {
        "Shawwal"@
    } else if m == 11 {
        "Dhu al-Qi'dah"@
    } else if m == 12 {
        "Dhu al-Hijjah"@
    } else {
        "Unknown"@
    }
}

/// Islamic month names in English, indexed 1 (Muharram) through 12
/// (Dhu al-Hijjah).
pub fn hijri_month_name(month: usize) -> (r: &'static str)
    ensures
        r@ == spec_hijri_month_name(month as int),
{
    match month {
        1 => "Muharram",
        2 => "Safar",
        3 => "Rabi' al-Awwal",
        4 => "Rabi' al-Thani",
        5 => "Jumada al-Awwal",
        6 => "Jumada al-Thani",
        7 => "Rajab",
        8 => "Sha'ban",
        9 => "Ramadan",
        10 => "Shawwal",
        11 => "Dhu al-Qi'dah",
        12 => "Dhu al-Hijjah",
        _ => "Unknown",
    }
}

/// A Hijri date with its display names.
pub struct HijriInfo {
    pub day: usize,
    pub month: usize,
    pub year: usize,
    pub month_name: String,
    pub day_name: String,
}

impl HijriInfo {
    /// The display line `day month-name year`.
    pub fn formatted(&self) -> (r: String)
        ensures
            r@ == spec_decimal(self.day as int) + " "@ + self.month_name@ + " "@ + spec_decimal(
                self.year as int,
            ),
    {
        let mut out = String::new();
        push_decimal(&mut out, self.day as u64);
        string_push(&mut out, ' ');
        out.append(self.month_name.as_str());
        string_push(&mut out, ' ');
        push_decimal(&mut out, self.year as u64);
        proof {
            reveal_strlit(" ");
            assert(out@ =~= spec_decimal(self.day as int) + " "@ + self.month_name@ + " "@
                + spec_decimal(self.year as int));
        }
        out
    }
}

/// Convert a valid Gregorian date within the supported years to its
/// Hijri counterpart, with the month name filled in.
pub fn to_hijri(date: &Date) -> (r: Result<HijriInfo, EngineError>)
    requires
        date.is_valid(),
        1939 <= date.year <= 2075,
    ensures
        r is Ok,
        ({
            let parts = hijri_parts(date.year as int, date.month as int, date.day as int);
            let h = r.unwrap();
            &&& h.day == parts[0]
            &&& h.month == parts[1]
            &&& 1 <= h.month <= 12
            &&& h.year == parts[2]
            &&& h.month_name@ == spec_hijri_month_name(parts[1])
        }),
{
    let (day, month, year, day_name) = hijri_from_gregorian(date.year, date.month, date.day)?;
    let month_name = hijri_month_name(month);
    Ok(
        HijriInfo {
            day,
            month,
            year,
            month_name: String::from_str(month_name),
            day_name,
        },
    )
}

} // verus!
