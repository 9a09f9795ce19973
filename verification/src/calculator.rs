//! The schedule resolver: a validated calculation context, projection of
//! astronomical results into an ordered local schedule, the cache-or-
//! compute policy over the day cache, and next-prayer resolution across
//! the midnight boundary.
//!
//! The astronomical computation itself is an external collaborator: the
//! host obtains the six UTC instants for a date and hands them here as
//! plain minute-of-day values; everything that decides, projects, orders,
//! caches and counts down is verified.

use vstd::prelude::*;

use crate::cache::{cache_rows, lookup_model, times_to_row, CachedTimes, CacheRepo};
use crate::clock::{ClockTime, TimeOfDay};
use crate::date::{
    format_date, max_day_index, nth_next, spec_date_seq, spec_date_string, spec_day_index, Date,
    lemma_date_seq_push, next_date,
};
use crate::error::EngineError;
use crate::prayer::{str_eq, PrayerType};

verus! {

/// A calculation-method authority, a closed set.
#[derive(Clone, Copy, Debug, PartialEq, Eq, Structural)]
pub enum Method {
    MuslimWorldLeague,
    Egyptian,
    Karachi,
    UmmAlQura,
    Dubai,
    MoonsightingCommittee,
    NorthAmerica,
    Kuwait,
    Qatar,
    Singapore,
    Tehran,
    Turkey,
    Other,
}

/// The madhab, which affects the Asr time only.
#[derive(Clone, Copy, Debug, PartialEq, Eq, Structural)]
pub enum Madhab {
    Hanafi,
    Shafi,
}

/// The method a configuration string names, exactly.
pub open spec fn spec_parse_method(s: Seq<char>) -> Option<Method> {
    if s == "MuslimWorldLeague"@ {
        Some(Method::MuslimWorldLeague)
    } else if s == "Egyptian"@ {
        Some(Method::Egyptian)
    } else if s == "Karachi"@ {
        Some(Method::Karachi)
    } else if s == "UmmAlQura"@ {
        Some(Method::UmmAlQura)
    } else if s == "Dubai"@ {
        Some(Method::Dubai)
    } else if s == "MoonsightingCommittee"@ {
        Some(Method::MoonsightingCommittee)
    } else if s == "NorthAmerica"@ {
        Some(Method::NorthAmerica)
    } else if s == "Kuwait"@ {
        Some(Method::Kuwait)
    } else if s == "Qatar"@ {
        Some(Method::Qatar)
    } else if s == "Singapore"@ {
        Some(Method::Singapore)
    } else if s == "Tehran"@ {
        Some(Method::Tehran)
    } else if s == "Turkey"@ {
        Some(Method::Turkey)
    } else if s == "Other"@ {
        Some(Method::Other)
    } else {
        None
    }
}

/// Parse a calculation-method name; an unknown name is an invalid
/// context.
pub fn parse_method(s: &str) -> (r: Result<Method, EngineError>)
    ensures
        (match spec_parse_method(s@) {
            Some(m) => r == Ok::<Method, EngineError>(m),
            None => r == Err::<Method, EngineError>(EngineError::InvalidContext),
        }),
{
    if str_eq(s, "MuslimWorldLeague") {
        Ok(Method::MuslimWorldLeague)
    } else if str_eq(s, "Egyptian") {
        Ok(Method::Egyptian)
    } else if str_eq(s, "Karachi") {
        Ok(Method::Karachi)
    } else if str_eq(s, "UmmAlQura") {
        Ok(Method::UmmAlQura)
    } else if str_eq(s, "Dubai") {
        Ok(Method::Dubai)
    } else if str_eq(s, "MoonsightingCommittee") {
        Ok(Method::MoonsightingCommittee)
    } else if str_eq(s, "NorthAmerica") {
        Ok(Method::NorthAmerica)
    } else if str_eq(s, "Kuwait") {
        Ok(Method::Kuwait)
    } else if str_eq(s, "Qatar") {
        Ok(Method::Qatar)
    } else if str_eq(s, "Singapore") {
        Ok(Method::Singapore)
    } else if str_eq(s, "Tehran") {
        Ok(Method::Tehran)
    } else if str_eq(s, "Turkey") {
        Ok(Method::Turkey)
    } else if str_eq(s, "Other") {
        Ok(Method::Other)
    } else {
        Err(EngineError::InvalidContext)
    }
}

/// The madhab a configuration string names; `Shafi'i` is an accepted
/// spelling of Shafi.
pub open spec fn spec_parse_madhab(s: Seq<char>) -> Option<Madhab> {
    if s == "Hanafi"@ {
        Some(Madhab::Hanafi)
    } else if s == "Shafi"@ || s == "Shafi'i"@ {
        Some(Madhab::Shafi)
    } else {
        None
    }
}

/// Parse a madhab name; an unknown name is an invalid context.
pub fn parse_madhab(s: &str) -> (r: Result<Madhab, EngineError>)
    ensures
        (match spec_parse_madhab(s@) {
            Some(m) => r == Ok::<Madhab, EngineError>(m),
            None => r == Err::<Madhab, EngineError>(EngineError::InvalidContext),
        }),
{
    if str_eq(s, "Hanafi") {
        Ok(Madhab::Hanafi)
    } else if str_eq(s, "Shafi") || str_eq(s, "Shafi'i") {
        Ok(Madhab::Shafi)
    } else {
        Err(EngineError::InvalidContext)
    }
}

/// The thirteen accepted calculation-method names, in canonical order.
pub fn calc_methods() -> (r: Vec<&'static str>)
    ensures
        r@.len() == 13,
        r@[0]@ == "MuslimWorldLeague"@,
        r@[1]@ == "Egyptian"@,
        r@[2]@ == "Karachi"@,
        r@[3]@ == "UmmAlQura"@,
        r@[4]@ == "Dubai"@,
        r@[5]@ == "MoonsightingCommittee"@,
        r@[6]@ == "NorthAmerica"@,
        r@[7]@ == "Kuwait"@,
        r@[8]@ == "Qatar"@,
        r@[9]@ == "Singapore"@,
        r@[10]@ == "Tehran"@,
        r@[11]@ == "Turkey"@,
        r@[12]@ == "Other"@,
        forall|i: int| 0 <= i < 13 ==> spec_parse_method(r@[i]@) is Some,
{
    let mut v: Vec<&'static str> = Vec::new();
    v.push("MuslimWorldLeague");
    v.push("Egyptian");
    v.push("Karachi");
    v.push("UmmAlQura");
    v.push("Dubai");
    v.push("MoonsightingCommittee");
    v.push("NorthAmerica");
    v.push("Kuwait");
    v.push("Qatar");
    v.push("Singapore");
    v.push("Tehran");
    v.push("Turkey");
    v.push("Other");
    proof {
        assert forall|i: int| 0 <= i < 13 implies spec_parse_method(v@[i]@) is Some by {
            if i == 0 {
                assert(v@[0]@ == "MuslimWorldLeague"@);
            }
        }
    }
    v
}

/// The six astronomical instants of one date, as minutes of the UTC day.
#[derive(Clone, Copy, Debug, PartialEq, Eq, Structural)]
pub struct UtcSchedule {
    pub fajr: u16,
    pub sunrise: u16,
    pub zuhr: u16,
    pub asr: u16,
    pub maghrib: u16,
    pub isha: u16,
}

impl UtcSchedule {
    pub open spec fn is_valid(&self) -> bool {
        &&& self.fajr < 1440
        &&& self.sunrise < 1440
        &&& self.zuhr < 1440
        &&& self.asr < 1440
        &&& self.maghrib < 1440
        &&& self.isha < 1440
    }
}

/// The six prayer times of one date in local wall-clock time.
#[derive(Clone, Copy, Debug, PartialEq, Eq, Structural)]
pub struct PrayerTimesLocal {
    pub fajr: TimeOfDay,
    pub sunrise: TimeOfDay,
    pub zuhr: TimeOfDay,
    pub asr: TimeOfDay,
    pub maghrib: TimeOfDay,
    pub isha: TimeOfDay,
}

impl PrayerTimesLocal {
    pub open spec fn is_valid(&self) -> bool {
        &&& self.fajr.is_valid()
        &&& self.sunrise.is_valid()
        &&& self.zuhr.is_valid()
        &&& self.asr.is_valid()
        &&& self.maghrib.is_valid()
        &&& self.isha.is_valid()
    }

    /// The fixed intra-day ordering every computed day must satisfy.
    pub open spec fn is_well_ordered(&self) -> bool {
        self.fajr.minute_of_day < self.sunrise.minute_of_day
            && self.sunrise.minute_of_day < self.zuhr.minute_of_day
            && self.zuhr.minute_of_day < self.asr.minute_of_day
            && self.asr.minute_of_day < self.maghrib.minute_of_day
            && self.maghrib.minute_of_day < self.isha.minute_of_day
    }

    pub open spec fn spec_as_cached(&self) -> CachedTimes {
        CachedTimes {
            fajr: self.fajr,
            sunrise: self.sunrise,
            zuhr: self.zuhr,
            asr: self.asr,
            maghrib: self.maghrib,
            isha: self.isha,
        }
    }

    pub fn as_cached(&self) -> (r: CachedTimes)
        ensures
            r == self.spec_as_cached(),
    {
        CachedTimes {
            fajr: self.fajr,
            sunrise: self.sunrise,
            zuhr: self.zuhr,
            asr: self.asr,
            maghrib: self.maghrib,
            isha: self.isha,
        }
    }

    pub fn from_cached(c: &CachedTimes) -> (r: PrayerTimesLocal)
        ensures
            r == spec_local_of_cached(*c),
    {
        PrayerTimesLocal {
            fajr: c.fajr,
            sunrise: c.sunrise,
            zuhr: c.zuhr,
            asr: c.asr,
            maghrib: c.maghrib,
            isha: c.isha,
        }
    }
}

pub open spec fn spec_local_of_cached(c: CachedTimes) -> PrayerTimesLocal {
    PrayerTimesLocal {
        fajr: c.fajr,
        sunrise: c.sunrise,
        zuhr: c.zuhr,
        asr: c.asr,
        maghrib: c.maghrib,
        isha: c.isha,
    }
}

/// The immutable calculation context: location in microdegrees, method,
/// madhab, and the fixed UTC offset in minutes. Validated once, at
/// construction.
#[derive(Clone, Copy, Debug, PartialEq, Eq, Structural)]
pub struct PrayerCalculator {
    pub latitude_microdeg: i64,
    pub longitude_microdeg: i64,
    pub method: Method,
    pub madhab: Madhab,
    pub tz_offset_minutes: i32,
}

impl PrayerCalculator {
    /// Latitude within ±90°, longitude within ±180°, offset within one
    /// day — all held from construction on.
    pub open spec fn is_valid(&self) -> bool {
        &&& -90_000_000 <= self.latitude_microdeg <= 90_000_000
        &&& -180_000_000 <= self.longitude_microdeg <= 180_000_000
        &&& -1440 <= self.tz_offset_minutes <= 1440
    }

    /// Build a context from configuration values, validating location,
    /// method, madhab and offset. An invalid input is rejected here,
    /// never mid-operation.
    pub fn new(
        latitude_microdeg: i64,
        longitude_microdeg: i64,
        method: &str,
        madhab: &str,
        tz_offset_minutes: i32,
    ) -> (r: Result<PrayerCalculator, EngineError>)
        ensures
            (match r {
                Ok(c) => {
                    &&& spec_parse_method(method@) is Some
                    &&& spec_parse_madhab(madhab@) is Some
                    &&& c == (PrayerCalculator {
                        latitude_microdeg,
                        longitude_microdeg,
                        method: spec_parse_method(method@).unwrap(),
                        madhab: spec_parse_madhab(madhab@).unwrap(),
                        tz_offset_minutes,
                    })
                    &&& c.is_valid()
                },
                Err(e) => {
                    &&& e == EngineError::InvalidContext
                    &&& (spec_parse_method(method@) is None || spec_parse_madhab(madhab@) is None
                        || !(PrayerCalculator {
                        latitude_microdeg,
                        longitude_microdeg,
                        method: Method::Other,
                        madhab: Madhab::Hanafi,
                        tz_offset_minutes,
                    }).is_valid())
                },
            }),
    {
        let m = parse_method(method)?;
        let h = parse_madhab(madhab)?;
        if latitude_microdeg < -90_000_000 || latitude_microdeg > 90_000_000
            || longitude_microdeg < -180_000_000 || longitude_microdeg > 180_000_000
            || tz_offset_minutes < -1440 || tz_offset_minutes > 1440 {
            return Err(EngineError::InvalidContext);
        }
        Ok(
            PrayerCalculator {
                latitude_microdeg,
                longitude_microdeg,
                method: m,
                madhab: h,
                tz_offset_minutes,
            },
        )
    }

    /// The local schedule this context projects a UTC schedule to: each
    /// instant shifted by the offset, wrapped across midnight.
    pub open spec fn spec_project(&self, raw: UtcSchedule) -> PrayerTimesLocal {
        PrayerTimesLocal {
            fajr: (TimeOfDay {
                minute_of_day: ((raw.fajr + self.tz_offset_minutes) % 1440) as u16,
            }),
            sunrise: (TimeOfDay {
                minute_of_day: ((raw.sunrise + self.tz_offset_minutes) % 1440) as u16,
            }),
            zuhr: (TimeOfDay {
                minute_of_day: ((raw.zuhr + self.tz_offset_minutes) % 1440) as u16,
            }),
            asr: (TimeOfDay {
                minute_of_day: ((raw.asr + self.tz_offset_minutes) % 1440) as u16,
            }),
            maghrib: (TimeOfDay {
                minute_of_day: ((raw.maghrib + self.tz_offset_minutes) % 1440) as u16,
            }),
            isha: (TimeOfDay {
                minute_of_day: ((raw.isha + self.tz_offset_minutes) % 1440) as u16,
            }),
        }
    }

    /// Project the six UTC instants of one date into local time and
    /// check the fixed ordering.
    ///
    /// Returns the local schedule, which is then well ordered: fajr
    /// before sunrise before zuhr before asr before maghrib before
    /// isha. A projection violating that order is a `CalculationError`.
    pub fn times_from_utc(&self, raw: &UtcSchedule) -> (r: Result<PrayerTimesLocal, EngineError>)
        requires
            self.is_valid(),
            raw.is_valid(),
        ensures
            (match r {
                Ok(t) => t == self.spec_project(*raw) && t.is_well_ordered() && t.is_valid(),
                Err(e) => e == EngineError::CalculationError && !self.spec_project(
                    *raw,
                ).is_well_ordered(),
            }),
    {
        let t = PrayerTimesLocal {
            fajr: crate::clock::project(raw.fajr, self.tz_offset_minutes),
            sunrise: crate::clock::project(raw.sunrise, self.tz_offset_minutes),
            zuhr: crate::clock::project(raw.zuhr, self.tz_offset_minutes),
            asr: crate::clock::project(raw.asr, self.tz_offset_minutes),
            maghrib: crate::clock::project(raw.maghrib, self.tz_offset_minutes),
            isha: crate::clock::project(raw.isha, self.tz_offset_minutes),
        };
        if t.fajr.minute_of_day < t.sunrise.minute_of_day && t.sunrise.minute_of_day
            < t.zuhr.minute_of_day && t.zuhr.minute_of_day < t.asr.minute_of_day
            && t.asr.minute_of_day < t.maghrib.minute_of_day && t.maghrib.minute_of_day
            < t.isha.minute_of_day {
            Ok(t)
        } else {
            Err(EngineError::CalculationError)
        }
    }

    /// Look a date up in the day cache; a missing or corrupt row is a
    /// miss. The stored value is returned unchanged, with no
    /// re-validation against the current context.
    pub fn lookup_cached(conn: &rusqlite::Connection, date: &Date) -> (r: Result<
        Option<PrayerTimesLocal>,
        EngineError,
    >)
        requires
            date.is_valid(),
        ensures
            (match r {
                Ok(Some(t)) => lookup_model(cache_rows(*conn), spec_date_string(*date)) == Some(
                    t.spec_as_cached(),
                ),
                Ok(None) => lookup_model(cache_rows(*conn), spec_date_string(*date)) is None,
                Err(e) => e == EngineError::Storage,
            }),
    {
        let key = format_date(date);
        match CacheRepo::get_times_for_date(conn, key.as_str()) {
            Ok(Some(c)) => Ok(Some(PrayerTimesLocal::from_cached(&c))),
            Ok(None) => Ok(None),
            Err(e) => Err(e),
        }
    }

    /// Admit a freshly computed day into the cache: project, check the
    /// ordering, store under the date key. This is the miss half of the
    /// cached-or-compute policy; dates already present are never
    /// recomputed or touched.
    pub fn store_computed(&self, conn: &mut rusqlite::Connection, date: &Date, raw: &UtcSchedule)
        -> (r: Result<PrayerTimesLocal, EngineError>)
        requires
            self.is_valid(),
            raw.is_valid(),
            date.is_valid(),
        ensures
            (match r {
                Ok(t) => {
                    &&& t == self.spec_project(*raw)
                    &&& t.is_well_ordered()
                    &&& cache_rows(*final(conn)) == cache_rows(*old(conn)).insert(
                        spec_date_string(*date),
                        times_to_row(t.spec_as_cached()),
                    )
                },
                Err(e) => {
                    &&& cache_rows(*final(conn)) == cache_rows(*old(conn))
                    &&& (e == EngineError::CalculationError <==> !self.spec_project(
                        *raw,
                    ).is_well_ordered())
                    &&& (e == EngineError::CalculationError || e == EngineError::Storage)
                },
            }),
    {
        let t = self.times_from_utc(raw)?;
        let key = format_date(date);
        let cached = t.as_cached();
        match CacheRepo::store_times(conn, key.as_str(), &cached) {
            Ok(()) => Ok(t),
            Err(e) => Err(e),
        }
    }
}

/// The dates of the window `[start, start + (count-1)]` that the cache
/// does not resolve — the exact set a cache-warming pass must compute.
pub open spec fn spec_missing_dates(
    rows: Map<Seq<char>, Seq<Seq<char>>>,
    start: Date,
    count: nat,
) -> Seq<Date> {
    spec_date_seq(start, count).filter(
        |d: Date| lookup_model(rows, spec_date_string(d)) is None,
    )
}

impl PrayerCalculator {
    /// The dates from `today` through `today + days_ahead` that are not
    /// yet cached, in calendar order.
    ///
    /// Present dates are left untouched, so warming the window is
    /// incremental: computing and storing exactly the returned dates
    /// fills every gap, and a second pass returns the empty plan — zero
    /// provider calls.
    pub fn ensure_cached_plan(conn: &rusqlite::Connection, today: &Date, days_ahead: u32) -> (r:
        Result<Vec<Date>, EngineError>)
        requires
            today.is_valid(),
            spec_day_index(*today) + days_ahead <= max_day_index(),
        ensures
            (match r {
                Ok(v) => v@ == spec_missing_dates(
                    cache_rows(*conn),
                    *today,
                    (days_ahead + 1) as nat,
                ),
                Err(e) => e == EngineError::Storage,
            }),
    {
        let mut plan: Vec<Date> = Vec::new();
        let mut cur: Date = *today;
        let mut i: u32 = 0;
        proof {
            reveal(Seq::filter);
            assert(spec_date_seq(*today, 0) =~= Seq::<Date>::empty());
            assert(plan@ =~= spec_missing_dates(cache_rows(*conn), *today, 0));
        }
        while i <= days_ahead
            invariant
                today.is_valid(),
                spec_day_index(*today) + days_ahead <= max_day_index(),
                i <= days_ahead + 1,
                i <= days_ahead ==> cur == nth_next(*today, i as nat) && cur.is_valid()
                    && spec_day_index(cur) == spec_day_index(*today) + i,
                plan@ == spec_missing_dates(cache_rows(*conn), *today, i as nat),
            decreases days_ahead + 1 - i,
        {
            proof {
                crate::date::lemma_nth_next(*today, i as nat);
            }
            let key = format_date(&cur);
            match CacheRepo::get_times_for_date(conn, key.as_str()) {
                Ok(found) => {
                    let ghost prefix = spec_date_seq(*today, i as nat);
                    if found.is_none() {
                        plan.push(cur);
                    }
                    proof {
                        lemma_date_seq_push(*today, i as nat);
                        reveal(Seq::filter);
                        assert(spec_date_seq(*today, (i + 1) as nat) =~= prefix.push(cur));
                        assert(prefix.push(cur).drop_last() =~= prefix);
                        assert(prefix.push(cur).last() == cur);
                        assert(plan@ == spec_missing_dates(
                            cache_rows(*conn),
                            *today,
                            (i + 1) as nat,
                        ));
                    }
                },
                Err(e) => {
                    return Err(e);
                },
            }
            if i < days_ahead {
                cur = next_date(&cur);
                proof {
                    crate::date::lemma_nth_next_unfold(*today, i as nat);
                }
            }
            i = i + 1;
        }
        Ok(plan)
    }
}

/// Warming the window is idempotent: when every date of the window is
/// resolved by the cache, the plan is empty — a second warming pass
/// right after a completed one computes nothing and makes zero provider
/// calls.
pub proof fn lemma_ensure_cached_idempotent(
    rows: Map<Seq<char>, Seq<Seq<char>>>,
    start: Date,
    count: nat,
)
    requires
        forall|i: nat|
            i < count ==> #[trigger] lookup_model(rows, spec_date_string(nth_next(start, i)))
                is Some,
    ensures
        spec_missing_dates(rows, start, count) =~= Seq::<Date>::empty(),
    decreases count,
{
    reveal(Seq::filter);
    if count > 0 {
        lemma_ensure_cached_idempotent(rows, start, (count - 1) as nat);
        lemma_date_seq_push(start, (count - 1) as nat);
        let prefix = spec_date_seq(start, (count - 1) as nat);
        let last = nth_next(start, (count - 1) as nat);
        assert(spec_date_seq(start, count) =~= prefix.push(last));
        assert(prefix.push(last).drop_last() =~= prefix);
        assert(prefix.push(last).last() == last);
        assert(lookup_model(rows, spec_date_string(last)) is Some);
    } else {
        assert(spec_date_seq(start, 0) =~= Seq::<Date>::empty());
    }
}

/// What the next-prayer scan yields within one day: the first of the
/// five obligation prayers whose time is strictly after `now`, with the
/// countdown in whole seconds.
pub open spec fn spec_next_prayer_today(t: PrayerTimesLocal, now: ClockTime) -> Option<
    (PrayerType, i64),
> {
    if t.fajr.minute_of_day * 60 > now.second_of_day {
        Some((PrayerType::Fajr, (t.fajr.minute_of_day * 60 - now.second_of_day) as i64))
    } else if t.zuhr.minute_of_day * 60 > now.second_of_day {
        Some((PrayerType::Zuhr, (t.zuhr.minute_of_day * 60 - now.second_of_day) as i64))
    } else if t.asr.minute_of_day * 60 > now.second_of_day {
        Some((PrayerType::Asr, (t.asr.minute_of_day * 60 - now.second_of_day) as i64))
    } else if t.maghrib.minute_of_day * 60 > now.second_of_day {
        Some((PrayerType::Maghrib, (t.maghrib.minute_of_day * 60 - now.second_of_day) as i64))
    } else if t.isha.minute_of_day * 60 > now.second_of_day {
        Some((PrayerType::Isha, (t.isha.minute_of_day * 60 - now.second_of_day) as i64))
    } else {
        None
    }
}

/// Scan today's five obligation prayers in canonical order for the
/// first whose time is strictly after `now`; `None` means the whole day
/// has passed and the next prayer is tomorrow's Fajr.
pub fn next_prayer_today(t: &PrayerTimesLocal, now: &ClockTime) -> (r: Option<(PrayerType, i64)>)
    requires
        t.is_valid(),
        now.is_valid(),
    ensures
        r == spec_next_prayer_today(*t, *now),
{
    let now_s: u32 = now.second_of_day;
    if t.fajr.minute_of_day as u32 * 60 > now_s {
        Some((PrayerType::Fajr, (t.fajr.minute_of_day as i64 * 60 - now_s as i64)))
    } else if t.zuhr.minute_of_day as u32 * 60 > now_s {
        Some((PrayerType::Zuhr, (t.zuhr.minute_of_day as i64 * 60 - now_s as i64)))
    } else if t.asr.minute_of_day as u32 * 60 > now_s {
        Some((PrayerType::Asr, (t.asr.minute_of_day as i64 * 60 - now_s as i64)))
    } else if t.maghrib.minute_of_day as u32 * 60 > now_s {
        Some((PrayerType::Maghrib, (t.maghrib.minute_of_day as i64 * 60 - now_s as i64)))
    } else if t.isha.minute_of_day as u32 * 60 > now_s {
        Some((PrayerType::Isha, (t.isha.minute_of_day as i64 * 60 - now_s as i64)))
    } else {
        None
    }
}

/// The countdown once every prayer of today has passed: the seconds
/// left in today, plus the seconds from midnight to tomorrow's Fajr,
/// plus one for the boundary instant between the last second of today
/// and midnight.
pub fn next_day_fajr_countdown(now: &ClockTime, tomorrow_fajr: &TimeOfDay) -> (r: i64)
    requires
        now.is_valid(),
        tomorrow_fajr.is_valid(),
    ensures
        r == 86399 - now.second_of_day + tomorrow_fajr.minute_of_day * 60 + 1,
{
    (86399 - now.second_of_day as i64) + tomorrow_fajr.minute_of_day as i64 * 60 + 1
}

/// Resolve the next prayer given today's and (if needed) tomorrow's
/// schedule: the in-day scan when a prayer is still ahead, else
/// tomorrow's Fajr with the across-midnight countdown. This never
/// yields nothing: once both days resolve, an answer exists.
pub fn next_prayer_across_days(
    today_times: &PrayerTimesLocal,
    tomorrow_times: &PrayerTimesLocal,
    now: &ClockTime,
) -> (r: (PrayerType, i64))
    requires
        today_times.is_valid(),
        tomorrow_times.is_valid(),
        now.is_valid(),
    ensures
        spec_next_prayer_today(*today_times, *now) is Some ==> r == spec_next_prayer_today(
            *today_times,
            *now,
        ).unwrap(),
        spec_next_prayer_today(*today_times, *now) is None ==> r == (
            PrayerType::Fajr,
            (86399 - now.second_of_day + tomorrow_times.fajr.minute_of_day * 60 + 1) as i64,
        ),
{
    match next_prayer_today(today_times, now) {
        Some(p) => p,
        None => (PrayerType::Fajr, next_day_fajr_countdown(now, &tomorrow_times.fajr)),
    }
}

} // verus!
