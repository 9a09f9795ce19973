//! The day cache: one SQLite row per calendar date holding the six local
//! prayer times as `HH:MM` strings. Lookup, upsert and clear-all go
//! through small trusted wrappers over rusqlite; everything around them
//! — formatting, parsing, and the corruption policy — is verified.

use vstd::prelude::*;

use rusqlite::OptionalExtension;

use crate::clock::{format_time, hhmm_minutes, is_hhmm, parse_time, spec_hhmm, TimeOfDay};
use crate::clock::lemma_hhmm_round_trip;
use crate::error::EngineError;

verus! {

#[verifier::external_type_specification]
#[verifier::external_body]
pub struct ExConnection(rusqlite::Connection);

#[verifier::external_type_specification]
#[verifier::external_body]
pub struct ExSqlError(rusqlite::Error);

/// The contents of the `prayer_times_cache` table behind a connection:
/// each date key maps to the six stored time strings, in the canonical
/// order Fajr, Sunrise, Zuhr, Asr, Maghrib, Isha.
pub uninterp spec fn cache_rows(conn: rusqlite::Connection) -> Map<Seq<char>, Seq<Seq<char>>>;

/// The views of a vector of strings.
pub open spec fn strings_view(v: Seq<String>) -> Seq<Seq<char>> {
    Seq::new(v.len(), |i: int| v[i]@)
}

/// Whether the table model holds no row at all.
pub open spec fn no_rows(rows: Map<Seq<char>, Seq<Seq<char>>>) -> bool {
    rows == Map::<Seq<char>, Seq<Seq<char>>>::empty()
}

/// Relies on `rusqlite::Connection::query_row` and `OptionalExtension::
/// optional`: selects the six time columns of the row keyed by `date`,
/// or reports that no such row exists.
#[verifier::external_body]
fn select_row(conn: &rusqlite::Connection, date: &str) -> (r: Result<
    Option<Vec<String>>,
    rusqlite::Error,
>)
    ensures
        (match r {
            Ok(Some(v)) => cache_rows(*conn).contains_key(date@) && v@.len() == 6 && strings_view(
                v@,
            ) == cache_rows(*conn)[date@],
            Ok(None) => !cache_rows(*conn).contains_key(date@),
            Err(_) => true,
        }),
{
    conn.query_row(
        "SELECT fajr, sunrise, zuhr, asr, maghrib, isha FROM prayer_times_cache WHERE date = ?1",
        (date,),
        |row| {
            Ok(vec![row.get(0)?, row.get(1)?, row.get(2)?, row.get(3)?, row.get(4)?, row.get(5)?])
        },
    ).optional()
}

/// Relies on `rusqlite::Connection::execute` running a single
/// `INSERT OR REPLACE`: upserts the row keyed by `date`, leaving every
/// other row alone; a failed statement changes nothing.
#[verifier::external_body]
fn upsert_row(conn: &mut rusqlite::Connection, date: &str, t: &Vec<String>) -> (r: Result<
    (),
    rusqlite::Error,
>)
    requires
        t@.len() == 6,
    ensures
        r is Ok ==> cache_rows(*final(conn)) == cache_rows(*old(conn)).insert(
            date@,
            strings_view(t@),
        ),
        r is Err ==> cache_rows(*final(conn)) == cache_rows(*old(conn)),
{
    conn.execute(
        "INSERT OR REPLACE INTO prayer_times_cache (date, fajr, sunrise, zuhr, asr, maghrib, isha) VALUES (?1, ?2, ?3, ?4, ?5, ?6, ?7)",
        (date, &t[0], &t[1], &t[2], &t[3], &t[4], &t[5]),
    ).map(|_| ())
}

/// Relies on `rusqlite::Connection::execute` running a single `DELETE`
/// without a filter: removes every cached row; a failed statement
/// changes nothing.
#[verifier::external_body]
fn delete_all_rows(conn: &mut rusqlite::Connection) -> (r: Result<(), rusqlite::Error>)
    ensures
        r is Ok ==> no_rows(cache_rows(*final(conn))),
        r is Err ==> cache_rows(*final(conn)) == cache_rows(*old(conn)),
{
    conn.execute("DELETE FROM prayer_times_cache", ()).map(|_| ())
}

/// The six local times of one cached day.
#[derive(Clone, Copy, Debug, PartialEq, Eq, Structural)]
pub struct CachedTimes {
    pub fajr: TimeOfDay,
    pub sunrise: TimeOfDay,
    pub zuhr: TimeOfDay,
    pub asr: TimeOfDay,
    pub maghrib: TimeOfDay,
    pub isha: TimeOfDay,
}

impl CachedTimes {
    pub open spec fn is_valid(&self) -> bool {
        &&& self.fajr.is_valid()
        &&& self.sunrise.is_valid()
        &&& self.zuhr.is_valid()
        &&& self.asr.is_valid()
        &&& self.maghrib.is_valid()
        &&& self.isha.is_valid()
    }
}

/// The six `HH:MM` strings a cached day is stored as.
pub open spec fn times_to_row(t: CachedTimes) -> Seq<Seq<char>> {
    seq![
        spec_hhmm(t.fajr),
        spec_hhmm(t.sunrise),
        spec_hhmm(t.zuhr),
        spec_hhmm(t.asr),
        spec_hhmm(t.maghrib),
        spec_hhmm(t.isha),
    ]
}

/// The cached day a stored row denotes, when all six strings are
/// well-formed times; a malformed row denotes nothing.
pub open spec fn row_times(row: Seq<Seq<char>>) -> Option<CachedTimes> {
    if row.len() == 6 && is_hhmm(row[0]) && is_hhmm(row[1]) && is_hhmm(row[2]) && is_hhmm(row[3])
        && is_hhmm(row[4]) && is_hhmm(row[5]) {
        Some(
            CachedTimes {
                fajr: (TimeOfDay { minute_of_day: hhmm_minutes(row[0]) as u16 }),
                sunrise: (TimeOfDay { minute_of_day: hhmm_minutes(row[1]) as u16 }),
                zuhr: (TimeOfDay { minute_of_day: hhmm_minutes(row[2]) as u16 }),
                asr: (TimeOfDay { minute_of_day: hhmm_minutes(row[3]) as u16 }),
                maghrib: (TimeOfDay { minute_of_day: hhmm_minutes(row[4]) as u16 }),
                isha: (TimeOfDay { minute_of_day: hhmm_minutes(row[5]) as u16 }),
            },
        )
    } else {
        None
    }
}

/// What a cache lookup yields over the table model: the parsed row when
/// present and well formed; otherwise nothing. A corrupt row reads as
/// absent, so it is safe to recompute and overwrite.
pub open spec fn lookup_model(rows: Map<Seq<char>, Seq<Seq<char>>>, key: Seq<char>) -> Option<
    CachedTimes,
> {
    if rows.contains_key(key) {
        row_times(rows[key])
    } else {
        None
    }
}

/// Decode the six stored strings of one row.
///
/// Fails with `CacheCorruption` exactly when some string is not a
/// well-formed `HH:MM` time.
pub fn times_from_strings(v: &Vec<String>) -> (r: Result<CachedTimes, EngineError>)
    requires
        v@.len() == 6,
    ensures
        (match row_times(strings_view(v@)) {
            Some(t) => r == Ok::<CachedTimes, EngineError>(t),
            None => r == Err::<CachedTimes, EngineError>(EngineError::CacheCorruption),
        }),
{
    let fajr = parse_time(v[0].as_str());
    let sunrise = parse_time(v[1].as_str());
    let zuhr = parse_time(v[2].as_str());
    let asr = parse_time(v[3].as_str());
    let maghrib = parse_time(v[4].as_str());
    let isha = parse_time(v[5].as_str());
    proof {
        assert(strings_view(v@)[0] == v@[0]@);
        assert(strings_view(v@)[1] == v@[1]@);
        assert(strings_view(v@)[2] == v@[2]@);
        assert(strings_view(v@)[3] == v@[3]@);
        assert(strings_view(v@)[4] == v@[4]@);
        assert(strings_view(v@)[5] == v@[5]@);
    }
    match (fajr, sunrise, zuhr, asr, maghrib, isha) {
        (Some(f), Some(s), Some(z), Some(a), Some(m), Some(i)) => Ok(
            CachedTimes { fajr: f, sunrise: s, zuhr: z, asr: a, maghrib: m, isha: i },
        ),
        _ => Err(EngineError::CacheCorruption),
    }
}

/// The day cache over its SQLite table.
pub struct CacheRepo;

impl CacheRepo {
    /// Look a date up in the cache.
    ///
    /// Returns the stored times when the row exists and parses; a
    /// missing or corrupt row yields `Ok(None)`; only a store failure
    /// is an error.
    pub fn get_times_for_date(conn: &rusqlite::Connection, date: &str) -> (r: Result<
        Option<CachedTimes>,
        EngineError,
    >)
        ensures
            (match r {
                Ok(t) => t == lookup_model(cache_rows(*conn), date@),
                Err(e) => e == EngineError::Storage,
            }),
    {
        match select_row(conn, date) {
            Ok(Some(v)) => {
                match times_from_strings(&v) {
                    Ok(t) => Ok(Some(t)),
                    Err(_) => Ok(None),
                }
            },
            Ok(None) => Ok(None),
            Err(_) => Err(EngineError::Storage),
        }
    }

    /// Store (upsert) the six times for a date.
    ///
    /// On success the table holds exactly the old rows plus this one,
    /// rendered as zero-padded `HH:MM` strings.
    pub fn store_times(conn: &mut rusqlite::Connection, date: &str, times: &CachedTimes) -> (r:
        Result<(), EngineError>)
        requires
            times.is_valid(),
        ensures
            r is Ok ==> cache_rows(*final(conn)) == cache_rows(*old(conn)).insert(
                date@,
                times_to_row(*times),
            ),
            r is Err ==> r == Err::<(), EngineError>(EngineError::Storage) && cache_rows(*final(conn))
                == cache_rows(*old(conn)),
    {
        let mut v: Vec<String> = Vec::new();
        v.push(format_time(&times.fajr));
        v.push(format_time(&times.sunrise));
        v.push(format_time(&times.zuhr));
        v.push(format_time(&times.asr));
        v.push(format_time(&times.maghrib));
        v.push(format_time(&times.isha));
        proof {
            assert(strings_view(v@) =~= times_to_row(*times));
        }
        match upsert_row(conn, date, &v) {
            Ok(()) => Ok(()),
            Err(_) => Err(EngineError::Storage),
        }
    }

    /// Remove every cached day. Invoked when the location, method,
    /// madhab or offset configuration changes, since rows carry no
    /// back-reference to the context that produced them.
    pub fn clear_all(conn: &mut rusqlite::Connection) -> (r: Result<(), EngineError>)
        ensures
            r is Ok ==> cache_rows(*final(conn)) == Map::<Seq<char>, Seq<Seq<char>>>::empty(),
            r is Err ==> r == Err::<(), EngineError>(EngineError::Storage) && cache_rows(*final(conn))
                == cache_rows(*old(conn)),
    {
        match delete_all_rows(conn) {
            Ok(()) => Ok(()),
            Err(_) => Err(EngineError::Storage),
        }
    }
}

/// Round trip: a stored day reads back exactly, with no drift — storing
/// under a key and looking that key up yields the very same six times.
pub proof fn lemma_store_then_lookup(
    rows: Map<Seq<char>, Seq<Seq<char>>>,
    key: Seq<char>,
    t: CachedTimes,
)
    requires
        t.is_valid(),
    ensures
        lookup_model(rows.insert(key, times_to_row(t)), key) == Some(t),
{
    lemma_hhmm_round_trip(t.fajr);
    lemma_hhmm_round_trip(t.sunrise);
    lemma_hhmm_round_trip(t.zuhr);
    lemma_hhmm_round_trip(t.asr);
    lemma_hhmm_round_trip(t.maghrib);
    lemma_hhmm_round_trip(t.isha);
    let row = times_to_row(t);
    assert(row_times(row) == Some(t));
}

/// Storing a day touches no other key: every other date still reads
/// back whatever it read before.
pub proof fn lemma_store_preserves_others(
    rows: Map<Seq<char>, Seq<Seq<char>>>,
    key: Seq<char>,
    other: Seq<char>,
    t: CachedTimes,
)
    requires
        key != other,
    ensures
        lookup_model(rows.insert(key, times_to_row(t)), other) == lookup_model(rows, other),
{
}

/// Clearing the cache forces recomputation: after a clear every lookup
/// misses, so the next cached-or-computed resolution of any date must
/// call the astronomical provider for it.
pub proof fn lemma_clear_forces_recompute(key: Seq<char>)
    ensures
        lookup_model(Map::<Seq<char>, Seq<Seq<char>>>::empty(), key) is None,
{
}

} // verus!
