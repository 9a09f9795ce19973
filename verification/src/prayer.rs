//! The five daily obligation prayers, completion status, and the record
//! row that the streak analytics read.

use vstd::prelude::*;

use crate::clock::TimeOfDay;
use crate::date::Date;

verus! {

/// One of the five daily obligation prayers. Sunrise is informational
/// only and never carries a completion record, so it is not listed here.
#[derive(Clone, Copy, Debug, PartialEq, Eq, Hash, Structural)]
pub enum PrayerType {
    Fajr,
    Zuhr,
    Asr,
    Maghrib,
    Isha,
}

impl PrayerType {
    /// The canonical position of a prayer within the day.
    pub open spec fn spec_rank(&self) -> int {
        match self {
            PrayerType::Fajr => 0,
            PrayerType::Zuhr => 1,
            PrayerType::Asr => 2,
            PrayerType::Maghrib => 3,
            PrayerType::Isha => 4,
        }
    }

    /// All five obligation prayers in canonical order.
    pub fn all() -> (r: Vec<PrayerType>)
        ensures
            r@ =~= seq![
                PrayerType::Fajr,
                PrayerType::Zuhr,
                PrayerType::Asr,
                PrayerType::Maghrib,
                PrayerType::Isha,
            ],
    {
        let mut v: Vec<PrayerType> = Vec::new();
        v.push(PrayerType::Fajr);
        v.push(PrayerType::Zuhr);
        v.push(PrayerType::Asr);
        v.push(PrayerType::Maghrib);
        v.push(PrayerType::Isha);
        v
    }

    pub open spec fn spec_str(&self) -> Seq<char> {
        match self {
            PrayerType::Fajr => "fajr"@,
            PrayerType::Zuhr => "zuhr"@,
            PrayerType::Asr => "asr"@,
            PrayerType::Maghrib => "maghrib"@,
            PrayerType::Isha => "isha"@,
        }
    }

    /// The lower-case storage key of the prayer.
    pub fn as_str(&self) -> (r: &'static str)
        ensures
            r@ == self.spec_str(),
    {
        match self {
            PrayerType::Fajr => "fajr",
            PrayerType::Zuhr => "zuhr",
            PrayerType::Asr => "asr",
            PrayerType::Maghrib => "maghrib",
            PrayerType::Isha => "isha",
        }
    }

    pub open spec fn spec_display_name(&self) -> Seq<char> {
        match self {
            PrayerType::Fajr => "Fajr"@,
            PrayerType::Zuhr => "Zuhr"@,
            PrayerType::Asr => "Asr"@,
            PrayerType::Maghrib => "Maghrib"@,
            PrayerType::Isha => "Isha"@,
        }
    }

    /// The capitalised display name of the prayer.
    pub fn display_name(&self) -> (r: &'static str)
        ensures
            r@ == self.spec_display_name(),
    {
        match self {
            PrayerType::Fajr => "Fajr",
            PrayerType::Zuhr => "Zuhr",
            PrayerType::Asr => "Asr",
            PrayerType::Maghrib => "Maghrib",
            PrayerType::Isha => "Isha",
        }
    }
}

/// ASCII lower-casing of a single character.
pub open spec fn spec_lower(c: char) -> char {
    if 'A' <= c && c <= 'Z' {
        (c as int + 32) as char
    } else {
        c
    }
}

/// ASCII lower-casing of a character sequence.
pub open spec fn spec_lower_seq(s: Seq<char>) -> Seq<char> {
    s.map(|i: int, c: char| spec_lower(c))
}

pub fn lower_char(c: char) -> (r: char)
    ensures
        r == spec_lower(c),
{
    match c {
        'A' => 'a',
        'B' => 'b',
        'C' => 'c',
        'D' => 'd',
        'E' => 'e',
        'F' => 'f',
        'G' => 'g',
        'H' => 'h',
        'I' => 'i',
        'J' => 'j',
        'K' => 'k',
        'L' => 'l',
        'M' => 'm',
        'N' => 'n',
        'O' => 'o',
        'P' => 'p',
        'Q' => 'q',
        'R' => 'r',
        'S' => 's',
        'T' => 't',
        'U' => 'u',
        'V' => 'v',
        'W' => 'w',
        'X' => 'x',
        'Y' => 'y',
        'Z' => 'z',
        _ => c,
    }
}

/// Whether `s` lower-cases to exactly the (already lower-case) `word`.
pub fn matches_ignore_case(s: &str, word: &str) -> (r: bool)
    ensures
        r == (spec_lower_seq(s@) == word@),
{
    let n = s.unicode_len();
    let m = word.unicode_len();
    if n != m {
        proof {
            assert(spec_lower_seq(s@).len() == s@.len());
        }
        return false;
    }
    let mut i: usize = 0;
    while i < n
        invariant
            i <= n,
            n == s@.len() == word@.len(),
            forall|j: int| 0 <= j < i ==> spec_lower(s@[j]) == word@[j],
        decreases n - i,
    {
        if lower_char(s.get_char(i)) != word.get_char(i) {
            proof {
                assert(spec_lower_seq(s@)[i as int] != word@[i as int]);
            }
            return false;
        }
        i = i + 1;
    }
    proof {
        assert(spec_lower_seq(s@) =~= word@);
    }
    true
}

/// The prayer a user-entered name denotes, case-insensitively; `dhuhr`
/// and `dhuhur` are accepted aliases for Zuhr.
pub open spec fn spec_parse_prayer_type(s: Seq<char>) -> Option<PrayerType> {
    let low = spec_lower_seq(s);
    if low == "fajr"@ {
        Some(PrayerType::Fajr)
    } else if low == "zuhr"@ || low == "dhuhr"@ || low == "dhuhur"@ {
        Some(PrayerType::Zuhr)
    } else if low == "asr"@ {
        Some(PrayerType::Asr)
    } else if low == "maghrib"@ {
        Some(PrayerType::Maghrib)
    } else if low == "isha"@ {
        Some(PrayerType::Isha)
    } else {
        None
    }
}

/// Parse a prayer name as typed by the user.
pub fn parse_prayer_type(s: &str) -> (r: Option<PrayerType>)
    ensures
        r == spec_parse_prayer_type(s@),
{
    if matches_ignore_case(s, "fajr") {
        Some(PrayerType::Fajr)
    } else if matches_ignore_case(s, "zuhr") || matches_ignore_case(s, "dhuhr")
        || matches_ignore_case(s, "dhuhur") {
        Some(PrayerType::Zuhr)
    } else if matches_ignore_case(s, "asr") {
        Some(PrayerType::Asr)
    } else if matches_ignore_case(s, "maghrib") {
        Some(PrayerType::Maghrib)
    } else if matches_ignore_case(s, "isha") {
        Some(PrayerType::Isha)
    } else {
        None
    }
}

/// The completion status of a prayer on a given date.
#[derive(Clone, Copy, Debug, PartialEq, Eq, Structural)]
pub enum PrayerStatus {
    Pending,
    Done,
    Missed,
}

impl PrayerStatus {
    pub open spec fn spec_str(&self) -> Seq<char> {
        match self {
            PrayerStatus::Pending => "pending"@,
            PrayerStatus::Done => "done"@,
            PrayerStatus::Missed => "missed"@,
        }
    }

    /// The lower-case storage key of the status.
    pub fn as_str(&self) -> (r: &'static str)
        ensures
            r@ == self.spec_str(),
    {
        match self {
            PrayerStatus::Pending => "pending",
            PrayerStatus::Done => "done",
            PrayerStatus::Missed => "missed",
        }
    }
}

/// The status a storage key denotes, exactly.
pub open spec fn spec_parse_prayer_status(s: Seq<char>) -> Option<PrayerStatus> {
    if s == "pending"@ {
        Some(PrayerStatus::Pending)
    } else if s == "done"@ {
        Some(PrayerStatus::Done)
    } else if s == "missed"@ {
        Some(PrayerStatus::Missed)
    } else {
        None
    }
}

/// Parse a stored status key.
pub fn parse_prayer_status(s: &str) -> (r: Option<PrayerStatus>)
    ensures
        r == spec_parse_prayer_status(s@),
{
    if str_eq(s, "pending") {
        Some(PrayerStatus::Pending)
    } else if str_eq(s, "done") {
        Some(PrayerStatus::Done)
    } else if str_eq(s, "missed") {
        Some(PrayerStatus::Missed)
    } else {
        None
    }
}

/// Character-by-character string equality.
pub fn str_eq(a: &str, b: &str) -> (r: bool)
    ensures
        r == (a@ == b@),
{
    let n = a.unicode_len();
    let m = b.unicode_len();
    if n != m {
        return false;
    }
    let mut i: usize = 0;
    while i < n
        invariant
            i <= n,
            n == a@.len() == b@.len(),
            forall|j: int| 0 <= j < i ==> a@[j] == b@[j],
        decreases n - i,
    {
        if a.get_char(i) != b.get_char(i) {
            return false;
        }
        i = i + 1;
    }
    proof {
        assert(a@ =~= b@);
    }
    true
}

/// One completion record: a prayer on a calendar date with its status.
/// Qada rows are make-up prayers and never count towards streaks.
#[derive(Clone, Debug)]
pub struct Prayer {
    pub id: Option<i64>,
    pub prayer_type: PrayerType,
    pub date: Date,
    pub status: PrayerStatus,
    pub is_qada: bool,
    pub note: Option<String>,
    /// Filled from the day cache when displayed; not persisted here.
    pub time: Option<TimeOfDay>,
}

/// A missed prayer queued for later make-up.
#[derive(Clone, Debug)]
pub struct QadaEntry {
    pub id: i64,
    pub prayer_type: PrayerType,
    pub original_date: String,
    pub completed: bool,
    pub completed_at: Option<String>,
}

} // verus!
