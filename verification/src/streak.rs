//! Streak analytics: from the historical completion records, the run of
//! consecutive fully-completed days ending at today, and the best such
//! run ever. Days are compared by their linear day index, so "the day
//! before" is index minus one.

use vstd::prelude::*;

use crate::date::{
    day_index, format_date, next_date, nth_next, spec_date_seq, spec_date_string, spec_day_index,
    Date, lemma_date_seq_push,
};
use crate::prayer::{Prayer, PrayerType};
use crate::stats::{DailyStats, Streak};

verus! {

/// Whether some record marks the given prayer done, not as qada, on the
/// day with this index.
pub open spec fn rec_done_for(recs: Seq<Prayer>, p: PrayerType, di: int) -> bool {
    exists|k: int|
        0 <= k < recs.len() && recs[k].prayer_type == p && recs[k].status
            is Done && !recs[k].is_qada && recs[k].date.is_valid() && spec_day_index(recs[k].date)
            == di
}

/// A full day: all five obligation prayers are marked done on it.
/// Sunrise never has a record and qada rows are excluded entirely.
pub open spec fn is_full_day(recs: Seq<Prayer>, di: int) -> bool {
    forall|p: PrayerType| rec_done_for(recs, p, di)
}

/// A run of `n` consecutive full days ending at day `end`: every day
/// index in `(end - n, end]` is a full day.
pub open spec fn chain(recs: Seq<Prayer>, end: int, n: int) -> bool {
    forall|di: int| end - n < di <= end ==> #[trigger] is_full_day(recs, di)
}

/// Whether some record marks `p` done (not qada) on day `di`.
fn has_done(records: &Vec<Prayer>, p: PrayerType, di: i64) -> (r: bool)
    ensures
        r == rec_done_for(records@, p, di as int),
{
    let mut k: usize = 0;
    while k < records.len()
        invariant
            k <= records@.len(),
            forall|j: int|
                0 <= j < k ==> !(records@[j].prayer_type == p && records@[j].status
                    is Done && !records@[j].is_qada && records@[j].date.is_valid()
                    && spec_day_index(records@[j].date) == di),
        decreases records@.len() - k,
    {
        let rec = &records[k];
        if rec.prayer_type == p && matches!(rec.status, crate::prayer::PrayerStatus::Done)
            && !rec.is_qada && rec.date.valid() {
            if day_index(&rec.date) == di {
                return true;
            }
        }
        k = k + 1;
    }
    false
}

/// Whether the day with this index is a full day.
fn is_full(records: &Vec<Prayer>, di: i64) -> (r: bool)
    ensures
        r == is_full_day(records@, di as int),
{
    let f = has_done(records, PrayerType::Fajr, di);
    let z = has_done(records, PrayerType::Zuhr, di);
    let a = has_done(records, PrayerType::Asr, di);
    let m = has_done(records, PrayerType::Maghrib, di);
    let i = has_done(records, PrayerType::Isha, di);
    let all = f && z && a && m && i;
    proof {
        if all {
            assert forall|p: PrayerType| rec_done_for(records@, p, di as int) by {
                match p {
                    PrayerType::Fajr => assert(rec_done_for(records@, PrayerType::Fajr, di as int)),
                    PrayerType::Zuhr => assert(rec_done_for(records@, PrayerType::Zuhr, di as int)),
                    PrayerType::Asr => assert(rec_done_for(records@, PrayerType::Asr, di as int)),
                    PrayerType::Maghrib => assert(rec_done_for(
                        records@,
                        PrayerType::Maghrib,
                        di as int,
                    )),
                    PrayerType::Isha => assert(rec_done_for(records@, PrayerType::Isha, di as int)),
                }
            }
        }
    }
    all
}

/// A full day's index is the day index of some validly dated record,
/// so it lies within the calendar's range.
proof fn lemma_full_day_bounds(recs: Seq<Prayer>, di: int)
    requires
        is_full_day(recs, di),
    ensures
        0 <= di <= crate::date::max_day_index(),
{
    assert(rec_done_for(recs, PrayerType::Fajr, di));
    let w = choose|w: int|
        0 <= w < recs.len() && recs[w].prayer_type == PrayerType::Fajr && recs[w].status
            is Done && !recs[w].is_qada && recs[w].date.is_valid() && spec_day_index(recs[w].date)
            == di;
    crate::date::lemma_day_index_bounds(recs[w].date);
}

/// Strictly ascending order.
pub open spec fn sorted_strict(f: Seq<i64>) -> bool {
    forall|i: int, j: int| 0 <= i < j < f.len() ==> f[i] < f[j]
}

/// Whether a vector holds a value.
fn contains_i64(v: &Vec<i64>, x: i64) -> (r: bool)
    ensures
        r == v@.contains(x),
{
    let mut k: usize = 0;
    while k < v.len()
        invariant
            k <= v@.len(),
            forall|j: int| 0 <= j < k ==> v@[j] != x,
        decreases v@.len() - k,
    {
        if v[k] == x {
            return true;
        }
        k = k + 1;
    }
    proof {
        assert(forall|j: int| 0 <= j < v@.len() ==> v@[j] != x);
    }
    false
}

/// Insert a fresh value into a strictly sorted vector, keeping it
/// strictly sorted.
fn insert_sorted(v: &mut Vec<i64>, x: i64)
    requires
        sorted_strict(old(v)@),
        !old(v)@.contains(x),
    ensures
        sorted_strict(final(v)@),
        final(v)@.len() == old(v)@.len() + 1,
        forall|y: i64| #[trigger] final(v)@.contains(y) <==> (old(v)@.contains(y) || y == x),
{
    let mut pos: usize = 0;
    while pos < v.len() && v[pos] < x
        invariant
            pos <= v@.len(),
            forall|j: int| 0 <= j < pos ==> v@[j] < x,
        decreases v@.len() - pos,
    {
        pos = pos + 1;
    }
    proof {
        assert(forall|j: int| pos <= j < v@.len() ==> v@[j] > x || v@[j] == x);
        assert(forall|j: int| pos <= j < v@.len() ==> v@[j] != x) by {
            assert forall|j: int| pos <= j < v@.len() implies v@[j] != x by {
                if v@[j] == x {
                    assert(v@.contains(x));
                }
            }
        }
    }
    let ghost before = v@;
    v.insert(pos, x);
    proof {
        assert(v@ == before.insert(pos as int, x));
        assert forall|i: int, j: int| 0 <= i < j < v@.len() implies v@[i] < v@[j] by {
            assert(v@[i] == if i < pos {
                before[i]
            } else if i == pos {
                x
            } else {
                before[i - 1]
            });
            assert(v@[j] == if j < pos {
                before[j]
            } else if j == pos {
                x
            } else {
                before[j - 1]
            });
        }
        assert forall|y: i64| #[trigger] v@.contains(y) implies (before.contains(y) || y == x) by {
            let w = choose|w: int| 0 <= w < v@.len() && v@[w] == y;
            if w < pos {
                assert(before[w] == y);
            } else if w > pos {
                assert(before[w - 1] == y);
            }
        }
        assert forall|y: i64| (before.contains(y) || y == x) implies #[trigger] v@.contains(y) by {
            if y == x {
                assert(v@[pos as int] == x);
            } else {
                let w = choose|w: int| 0 <= w < before.len() && before[w] == y;
                if w < pos {
                    assert(v@[w] == y);
                } else {
                    assert(v@[w + 1] == y);
                }
            }
        }
    }
}

/// Collect the day indices of every full day present in the records,
/// strictly sorted ascending.
fn collect_full_days(records: &Vec<Prayer>) -> (r: Vec<i64>)
    ensures
        sorted_strict(r@),
        forall|di: i64| #[trigger] r@.contains(di) <==> is_full_day(records@, di as int),
        r@.len() <= records@.len(),
{
    let mut fulls: Vec<i64> = Vec::new();
    let mut k: usize = 0;
    while k < records.len()
        invariant
            k <= records@.len(),
            sorted_strict(fulls@),
            fulls@.len() <= k,
            forall|di: i64| #[trigger]
                fulls@.contains(di) ==> is_full_day(records@, di as int),
            forall|j: int|
                0 <= j < k && records@[j].date.is_valid() && is_full_day(
                    records@,
                    spec_day_index(records@[j].date),
                ) ==> fulls@.contains(spec_day_index(records@[j].date) as i64),
        decreases records@.len() - k,
    {
        let rec = &records[k];
        if rec.date.valid() {
            let di = day_index(&rec.date);
            if !contains_i64(&fulls, di) {
                if is_full(records, di) {
                    insert_sorted(&mut fulls, di);
                }
            }
        }
        k = k + 1;
    }
    proof {
        assert forall|di: i64| is_full_day(records@, di as int) implies #[trigger] fulls@.contains(
            di,
        ) by {
            assert(rec_done_for(records@, PrayerType::Fajr, di as int));
            let w = choose|w: int|
                0 <= w < records@.len() && records@[w].prayer_type == PrayerType::Fajr
                    && records@[w].status is Done && !records@[w].is_qada
                    && records@[w].date.is_valid() && spec_day_index(records@[w].date) == di as int;
            assert(fulls@.contains(spec_day_index(records@[w].date) as i64));
        }
    }
    fulls
}

/// The length of the consecutive run within a strictly sorted sequence
/// that ends at position `m`.
pub open spec fn spec_max_run(f: Seq<i64>, m: int) -> int
    decreases m,
{
    if m <= 0 {
        1
    } else if f[m] == f[m - 1] + 1 {
        spec_max_run(f, m - 1) + 1
    } else {
        1
    }
}

/// The in-sequence run length is always at least one.
proof fn lemma_max_run_pos(f: Seq<i64>, m: int)
    ensures
        spec_max_run(f, m) >= 1,
    decreases (if m > 0 {
        m
    } else {
        0
    }),
{
    if m > 0 {
        lemma_max_run_pos(f, m - 1);
    }
}

/// In a strictly sorted sequence of exactly the full days, any run of
/// consecutive full days ending at element `m` is no longer than the
/// in-sequence run ending there.
proof fn lemma_chain_bounded(recs: Seq<Prayer>, f: Seq<i64>, m: int, n: int)
    requires
        sorted_strict(f),
        forall|di: i64| #[trigger] f.contains(di) <==> is_full_day(recs, di as int),
        0 <= m < f.len(),
        chain(recs, f[m] as int, n),
        n >= 1,
    ensures
        n <= spec_max_run(f, m),
    decreases n,
{
    lemma_max_run_pos(f, m);
    if n >= 2 {
        assert(is_full_day(recs, f[m] as int - 1));
        lemma_full_day_bounds(recs, f[m] as int - 1);
        let prev: i64 = (f[m] - 1) as i64;
        assert(is_full_day(recs, prev as int));
        assert(f.contains(prev));
        let w = choose|w: int| 0 <= w < f.len() && f[w] == prev;
        assert(w == m - 1) by {
            if w < m - 1 {
                assert(f[w] < f[m - 1] < f[m]);
            } else if w >= m {
                assert(f[w] >= f[m]);
            }
        }
        assert(chain(recs, f[m - 1] as int, n - 1)) by {
            assert forall|di: int| f[m - 1] - (n - 1) < di <= f[m - 1] implies is_full_day(
                recs,
                di,
            ) by {
                assert(f[m] - n < di <= f[m]);
            }
        }
        lemma_chain_bounded(recs, f, m - 1, n - 1);
        assert(m >= 1);
        assert(f[m] == f[m - 1] + 1);
        assert(spec_max_run(f, m) == spec_max_run(f, m - 1) + 1);
    }
}

/// The best streak over a strictly sorted list of full-day indices: the
/// longest run of values that are each exactly one day after the
/// previous one.
pub fn calculate_best_streak(fulls: &Vec<i64>, records: &Vec<Prayer>) -> (r: u32)
    requires
        sorted_strict(fulls@),
        forall|di: i64| #[trigger] fulls@.contains(di) <==> is_full_day(records@, di as int),
        fulls@.len() <= 0xFFFF_FFFF,
    ensures
        r > 0 ==> exists|e: int| chain(records@, e, r as int),
        forall|e: int, n: int| n > r ==> !#[trigger] chain(records@, e, n),
{
    let mut best: usize = 0;
    let mut run: usize = 0;
    let ghost mut best_end: int = 0;
    let mut idx: usize = 0;
    while idx < fulls.len()
        invariant
            sorted_strict(fulls@),
            forall|di: i64| #[trigger] fulls@.contains(di) <==> is_full_day(records@, di as int),
            idx <= fulls@.len(),
            idx == 0 ==> run == 0 && best == 0,
            idx > 0 ==> run == spec_max_run(fulls@, idx - 1) && run >= 1,
            run <= idx,
            best <= idx,
            idx > 0 ==> chain(records@, fulls@[idx - 1] as int, run as int),
            best > 0 ==> chain(records@, best_end, best as int),
            forall|m: int| 0 <= m < idx ==> spec_max_run(fulls@, m) <= best as int,
        decreases fulls@.len() - idx,
    {
        let cur: i64 = fulls[idx];
        if idx == 0 || fulls[idx - 1] != cur - 1 {
            run = 1;
            proof {
                assert(fulls@.contains(cur));
                assert(is_full_day(records@, cur as int));
                assert(chain(records@, cur as int, 1));
            }
        } else {
            let ghost old_run = run as int;
            run = run + 1;
            proof {
                assert(spec_max_run(fulls@, idx as int) == old_run + 1);
                assert(fulls@.contains(cur));
                assert(chain(records@, fulls@[idx - 1] as int, old_run));
                assert forall|di: int| cur - (old_run + 1) < di <= cur implies is_full_day(
                    records@,
                    di,
                ) by {
                    if di == cur {
                        assert(is_full_day(records@, cur as int));
                    } else {
                        assert(fulls@[idx - 1] - old_run < di <= fulls@[idx - 1]);
                    }
                }
                assert(chain(records@, cur as int, run as int));
            }
        }
        if run > best {
            best = run;
            proof {
                best_end = cur as int;
            }
        }
        idx = idx + 1;
    }
    proof {
        assert forall|e: int, n: int| n > best implies !#[trigger] chain(records@, e, n) by {
            if chain(records@, e, n) {
                assert(chain(records@, e, best as int + 1)) by {
                    assert forall|di: int| e - (best as int + 1) < di <= e implies is_full_day(
                        records@,
                        di,
                    ) by {
                        assert(e - n < di <= e);
                    }
                }
                assert(is_full_day(records@, e));
                lemma_full_day_bounds(records@, e);
                assert(fulls@.contains(e as i64));
                let m = choose|m: int| 0 <= m < fulls@.len() && fulls@[m] == e as i64;
                lemma_chain_bounded(records@, fulls@, m, best as int + 1);
                assert(spec_max_run(fulls@, m) <= best as int);
                assert(false);
            }
        }
    }
    best as u32
}

/// The streak analyzer over its record store.
pub struct StatsRepo;

impl StatsRepo {
    /// Derive the streak pair from all completion records.
    ///
    /// The current streak counts consecutive full days ending at today;
    /// an incomplete today does not break it — the walk then simply
    /// starts at yesterday. The best streak is the longest consecutive
    /// run anywhere in history. No records at all yields zero for both.
    pub fn calculate_streak(records: &Vec<Prayer>, today: &Date) -> (r: Streak)
        requires
            today.is_valid(),
            records@.len() <= 0xFFFF_FFFF,
        ensures
            ({
                let ti = spec_day_index(*today);
                let start = if is_full_day(records@, ti) {
                    ti
                } else {
                    ti - 1
                };
                &&& chain(records@, start, r.current as int)
                &&& !is_full_day(records@, start - r.current)
                &&& r.current <= records@.len()
            }),
            r.best > 0 ==> exists|e: int| chain(records@, e, r.best as int),
            forall|e: int, n: int| n > r.best ==> !#[trigger] chain(records@, e, n),
    {
        let fulls = collect_full_days(records);
        let ti: i64 = day_index(today);
        let start: i64 = if is_full(records, ti) {
            ti
        } else {
            ti - 1
        };
        let mut j: usize = 0;
        let mut found: bool = false;
        while j < fulls.len() && !found
            invariant
                j <= fulls@.len(),
                !found ==> forall|m: int| 0 <= m < j ==> fulls@[m] != start,
                found ==> j < fulls@.len() && fulls@[j as int] == start,
            decreases fulls@.len() - j + (if found {
                0int
            } else {
                1int
            }),
        {
            if fulls[j] == start {
                found = true;
            } else {
                j = j + 1;
            }
        }
        let current: u32 = if !found {
            proof {
                assert(!fulls@.contains(start));
                assert(!is_full_day(records@, start as int));
                assert(chain(records@, start as int, 0));
            }
            0
        } else {
            let mut k: usize = j;
            let mut cnt: usize = 1;
            let flen: usize = fulls.len();
            proof {
                assert(fulls@.contains(fulls@[j as int]));
                assert(chain(records@, start as int, 1));
            }
            while k > 0 && fulls[k - 1] == fulls[k] - 1
                invariant
                    k <= j < fulls@.len(),
                    flen == fulls@.len(),
                    j < flen,
                    sorted_strict(fulls@),
                    forall|di: i64| #[trigger]
                        fulls@.contains(di) <==> is_full_day(records@, di as int),
                    fulls@[j as int] == start,
                    cnt == j - k + 1,
                    fulls@[k as int] == start - (j - k),
                    chain(records@, start as int, cnt as int),
                decreases k,
            {
                k = k - 1;
                cnt = cnt + 1;
                proof {
                    assert(fulls@.contains(fulls@[k as int]));
                    assert(is_full_day(records@, fulls@[k as int] as int));
                    assert forall|di: int| start - cnt < di <= start implies is_full_day(
                        records@,
                        di,
                    ) by {
                        if di == start - (cnt - 1) {
                            assert(is_full_day(records@, fulls@[k as int] as int));
                        } else {
                            assert(start - (cnt - 1) < di <= start);
                        }
                    }
                }
            }
            proof {
                let boundary = start as int - cnt;
                assert(!is_full_day(records@, boundary)) by {
                    if is_full_day(records@, boundary) {
                        assert(boundary == fulls@[k as int] - 1);
                        lemma_full_day_bounds(records@, boundary);
                        assert(fulls@.contains(boundary as i64));
                        let w = choose|w: int| 0 <= w < fulls@.len() && fulls@[w] == boundary as i64;
                        if k > 0 {
                            assert(fulls@[k - 1] != fulls@[k as int] - 1);
                            if w < k - 1 {
                                assert(fulls@[w] < fulls@[k - 1] < fulls@[k as int]);
                            } else if w >= k {
                                assert(fulls@[w] >= fulls@[k as int]);
                            }
                            assert(false);
                        } else {
                            assert(fulls@[w] < fulls@[0]);
                            assert(false);
                        }
                    }
                }
                assert(cnt <= fulls@.len());
            }
            cnt as u32
        };
        let best = calculate_best_streak(&fulls, records);
        Streak { current, best }
    }

    /// One completion summary per day of `[start, end]` that has any
    /// record: how many prayers are recorded and how many of them are
    /// done, in calendar order. Days without records are omitted; counts
    /// clip at 255.
    pub fn get_daily_stats_range(records: &Vec<Prayer>, start: &Date, end: &Date) -> (r: Vec<
        DailyStats,
    >)
        requires
            start.is_valid(),
            end.is_valid(),
            records@.len() <= 0xFFFF_FFFF,
        ensures
            ({
                let fs = stats_dates(records@, *start, *end);
                &&& r@.len() == fs.len()
                &&& forall|i: int|
                    0 <= i < fs.len() ==> (#[trigger] r@[i]).date@ == spec_date_string(fs[i])
                        && r@[i].prayers_done == clip255(
                        date_done(records@, spec_day_index(fs[i])),
                    ) && r@[i].prayers_total == clip255(date_total(records@, spec_day_index(fs[i])))
            }),
    {
        let mut out: Vec<DailyStats> = Vec::new();
        let lo: i64 = day_index(start);
        let hi: i64 = day_index(end);
        if lo > hi {
            proof {
                reveal(Seq::filter);
                assert(spec_date_seq(*start, 0) =~= Seq::<Date>::empty());
                assert(out@.len() == stats_dates(records@, *start, *end).len());
            }
            return out;
        }
        let n: u32 = (hi - lo) as u32 + 1;
        let mut cur: Date = *start;
        let mut i: u32 = 0;
        proof {
            reveal(Seq::filter);
            assert(spec_date_seq(*start, 0) =~= Seq::<Date>::empty());
        }
        while i < n
            invariant
                start.is_valid(),
                end.is_valid(),
                records@.len() <= 0xFFFF_FFFF,
                spec_day_index(*start) == lo,
                spec_day_index(*end) == hi,
                lo <= hi,
                n == hi - lo + 1,
                i <= n,
                i < n ==> cur == nth_next(*start, i as nat) && cur.is_valid() && spec_day_index(
                    cur,
                ) == lo + i,
                ({
                    let fs = spec_date_seq(*start, i as nat).filter(
                        |d: Date| date_total(records@, spec_day_index(d)) > 0,
                    );
                    &&& out@.len() == fs.len()
                    &&& forall|k: int|
                        0 <= k < fs.len() ==> (#[trigger] out@[k]).date@ == spec_date_string(fs[k])
                            && out@[k].prayers_done == clip255(
                            date_done(records@, spec_day_index(fs[k])),
                        ) && out@[k].prayers_total == clip255(
                            date_total(records@, spec_day_index(fs[k])),
                        )
                }),
            decreases n - i,
        {
            proof {
                crate::date::lemma_day_index_bounds(*end);
            }
            let (done, total) = count_for_date(records, day_index(&cur));
            let ghost prefix = spec_date_seq(*start, i as nat);
            if total > 0 {
                let done8: u8 = if done > 255 {
                    255
                } else {
                    done as u8
                };
                let total8: u8 = if total > 255 {
                    255
                } else {
                    total as u8
                };
                out.push(DailyStats { date: format_date(&cur), prayers_done: done8, prayers_total: total8 });
            }
            proof {
                lemma_date_seq_push(*start, i as nat);
                reveal(Seq::filter);
                assert(spec_date_seq(*start, (i + 1) as nat) =~= prefix.push(cur));
                assert(prefix.push(cur).drop_last() =~= prefix);
                assert(prefix.push(cur).last() == cur);
            }
            if i + 1 < n {
                cur = next_date(&cur);
                proof {
                    crate::date::lemma_nth_next_unfold(*start, i as nat);
                }
            }
            i = i + 1;
        }
        proof {
            assert(stats_dates(records@, *start, *end) =~= spec_date_seq(*start, n as nat).filter(
                |d: Date| date_total(records@, spec_day_index(d)) > 0,
            ));
        }
        out
    }
}

/// The record rows that fall on the day with this index, qada excluded.
pub open spec fn date_total(recs: Seq<Prayer>, di: int) -> int {
    recs.filter(
        |r: Prayer| !r.is_qada && r.date.is_valid() && spec_day_index(r.date) == di,
    ).len() as int
}

/// Of those, the rows marked done.
pub open spec fn date_done(recs: Seq<Prayer>, di: int) -> int {
    recs.filter(
        |r: Prayer| !r.is_qada && r.date.is_valid() && spec_day_index(r.date) == di && r.status
            is Done,
    ).len() as int
}

/// The days of `[start, end]` on which any record falls.
pub open spec fn stats_dates(recs: Seq<Prayer>, start: Date, end: Date) -> Seq<Date> {
    let n = if spec_day_index(start) <= spec_day_index(end) {
        spec_day_index(end) - spec_day_index(start) + 1
    } else {
        0
    };
    spec_date_seq(start, n as nat).filter(|d: Date| date_total(recs, spec_day_index(d)) > 0)
}

/// A count clipped to fit the one-byte summary fields.
pub open spec fn clip255(n: int) -> int {
    if n > 255 {
        255
    } else {
        n
    }
}

/// Count the records on one day: `(done, total)`, qada excluded.
fn count_for_date(records: &Vec<Prayer>, di: i64) -> (r: (u32, u32))
    requires
        records@.len() <= 0xFFFF_FFFF,
    ensures
        r.0 == date_done(records@, di as int),
        r.1 == date_total(records@, di as int),
{
    let ghost total_pred = |r: Prayer|
        !r.is_qada && r.date.is_valid() && spec_day_index(r.date) == di as int;
    let ghost done_pred = |r: Prayer|
        !r.is_qada && r.date.is_valid() && spec_day_index(r.date) == di as int && r.status is Done;
    let mut done: u32 = 0;
    let mut total: u32 = 0;
    let mut k: usize = 0;
    proof {
        reveal(Seq::filter);
        assert(records@.take(0) =~= Seq::<Prayer>::empty());
    }
    while k < records.len()
        invariant
            k <= records@.len() <= 0xFFFF_FFFF,
            total == records@.take(k as int).filter(total_pred).len(),
            done == records@.take(k as int).filter(done_pred).len(),
            total <= k,
            done <= k,
            total_pred == (|r: Prayer|
                !r.is_qada && r.date.is_valid() && spec_day_index(r.date) == di as int),
            done_pred == (|r: Prayer|
                !r.is_qada && r.date.is_valid() && spec_day_index(r.date) == di as int && r.status
                    is Done),
        decreases records@.len() - k,
    {
        let ghost prefix = records@.take(k as int);
        let rec = &records[k];
        proof {
            reveal(Seq::filter);
            assert(records@.take(k as int + 1) =~= prefix.push(records@[k as int]));
            assert(prefix.push(records@[k as int]).drop_last() =~= prefix);
            assert(prefix.push(records@[k as int]).last() == records@[k as int]);
        }
        if !rec.is_qada && rec.date.valid() {
            if day_index(&rec.date) == di {
                total = total + 1;
                if matches!(rec.status, crate::prayer::PrayerStatus::Done) {
                    done = done + 1;
                }
            }
        }
        k = k + 1;
    }
    proof {
        assert(records@.take(records@.len() as int) =~= records@);
    }
    (done, total)
}

} // verus!
