//! Per-day completion counts, the derived streak pair, and the weekly
//! grid summaries.

use vstd::prelude::*;

verus! {

/// How many prayers were completed on a date, out of how many recorded.
#[derive(Clone, Debug)]
pub struct DailyStats {
    pub date: String,
    pub prayers_done: u8,
    pub prayers_total: u8,
}

/// The derived streak pair: consecutive fully-completed days ending at
/// today, and the best such run ever. Recomputed on demand, never stored.
#[derive(Clone, Copy, Debug, PartialEq, Eq, Structural)]
pub struct Streak {
    pub current: u32,
    pub best: u32,
}

impl Default for Streak {
    /// An empty history yields a zero streak.
    fn default() -> (r: Streak)
        ensures
            r.current == 0 && r.best == 0,
    {
        Streak { current: 0, best: 0 }
    }
}

/// The total prayers completed over a run of daily stats.
pub open spec fn spec_total_done(days: Seq<DailyStats>) -> int
    decreases days.len(),
{
    if days.len() == 0 {
        0
    } else {
        spec_total_done(days.drop_last()) + days.last().prayers_done as int
    }
}

/// How many of the days have all five obligation prayers done.
pub open spec fn spec_full_day_count(days: Seq<DailyStats>) -> int
    decreases days.len(),
{
    if days.len() == 0 {
        0
    } else {
        spec_full_day_count(days.drop_last()) + if days.last().prayers_done >= 5 {
            1int
        } else {
            0int
        }
    }
}

/// A week (or any span) of daily completion stats.
#[derive(Clone, Debug)]
pub struct WeeklyGrid {
    pub days: Vec<DailyStats>,
}

impl WeeklyGrid {
    pub fn new(days: Vec<DailyStats>) -> (r: WeeklyGrid)
        ensures
            r.days@ == days@,
    {
        WeeklyGrid { days }
    }

    /// Sum of completed prayers over the span.
    pub fn total_done(&self) -> (r: u32)
        requires
            self.days@.len() <= 10000,
        ensures
            r == spec_total_done(self.days@),
    {
        let mut sum: u32 = 0;
        let mut i: usize = 0;
        while i < self.days.len()
            invariant
                i <= self.days@.len() <= 10000,
                sum == spec_total_done(self.days@.take(i as int)),
                sum <= i * 255,
            decreases self.days@.len() - i,
        {
            proof {
                assert(self.days@.take(i + 1).drop_last() =~= self.days@.take(i as int));
                assert(self.days@.take(i + 1).last() == self.days@[i as int]);
            }
            sum = sum + self.days[i].prayers_done as u32;
            i = i + 1;
        }
        proof {
            assert(self.days@.take(self.days@.len() as int) =~= self.days@);
        }
        sum
    }

    /// How many days of the span had all five prayers done.
    pub fn days_with_full_prayers(&self) -> (r: u32)
        requires
            self.days@.len() <= 10000,
        ensures
            r == spec_full_day_count(self.days@),
    {
        let mut count: u32 = 0;
        let mut i: usize = 0;
        while i < self.days.len()
            invariant
                i <= self.days@.len() <= 10000,
                count == spec_full_day_count(self.days@.take(i as int)),
                count <= i,
            decreases self.days@.len() - i,
        {
            proof {
                assert(self.days@.take(i + 1).drop_last() =~= self.days@.take(i as int));
                assert(self.days@.take(i + 1).last() == self.days@[i as int]);
            }
            if self.days[i].prayers_done >= 5 {
                count = count + 1;
            }
            i = i + 1;
        }
        proof {
            assert(self.days@.take(self.days@.len() as int) =~= self.days@);
        }
        count
    }
}

} // verus!
