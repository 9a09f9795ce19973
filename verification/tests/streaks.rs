use sujood::date::Date;
use sujood::prayer::{Prayer, PrayerStatus, PrayerType};
use sujood::stats::{DailyStats, Streak, WeeklyGrid};
use sujood::streak::{calculate_best_streak, StatsRepo};

fn record(p: PrayerType, date: Date, status: PrayerStatus, is_qada: bool) -> Prayer {
    Prayer {
        id: None,
        prayer_type: p,
        date,
        status,
        is_qada,
        note: None,
        time: None,
    }
}

fn full_day(records: &mut Vec<Prayer>, date: Date) {
    for p in [
        PrayerType::Fajr,
        PrayerType::Zuhr,
        PrayerType::Asr,
        PrayerType::Maghrib,
        PrayerType::Isha,
    ] {
        records.push(record(p, date, PrayerStatus::Done, false));
    }
}

#[test]
fn streak_scenario_with_gap() {
    let mut records: Vec<Prayer> = Vec::new();
    full_day(&mut records, Date { year: 2024, month: 1, day: 1 });
    full_day(&mut records, Date { year: 2024, month: 1, day: 2 });
    full_day(&mut records, Date { year: 2024, month: 1, day: 3 });
    // 2024-01-04 is a gap.
    full_day(&mut records, Date { year: 2024, month: 1, day: 5 });

    let today = Date { year: 2024, month: 1, day: 5 };
    let streak = StatsRepo::calculate_streak(&records, &today);
    // No continuity across the gap: today alone counts.
    assert_eq!(streak.current, 1);
    assert_eq!(streak.best, 3);
}

#[test]
fn incomplete_today_does_not_break_the_streak() {
    let mut records: Vec<Prayer> = Vec::new();
    full_day(&mut records, Date { year: 2024, month: 2, day: 26 });
    full_day(&mut records, Date { year: 2024, month: 2, day: 27 });
    // Today (Feb 28) has only one prayer done so far.
    records.push(record(
        PrayerType::Fajr,
        Date { year: 2024, month: 2, day: 28 },
        PrayerStatus::Done,
        false,
    ));
    let today = Date { year: 2024, month: 2, day: 28 };
    let streak = StatsRepo::calculate_streak(&records, &today);
    assert_eq!(streak.current, 2);
    assert_eq!(streak.best, 2);
}

#[test]
fn streak_counts_across_month_and_leap_boundaries() {
    let mut records: Vec<Prayer> = Vec::new();
    // 2024 is a leap year: Feb 28, Feb 29, Mar 1 are consecutive.
    full_day(&mut records, Date { year: 2024, month: 2, day: 28 });
    full_day(&mut records, Date { year: 2024, month: 2, day: 29 });
    full_day(&mut records, Date { year: 2024, month: 3, day: 1 });
    let today = Date { year: 2024, month: 3, day: 1 };
    let streak = StatsRepo::calculate_streak(&records, &today);
    assert_eq!(streak.current, 3);
    assert_eq!(streak.best, 3);
}

#[test]
fn no_records_yields_zero_streak() {
    let records: Vec<Prayer> = Vec::new();
    let today = Date { year: 2024, month: 1, day: 5 };
    let streak = StatsRepo::calculate_streak(&records, &today);
    assert_eq!(streak.current, 0);
    assert_eq!(streak.best, 0);
}

#[test]
fn four_of_five_does_not_count() {
    let mut records: Vec<Prayer> = Vec::new();
    let date = Date { year: 2024, month: 1, day: 1 };
    for p in [PrayerType::Fajr, PrayerType::Zuhr, PrayerType::Asr, PrayerType::Maghrib] {
        records.push(record(p, date, PrayerStatus::Done, false));
    }
    // Isha missed: not a full day.
    records.push(record(PrayerType::Isha, date, PrayerStatus::Missed, false));
    let streak = StatsRepo::calculate_streak(&records, &date);
    assert_eq!(streak.current, 0);
    assert_eq!(streak.best, 0);
}

#[test]
fn qada_rows_never_count() {
    let mut records: Vec<Prayer> = Vec::new();
    let date = Date { year: 2024, month: 1, day: 1 };
    for p in [PrayerType::Fajr, PrayerType::Zuhr, PrayerType::Asr, PrayerType::Maghrib] {
        records.push(record(p, date, PrayerStatus::Done, false));
    }
    // The fifth is done only as qada, which is excluded entirely.
    records.push(record(PrayerType::Isha, date, PrayerStatus::Done, true));
    let streak = StatsRepo::calculate_streak(&records, &date);
    assert_eq!(streak.current, 0);
    assert_eq!(streak.best, 0);
}

#[test]
fn best_streak_on_sorted_indices() {
    let mut records: Vec<Prayer> = Vec::new();
    full_day(&mut records, Date { year: 2024, month: 1, day: 1 });
    full_day(&mut records, Date { year: 2024, month: 1, day: 2 });
    full_day(&mut records, Date { year: 2024, month: 1, day: 5 });
    let today = Date { year: 2024, month: 1, day: 9 };
    let streak = StatsRepo::calculate_streak(&records, &today);
    assert_eq!(streak.current, 0);
    assert_eq!(streak.best, 2);
    let empty: Vec<i64> = Vec::new();
    let none: Vec<Prayer> = Vec::new();
    assert_eq!(calculate_best_streak(&empty, &none), 0);
}

#[test]
fn default_streak_is_zero() {
    let s = Streak::default();
    assert_eq!(s.current, 0);
    assert_eq!(s.best, 0);
}

#[test]
fn daily_stats_summarise_each_recorded_day() {
    let mut records: Vec<Prayer> = Vec::new();
    full_day(&mut records, Date { year: 2024, month: 1, day: 1 });
    records.push(record(
        PrayerType::Fajr,
        Date { year: 2024, month: 1, day: 2 },
        PrayerStatus::Done,
        false,
    ));
    records.push(record(
        PrayerType::Zuhr,
        Date { year: 2024, month: 1, day: 2 },
        PrayerStatus::Missed,
        false,
    ));
    // A qada row on Jan 3 does not create a summary day.
    records.push(record(
        PrayerType::Asr,
        Date { year: 2024, month: 1, day: 3 },
        PrayerStatus::Done,
        true,
    ));
    let start = Date { year: 2024, month: 1, day: 1 };
    let end = Date { year: 2024, month: 1, day: 7 };
    let stats = StatsRepo::get_daily_stats_range(&records, &start, &end);
    assert_eq!(stats.len(), 2);
    assert_eq!(stats[0].date, "2024-01-01");
    assert_eq!(stats[0].prayers_done, 5);
    assert_eq!(stats[0].prayers_total, 5);
    assert_eq!(stats[1].date, "2024-01-02");
    assert_eq!(stats[1].prayers_done, 1);
    assert_eq!(stats[1].prayers_total, 2);

    // A reversed range is empty.
    let none = StatsRepo::get_daily_stats_range(&records, &end, &start);
    assert!(none.is_empty());
}

#[test]
fn weekly_grid_counts() {
    let days = vec![
        DailyStats { date: String::from("2024-01-01"), prayers_done: 5, prayers_total: 5 },
        DailyStats { date: String::from("2024-01-02"), prayers_done: 3, prayers_total: 5 },
        DailyStats { date: String::from("2024-01-03"), prayers_done: 5, prayers_total: 5 },
        DailyStats { date: String::from("2024-01-04"), prayers_done: 0, prayers_total: 5 },
    ];
    let grid = WeeklyGrid::new(days);
    assert_eq!(grid.total_done(), 13);
    assert_eq!(grid.days_with_full_prayers(), 2);
}
