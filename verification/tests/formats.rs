use sujood::clock::{format_time, parse_time, project, TimeOfDay};
use sujood::config::{
    default_calc_method, default_hijri_offset, default_location_name, default_madhab,
    default_timezone_offset, default_true, format_tz, format_tz_offset, parse_tz,
    parse_tz_offset, DhikrConfig,
};
use sujood::calculator::{calc_methods, parse_madhab, parse_method, Madhab, Method};
use sujood::date::{day_index, format_date, next_date, parse_date, Date};
use sujood::dhikr::{
    parse_dhikr_frequency, parse_dhikr_type, toggle_update, DhikrCategory, DhikrFrequency,
    DhikrType,
};
use sujood::error::EngineError;
use sujood::hijri::{hijri_month_name, to_hijri};
use sujood::prayer::{parse_prayer_status, parse_prayer_type, PrayerStatus, PrayerType};
use sujood::text::{format_duration_secs, progress_bar};

#[test]
fn constructing_a_date_checks_the_calendar() {
    assert_eq!(Date::new(2024, 2, 29), Some(Date { year: 2024, month: 2, day: 29 }));
    assert_eq!(Date::new(2023, 2, 29), None);
    assert_eq!(Date::new(2024, 0, 1), None);
    assert_eq!(Date::new(0, 1, 1), None);
}

#[test]
fn time_text_round_trips_exactly() {
    let t = TimeOfDay { minute_of_day: 5 * 60 + 17 };
    let s = format_time(&t);
    assert_eq!(s, "05:17");
    assert_eq!(parse_time(&s), Some(t));
    assert_eq!(parse_time("00:00"), Some(TimeOfDay { minute_of_day: 0 }));
    assert_eq!(parse_time("23:59"), Some(TimeOfDay { minute_of_day: 1439 }));
}

#[test]
fn bad_time_text_is_rejected() {
    assert_eq!(parse_time("24:00"), None);
    assert_eq!(parse_time("12:60"), None);
    assert_eq!(parse_time("1200"), None);
    assert_eq!(parse_time("12-00"), None);
    assert_eq!(parse_time("garbage"), None);
    assert_eq!(parse_time(""), None);
}

#[test]
fn date_text_round_trips_exactly() {
    let d = Date { year: 2024, month: 6, day: 1 };
    let s = format_date(&d);
    assert_eq!(s, "2024-06-01");
    assert_eq!(parse_date(&s), Some(d));
    assert_eq!(parse_date("0001-01-01"), Some(Date { year: 1, month: 1, day: 1 }));
}

#[test]
fn bad_date_text_is_rejected() {
    assert_eq!(parse_date("2024-13-01"), None);
    assert_eq!(parse_date("2024-02-30"), None);
    assert_eq!(parse_date("2023-02-29"), None);
    assert_eq!(parse_date("2024/06/01"), None);
    assert_eq!(parse_date("2024-6-1"), None);
    assert_eq!(parse_date("0000-01-01"), None);
}

#[test]
fn day_succession_handles_calendar_boundaries() {
    let base = Date { year: 2024, month: 2, day: 28 };
    let leap = next_date(&base);
    assert_eq!(leap, Date { year: 2024, month: 2, day: 29 });
    assert_eq!(next_date(&leap), Date { year: 2024, month: 3, day: 1 });
    assert_eq!(
        next_date(&Date { year: 2023, month: 12, day: 31 }),
        Date { year: 2024, month: 1, day: 1 }
    );
    assert_eq!(
        next_date(&Date { year: 2023, month: 2, day: 28 }),
        Date { year: 2023, month: 3, day: 1 }
    );
    let d = Date { year: 2024, month: 2, day: 28 };
    assert_eq!(day_index(&next_date(&d)), day_index(&d) + 1);
}

#[test]
fn projection_wraps_across_midnight() {
    assert_eq!(project(0, 300).minute_of_day, 300);
    assert_eq!(project(1400, 300).minute_of_day, 260);
    assert_eq!(project(100, -300).minute_of_day, 1240);
    assert_eq!(project(0, 0).minute_of_day, 0);
}

#[test]
fn durations_format_like_countdowns() {
    assert_eq!(format_duration_secs(0), "now");
    assert_eq!(format_duration_secs(-5), "now");
    assert_eq!(format_duration_secs(59), "0m");
    assert_eq!(format_duration_secs(2700), "45m");
    assert_eq!(format_duration_secs(3905), "1h 5m");
    assert_eq!(format_duration_secs(86400), "24h 0m");
}

#[test]
fn progress_bars_fill_by_rounded_share() {
    assert_eq!(progress_bar(0, 5, 4), "░░░░");
    assert_eq!(progress_bar(5, 5, 4), "████");
    assert_eq!(progress_bar(7, 5, 4), "████");
    assert_eq!(progress_bar(1, 2, 4), "██░░");
    assert_eq!(progress_bar(1, 3, 4), "█░░░");
    assert_eq!(progress_bar(3, 4, 4), "███░");
    assert_eq!(progress_bar(3, 0, 3), "░░░");
}

#[test]
fn tz_offsets_parse_in_every_accepted_shape() {
    assert_eq!(parse_tz_offset("5:30"), Some(330));
    assert_eq!(parse_tz_offset("+5:30"), Some(330));
    assert_eq!(parse_tz_offset("-5:30"), Some(-330));
    assert_eq!(parse_tz_offset("5"), Some(300));
    assert_eq!(parse_tz_offset("+5"), Some(300));
    assert_eq!(parse_tz_offset("-3"), Some(-180));
    assert_eq!(parse_tz_offset("5.5"), Some(330));
    assert_eq!(parse_tz_offset("-5.75"), Some(-345));
    assert_eq!(parse_tz_offset("0"), Some(0));
    assert_eq!(parse_tz_offset(""), None);
    assert_eq!(parse_tz_offset("abc"), None);
    assert_eq!(parse_tz_offset("5:"), None);
    assert_eq!(parse_tz_offset(":30"), None);
    assert_eq!(parse_tz_offset("5.5.5"), None);
}

#[test]
fn parse_tz_ignores_surrounding_whitespace() {
    assert_eq!(parse_tz("  +5:30  "), Some(330));
    assert_eq!(parse_tz("\t-3\n"), Some(-180));
    assert_eq!(parse_tz("   "), None);
}

#[test]
fn tz_offsets_format_with_sign_and_minutes() {
    assert_eq!(format_tz_offset(330), "+5:30");
    assert_eq!(format_tz_offset(-330), "-5:30");
    assert_eq!(format_tz_offset(300), "+5");
    assert_eq!(format_tz_offset(-60), "-1");
    assert_eq!(format_tz_offset(0), "+0");
    assert_eq!(format_tz(345), "+5:45");
}

#[test]
fn prayer_names_parse_case_insensitively() {
    assert_eq!(parse_prayer_type("fajr"), Some(PrayerType::Fajr));
    assert_eq!(parse_prayer_type("FAJR"), Some(PrayerType::Fajr));
    assert_eq!(parse_prayer_type("Dhuhr"), Some(PrayerType::Zuhr));
    assert_eq!(parse_prayer_type("dhuhur"), Some(PrayerType::Zuhr));
    assert_eq!(parse_prayer_type("Isha"), Some(PrayerType::Isha));
    assert_eq!(parse_prayer_type("sunrise"), None);
    assert_eq!(parse_prayer_type(""), None);
}

#[test]
fn prayer_metadata_is_stable() {
    let all = PrayerType::all();
    assert_eq!(all.len(), 5);
    assert_eq!(all[0].as_str(), "fajr");
    assert_eq!(all[4].display_name(), "Isha");
    assert_eq!(PrayerType::Maghrib.as_str(), "maghrib");
    assert_eq!(PrayerStatus::Done.as_str(), "done");
    assert_eq!(parse_prayer_status("missed"), Some(PrayerStatus::Missed));
    assert_eq!(parse_prayer_status("Done"), None);
}

#[test]
fn methods_and_madhabs_parse_exactly() {
    assert_eq!(parse_method("Karachi"), Ok(Method::Karachi));
    assert_eq!(parse_method("karachi"), Err(EngineError::InvalidContext));
    assert_eq!(parse_madhab("Hanafi"), Ok(Madhab::Hanafi));
    assert_eq!(parse_madhab("Shafi"), Ok(Madhab::Shafi));
    assert_eq!(parse_madhab("Shafi'i"), Ok(Madhab::Shafi));
    assert_eq!(parse_madhab("Maliki"), Err(EngineError::InvalidContext));
    let methods = calc_methods();
    assert_eq!(methods.len(), 13);
    for m in &methods {
        assert!(parse_method(m).is_ok());
    }
}

#[test]
fn dhikr_keys_and_toggle_rule() {
    assert_eq!(DhikrType::Checkbox.as_str(), "checkbox");
    assert_eq!(DhikrFrequency::Weekly.as_str(), "weekly");
    assert_eq!(DhikrCategory::Custom.as_str(), "custom");
    assert_eq!(parse_dhikr_type("counter"), Some(DhikrType::Counter));
    assert_eq!(parse_dhikr_type("tally"), None);
    assert_eq!(parse_dhikr_frequency("daily"), Some(DhikrFrequency::Daily));
    assert_eq!(parse_dhikr_frequency("monthly"), None);

    // A checkbox flips.
    assert_eq!(toggle_update(&DhikrType::Checkbox, 1, 0, false, None), (1, true));
    assert_eq!(toggle_update(&DhikrType::Checkbox, 1, 1, true, None), (1, false));
    // A counter adds and completes on reaching its target.
    assert_eq!(toggle_update(&DhikrType::Counter, 33, 31, false, None), (32, false));
    assert_eq!(toggle_update(&DhikrType::Counter, 33, 32, false, None), (33, true));
    assert_eq!(toggle_update(&DhikrType::Counter, 99, 10, false, Some(5)), (15, false));
}

#[test]
fn dhikr_config_defaults_are_on() {
    let c = DhikrConfig::default();
    assert!(c.enabled);
    assert!(c.show_in_main_view);
    assert!(c.custom.is_empty());
}

#[test]
fn other_defaults_match_the_shipped_configuration() {
    assert_eq!(default_location_name(), "Islamabad");
    assert_eq!(default_calc_method(), "MuslimWorldLeague");
    assert_eq!(default_madhab(), "Hanafi");
    assert_eq!(default_timezone_offset(), 300);
    assert_eq!(default_hijri_offset(), 0);
    assert!(default_true());
}

#[test]
fn hijri_conversion_names_the_month() {
    // Umm al-Qura: 2024-03-11 was 1 Ramadan 1445.
    let h = to_hijri(&Date { year: 2024, month: 3, day: 11 }).unwrap();
    assert_eq!(h.day, 1);
    assert_eq!(h.month, 9);
    assert_eq!(h.year, 1445);
    assert_eq!(h.month_name, "Ramadan");
    assert_eq!(h.formatted(), "1 Ramadan 1445");
}

#[test]
fn hijri_month_names_are_indexed_from_one() {
    assert_eq!(hijri_month_name(1), "Muharram");
    assert_eq!(hijri_month_name(12), "Dhu al-Hijjah");
    assert_eq!(hijri_month_name(0), "Unknown");
    assert_eq!(hijri_month_name(13), "Unknown");
}

#[test]
fn error_kinds_have_messages() {
    assert_eq!(
        EngineError::CalculationError.message(),
        "prayer time calculation failed"
    );
    assert_ne!(EngineError::Storage.message(), EngineError::InvalidContext.message());
}
