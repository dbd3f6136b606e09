use chrono::{Datelike, NaiveDate};
use lkr_planner::dates::CalendarDate;
use lkr_planner::health::{healthy_report, HealthStatusEnum};
use lkr_planner::holidays::{
    filter_holidays, holidays_in_range, is_cache_entry_fresh, replace_year, year_needs_fetch, years_for_week, NagerHoliday,
};
use lkr_planner::local_store::{store_parse_error, CachedHoliday, DisplaySettings, HolidayCacheEntry, LocalStore};

fn day(y: i32, m: u32, d: u32) -> CalendarDate {
    CalendarDate { day: NaiveDate::from_ymd_opt(y, m, d).unwrap().num_days_from_ce() }
}

fn entry(year: i32, fetched_at: &str) -> HolidayCacheEntry {
    HolidayCacheEntry { year, fetched_at: fetched_at.to_string(), holidays: vec![] }
}

fn cleanup_removes_entries_older_than_one_year() {
    let mut store = LocalStore { holiday_cache: vec![entry(2024, "2024-07-01"), entry(2023, "2024-06-29")], ..LocalStore::default() };
    store.cleanup_holiday_cache(day(2025, 6, 30));
    assert_eq!(store.holiday_cache.len(), 1);
    assert_eq!(store.holiday_cache[0].year, 2024);
}

fn cleanup_keeps_entries_within_one_year() {
    let mut store = LocalStore { holiday_cache: vec![entry(2025, "2025-06-01")], ..LocalStore::default() };
    store.cleanup_holiday_cache(day(2025, 6, 30));
    assert_eq!(store.holiday_cache.len(), 1);
}

fn cleanup_removes_all_entries_when_all_expired() {
    let mut store = LocalStore { holiday_cache: vec![entry(2023, "2024-06-29"), entry(2022, "2023-01-01")], ..LocalStore::default() };
    store.cleanup_holiday_cache(day(2025, 6, 30));
    assert!(store.holiday_cache.is_empty());
}

#[test]
fn types_cleanup_removes_entries_older_than_one_year() {
    cleanup_removes_entries_older_than_one_year();
}

#[test]
fn local_store_cleanup_removes_entries_older_than_one_year() {
    cleanup_removes_entries_older_than_one_year();
}

#[test]
fn types_cleanup_keeps_entries_within_one_year() {
    cleanup_keeps_entries_within_one_year();
}

#[test]
fn local_store_cleanup_keeps_entries_within_one_year() {
    cleanup_keeps_entries_within_one_year();
}

#[test]
fn types_cleanup_removes_all_entries_when_all_expired() {
    cleanup_removes_all_entries_when_all_expired();
}

#[test]
fn local_store_cleanup_removes_all_entries_when_all_expired() {
    cleanup_removes_all_entries_when_all_expired();
}

#[test]
fn cleanup_keeps_an_entry_whose_fetch_day_cannot_be_read() {
    let mut store = LocalStore { holiday_cache: vec![entry(2020, "kaputt")], ..LocalStore::default() };
    store.cleanup_holiday_cache(day(2025, 6, 30));
    assert_eq!(store.holiday_cache.len(), 1);
}

#[test]
fn display_settings_default_hides_non_plannable_employees() {
    assert!(DisplaySettings::default().hide_non_plannable_employees);
    assert!(LocalStore::default().display_settings.hide_non_plannable_employees);
}

#[test]
fn display_settings_default_hides_weekend() {
    assert!(!DisplaySettings::default().show_weekend);
    assert!(!LocalStore::default().display_settings.show_weekend);
}

#[test]
fn a_store_parse_error_names_the_file_and_the_detail() {
    let error = store_parse_error("/tmp/store.json", "expected value at line 1");
    assert!(error.technical_message.contains("/tmp/store.json"));
    assert!(error.technical_message.contains("expected value at line 1"));
    assert!(!error.user_message.is_empty());
}

fn nager(date: &str, name: &str, global: bool, counties: Option<&[&str]>) -> NagerHoliday {
    NagerHoliday {
        date: date.to_string(),
        local_name: name.to_string(),
        global,
        counties: counties.map(|c| c.iter().map(|s| s.to_string()).collect()),
    }
}

#[test]
fn includes_global_holidays() {
    let result = filter_holidays(vec![nager("2024-01-01", "Neujahr", true, None)]);
    assert_eq!(result.len(), 1);
    assert_eq!(result[0].name, "Neujahr");
    assert_eq!(result[0].date, "2024-01-01");
}

#[test]
fn includes_de_mv_specific_holidays() {
    let result = filter_holidays(vec![nager("2024-10-31", "Reformationstag", false, Some(&["DE-MV", "DE-HH"]))]);
    assert_eq!(result.len(), 1);
    assert_eq!(result[0].name, "Reformationstag");
}

#[test]
fn excludes_other_state_holidays() {
    let result = filter_holidays(vec![nager("2024-11-01", "Allerheiligen", false, Some(&["DE-BY", "DE-BW"]))]);
    assert_eq!(result.len(), 0);
}

#[test]
fn excludes_non_global_holidays_with_no_counties() {
    let result = filter_holidays(vec![nager("2024-06-01", "Lokaler Feiertag", false, None)]);
    assert_eq!(result.len(), 0);
}

#[test]
fn uses_local_name_as_holiday_name() {
    let result = filter_holidays(vec![nager("2024-12-25", "1. Weihnachtstag", true, None)]);
    assert_eq!(result[0].name, "1. Weihnachtstag");
}

#[test]
fn single_year_week_returns_one_year() {
    assert_eq!(years_for_week(day(2024, 6, 3), day(2024, 6, 9)), Some(vec![2024]));
}

#[test]
fn year_boundary_week_returns_two_years() {
    assert_eq!(years_for_week(day(2024, 12, 30), day(2025, 1, 5)), Some(vec![2024, 2025]));
}

fn cache_entry(year: i32, holidays: &[(&str, &str)]) -> HolidayCacheEntry {
    HolidayCacheEntry {
        year,
        fetched_at: "2026-01-01".to_string(),
        holidays: holidays.iter().map(|(date, name)| CachedHoliday { date: date.to_string(), name: name.to_string() }).collect(),
    }
}

#[test]
fn week_filter_merges_holidays_from_two_years() {
    let cache = vec![
        cache_entry(2024, &[("2024-12-25", "1. Weihnachtstag"), ("2024-12-31", "Silvester")]),
        cache_entry(2025, &[("2025-01-01", "Neujahr"), ("2025-04-18", "Karfreitag")]),
    ];
    let filtered = holidays_in_range(&cache, day(2024, 12, 30), day(2025, 1, 5));
    let dates: Vec<&str> = filtered.iter().map(|h| h.date.as_str()).collect();
    assert_eq!(dates, vec!["2024-12-31", "2025-01-01"]);
}

#[test]
fn week_filter_includes_holidays_on_weekend_days() {
    let start = day(2026, 1, 26);
    let cache = vec![cache_entry(2026, &[("2026-01-31", "Samstagsfeiertag"), ("2026-02-01", "Sonntagsfeiertag")])];
    let filtered = holidays_in_range(&cache, start, CalendarDate { day: start.day + 6 });
    let dates: Vec<&str> = filtered.iter().map(|h| h.date.as_str()).collect();
    assert_eq!(dates, vec!["2026-01-31", "2026-02-01"]);
}

#[test]
fn week_filter_excludes_holidays_outside_the_week() {
    let cache = vec![cache_entry(2026, &[("2026-01-25", "Davor"), ("2026-02-02", "Danach")])];
    let filtered = holidays_in_range(&cache, day(2026, 1, 26), day(2026, 2, 1));
    assert!(filtered.is_empty());
}

#[test]
fn cache_entry_is_fresh_within_30_days() {
    assert!(is_cache_entry_fresh(&entry(2024, "2024-06-10"), day(2024, 6, 30)));
}

#[test]
fn cache_entry_is_stale_after_30_days() {
    assert!(!is_cache_entry_fresh(&entry(2024, "2024-05-29"), day(2024, 6, 30)));
}

#[test]
fn cache_entry_is_fresh_exactly_at_30_days() {
    assert!(is_cache_entry_fresh(&entry(2024, "2024-05-31"), day(2024, 6, 30)));
}

#[test]
fn an_unreadable_fetch_day_is_never_fresh() {
    assert!(!is_cache_entry_fresh(&entry(2024, "gestern"), day(2024, 6, 30)));
}

#[test]
fn a_year_is_fetched_when_missing_or_stale_in_the_current_year() {
    let cache = vec![entry(2024, "2024-05-01"), entry(2023, "2023-01-01")];
    assert!(year_needs_fetch(&cache, 2024, 2024, day(2024, 6, 30)));
    assert!(!year_needs_fetch(&cache, 2023, 2024, day(2024, 6, 30)));
    assert!(year_needs_fetch(&cache, 2025, 2024, day(2024, 6, 30)));
}

#[test]
fn replacing_a_year_drops_its_old_entry() {
    let mut cache = vec![entry(2024, "2024-01-01"), entry(2023, "2023-01-01")];
    replace_year(&mut cache, entry(2024, "2024-06-30"));
    assert_eq!(cache.iter().filter(|e| e.year == 2024).count(), 1);
    assert!(cache.iter().any(|e| e.year == 2024 && e.fetched_at == "2024-06-30"));
    assert!(cache.iter().any(|e| e.year == 2023));
}

#[test]
fn a_healthy_report_carries_its_time_and_version() {
    let report = healthy_report("2026-01-01T00:00:00Z".to_string(), "0.1.0".to_string());
    assert!(matches!(report.status, HealthStatusEnum::Healthy));
    assert_eq!(report.timestamp, "2026-01-01T00:00:00Z");
    assert_eq!(report.version, "0.1.0");
}
