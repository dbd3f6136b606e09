use chrono::{Datelike, NaiveDate};
use lkr_planner::calendar::absences::map_absence_raw_events_for_week;
use lkr_planner::calendar::types::{CalendarEventKind, RawVEvent};
use lkr_planner::dates::CalendarDate;

fn day(y: i32, m: u32, d: u32) -> CalendarDate {
    CalendarDate { day: NaiveDate::from_ymd_opt(y, m, d).unwrap().num_days_from_ce() }
}

#[test]
fn absences_absence_event_has_absence_kind_title_and_no_project_status() {
    let raw = RawVEvent {
        uid: "abs-1".to_string(),
        summary: "Urlaub".to_string(),
        description: String::new(),
        dtstart: "2026-04-28".to_string(),
        ..Default::default()
    };
    let events = map_absence_raw_events_for_week(vec![raw], day(2026, 4, 27));
    assert_eq!(events.len(), 1);
    assert_eq!(events[0].kind, CalendarEventKind::Absence);
    assert_eq!(events[0].title, "Urlaub");
    assert_eq!(events[0].project_status, None);
}

#[test]
fn absences_maps_multiple_absence_events_from_raw() {
    let raw = vec![
        RawVEvent {
            uid: "abs-1".to_string(),
            summary: "Urlaub".to_string(),
            dtstart: "2026-04-28".to_string(),
            ..Default::default()
        },
        RawVEvent {
            uid: "abs-2".to_string(),
            summary: "Krankenstand".to_string(),
            dtstart: "2026-04-29".to_string(),
            ..Default::default()
        },
    ];
    let events = map_absence_raw_events_for_week(raw, day(2026, 4, 27));
    assert_eq!(events.len(), 2);
    assert!(events.iter().all(|e| e.kind == CalendarEventKind::Absence));
    assert!(events.iter().all(|e| e.project_status.is_none()));
}

#[test]
fn absences_returns_empty_when_no_absence_raw_events() {
    let events = map_absence_raw_events_for_week(vec![], day(2026, 4, 27));
    assert!(events.is_empty());
}

#[test]
fn absences_absence_fetch_failure_produces_no_absence_events() {
    let raw: Vec<RawVEvent> = Vec::new();
    let events = map_absence_raw_events_for_week(raw, day(2026, 4, 27));
    assert!(events.is_empty());
}

#[test]
fn absences_multi_day_absence_expands_into_one_event_per_day_in_week() {
    let raw = vec![RawVEvent {
        uid: "abs-1".to_string(),
        summary: "Urlaub".to_string(),
        dtstart: "2026-04-27".to_string(),
        dtend: Some(day(2026, 5, 2)),
        ..Default::default()
    }];
    let events = map_absence_raw_events_for_week(raw, day(2026, 4, 27));
    assert_eq!(events.len(), 5);
    assert_eq!(events[0].date, "2026-04-27");
    assert_eq!(events[4].date, "2026-05-01");
    assert!(events.iter().all(|e| e.kind == CalendarEventKind::Absence));
    assert!(events.iter().all(|e| e.title == "Urlaub"));
}

#[test]
fn absences_multi_day_absence_starting_before_week_only_covers_days_in_week() {
    let raw = vec![RawVEvent {
        uid: "abs-2".to_string(),
        summary: "Krankenstand".to_string(),
        dtstart: "2026-04-20".to_string(),
        dtend: Some(day(2026, 4, 29)),
        ..Default::default()
    }];
    let events = map_absence_raw_events_for_week(raw, day(2026, 4, 27));
    assert_eq!(events.len(), 2);
    assert_eq!(events[0].date, "2026-04-27");
    assert_eq!(events[1].date, "2026-04-28");
}

#[test]
fn absences_absence_with_timed_dtstart_and_no_dtend_produces_single_event() {
    let raw = vec![RawVEvent {
        uid: "abs-timed".to_string(),
        summary: "Kurzurlaub".to_string(),
        dtstart: "2026-04-28".to_string(),
        dtend: None,
        start_time: Some("08:00".to_string()),
        end_time: Some("17:00".to_string()),
        ..Default::default()
    }];
    let events = map_absence_raw_events_for_week(raw, day(2026, 4, 27));
    assert_eq!(events.len(), 1);
    assert_eq!(events[0].date, "2026-04-28");
    assert_eq!(events[0].kind, CalendarEventKind::Absence);
}

#[test]
fn absences_absence_events_are_never_classified_as_assignments_regardless_of_description() {
    let raw = vec![RawVEvent {
        uid: "abs-daylite".to_string(),
        summary: "Urlaub".to_string(),
        description: "daylite:/v1/projects/9999".to_string(),
        dtstart: "2026-04-28".to_string(),
        dtend: None,
        ..Default::default()
    }];
    let events = map_absence_raw_events_for_week(raw, day(2026, 4, 27));
    assert_eq!(events.len(), 1);
    assert_eq!(events[0].kind, CalendarEventKind::Absence);
    assert_eq!(events[0].project_status, None);
}
