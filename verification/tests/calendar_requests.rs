use chrono::{Datelike, NaiveDate};
use lkr_planner::calendar::caldav::{first_event, put_status};
use lkr_planner::calendar::report::{report_outcome, report_window};
use lkr_planner::dates::{day_from_text, CalendarDate};
use lkr_planner::holidays::{fetched_cache_entry, Holiday};

fn day(y: i32, m: u32, d: u32) -> CalendarDate {
    CalendarDate { day: NaiveDate::from_ymd_opt(y, m, d).unwrap().num_days_from_ce() }
}

const ONE_EVENT_REPORT: &str = r#"<?xml version="1.0" encoding="utf-8"?>
<d:multistatus xmlns:d="DAV:" xmlns:c="urn:ietf:params:xml:ns:caldav">
  <d:response>
    <d:href>/calendars/user/calendar/event1.ics</d:href>
    <d:propstat>
      <d:prop>
        <d:getetag>"etag-1"</d:getetag>
        <c:calendar-data>BEGIN:VCALENDAR
BEGIN:VEVENT
UID:uid-1
SUMMARY:Projekt Nord
DESCRIPTION:daylite:/v1/projects/3001
DTSTART;VALUE=DATE:20260309
END:VEVENT
END:VCALENDAR
</c:calendar-data>
      </d:prop>
    </d:propstat>
  </d:response>
</d:multistatus>"#;

#[test]
fn day_from_text_reads_an_iso_day_and_refuses_anything_else() {
    assert_eq!(day_from_text("2026-03-09"), Some(day(2026, 3, 9)));
    assert_eq!(day_from_text("2024-02-29"), Some(day(2024, 2, 29)));
    assert_eq!(day_from_text("2026-02-30"), None);
    assert_eq!(day_from_text("09.03.2026"), None);
    assert_eq!(day_from_text(""), None);
}

#[test]
fn report_window_spans_the_week_from_midnight_to_midnight() {
    let (start, end) = report_window(day(2026, 3, 9), 7).unwrap();
    assert_eq!(start, "20260309T000000Z");
    assert_eq!(end, "20260316T000000Z");
}

#[test]
fn report_window_of_one_day_crosses_the_year_end() {
    let (start, end) = report_window(day(2026, 12, 31), 1).unwrap();
    assert_eq!(start, "20261231T000000Z");
    assert_eq!(end, "20270101T000000Z");
}

#[test]
fn report_window_refuses_a_day_beyond_the_calendar() {
    assert_eq!(report_window(CalendarDate { day: i32::MAX }, 7), None);
}

#[test]
fn report_outcome_reads_the_events_of_a_successful_reply() {
    let events = report_outcome(Ok((207, ONE_EVENT_REPORT.to_string()))).unwrap();
    assert_eq!(events.len(), 1);
    assert_eq!(events[0].uid, "uid-1");
    assert_eq!(events[0].href, "/calendars/user/calendar/event1.ics");
    assert_eq!(events[0].etag, "\"etag-1\"");
    assert_eq!(events[0].dtstart, "2026-03-09");
}

#[test]
fn report_outcome_names_each_failure() {
    assert_eq!(
        report_outcome(Err("connection refused".to_string())),
        Err("Kalender konnte nicht abgerufen werden: connection refused".to_string())
    );
    assert_eq!(
        report_outcome(Ok((401, String::new()))),
        Err("Authentifizierung fehlgeschlagen. ZEP-Zugangsdaten prüfen.".to_string())
    );
    assert_eq!(report_outcome(Ok((500, String::new()))), Err("CalDAV-Server antwortete mit HTTP 500".to_string()));
    let unreadable = report_outcome(Ok((207, "<d:multistatus".to_string()))).unwrap_err();
    assert!(unreadable.starts_with("Kalenderantwort konnte nicht verarbeitet werden: XML konnte nicht geparst werden: "));
}

#[test]
fn first_event_takes_the_first_vevent_of_a_resource() {
    let ical = "BEGIN:VCALENDAR\r\nBEGIN:VEVENT\r\nUID:uid-a\r\nSUMMARY:A\r\nDTSTART;VALUE=DATE:20260309\r\nEND:VEVENT\r\nBEGIN:VEVENT\r\nUID:uid-b\r\nSUMMARY:B\r\nDTSTART;VALUE=DATE:20260310\r\nEND:VEVENT\r\nEND:VCALENDAR\r\n";
    let event = first_event(ical).unwrap().unwrap();
    assert_eq!(event.uid, "uid-a");
    assert_eq!(event.dtstart, "2026-03-09");
}

#[test]
fn first_event_of_a_calendar_without_events_is_none() {
    let ical = "BEGIN:VCALENDAR\r\nVERSION:2.0\r\nEND:VCALENDAR\r\n";
    assert_eq!(first_event(ical), Ok(None));
}

#[test]
fn put_status_accepts_success_and_names_any_other_status() {
    assert_eq!(put_status(201), Ok(()));
    assert_eq!(put_status(204), Ok(()));
    assert_eq!(put_status(412), Err("Kalenderserver antwortete mit HTTP 412".to_string()));
}

#[test]
fn fetched_cache_entry_stamps_the_holidays_with_today() {
    let holidays = vec![
        Holiday { date: "2026-01-01".to_string(), name: "Neujahr".to_string() },
        Holiday { date: "2026-10-31".to_string(), name: "Reformationstag".to_string() },
    ];
    let entry = fetched_cache_entry(2026, day(2026, 3, 9), holidays).unwrap();
    assert_eq!(entry.year, 2026);
    assert_eq!(entry.fetched_at, "2026-03-09");
    assert_eq!(entry.holidays.len(), 2);
    assert_eq!(entry.holidays[1].date, "2026-10-31");
    assert_eq!(entry.holidays[1].name, "Reformationstag");
}
