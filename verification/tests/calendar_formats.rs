use chrono::{Datelike, NaiveDate};
use lkr_planner::calendar::caldav::{parent_collection_url, resolve_href, targets_absence_calendar};
use lkr_planner::calendar::ical::{build_ical_payload, escape_ical_text, parse_ical_events};
use lkr_planner::calendar::report::parse_caldav_report;
use lkr_planner::dates::CalendarDate;

fn day(y: i32, m: u32, d: u32) -> CalendarDate {
    CalendarDate { day: NaiveDate::from_ymd_opt(y, m, d).unwrap().num_days_from_ce() }
}

fn payload(uid: &str, date: &str, summary: &str, project_ref: &str) -> String {
    build_ical_payload(uid, date, summary, project_ref).expect("the clock gives a time stamp")
}

#[test]
fn ical_parses_vevent_with_all_properties() {
    let ical = "BEGIN:VCALENDAR\r\nBEGIN:VEVENT\r\nUID:test-uid-1\r\nSUMMARY:Projekt Nord\r\nDESCRIPTION:daylite:/v1/projects/3001\r\nDTSTART;VALUE=DATE:20260126\r\nEND:VEVENT\r\nEND:VCALENDAR\r\n";
    let events = parse_ical_events(ical).unwrap();
    assert_eq!(events.len(), 1);
    assert_eq!(events[0].uid, "test-uid-1");
    assert_eq!(events[0].summary, "Projekt Nord");
    assert_eq!(events[0].description, "daylite:/v1/projects/3001");
    assert_eq!(events[0].dtstart, "2026-01-26");
}

#[test]
fn ical_parses_multiple_vevents_from_single_ical_text() {
    let ical = "BEGIN:VCALENDAR\nBEGIN:VEVENT\nUID:ev-1\nSUMMARY:A\nDTSTART:20260126T080000\nEND:VEVENT\nBEGIN:VEVENT\nUID:ev-2\nSUMMARY:B\nDTSTART:20260127T080000\nEND:VEVENT\nEND:VCALENDAR\n";
    let events = parse_ical_events(ical).unwrap();
    assert_eq!(events.len(), 2);
    assert_eq!(events[0].uid, "ev-1");
    assert_eq!(events[1].uid, "ev-2");
}

#[test]
fn ical_skips_vevent_without_parseable_dtstart() {
    let ical = "BEGIN:VCALENDAR\nBEGIN:VEVENT\nUID:bad\nSUMMARY:Bad\nDTSTART:not-a-date\nEND:VEVENT\nEND:VCALENDAR\n";
    let events = parse_ical_events(ical).unwrap();
    assert!(events.is_empty());
}

#[test]
fn ical_parse_ical_events_captures_dtend_for_all_day_event() {
    let ical = "BEGIN:VCALENDAR\r\nBEGIN:VEVENT\r\nUID:abs-1\r\nSUMMARY:Urlaub\r\nDTSTART;VALUE=DATE:20260427\r\nDTEND;VALUE=DATE:20260502\r\nEND:VEVENT\r\nEND:VCALENDAR\r\n";
    let events = parse_ical_events(ical).unwrap();
    assert_eq!(events.len(), 1);
    assert_eq!(events[0].dtend, Some(day(2026, 5, 2)));
}

#[test]
fn ical_malformed_ical_text_returns_error() {
    let result = parse_ical_events("this is definitely not valid ical");
    assert!(result.is_err(), "expected Err for malformed iCal, got Ok");
}

#[test]
fn ical_build_ical_payload_contains_expected_fields() {
    let payload = payload("test-uid-1", "2026-05-06", "Mein Projekt", "/v1/projects/42");
    assert!(payload.contains("BEGIN:VCALENDAR"), "missing VCALENDAR");
    assert!(payload.contains("BEGIN:VEVENT"), "missing VEVENT");
    assert!(payload.contains("UID:test-uid-1"), "missing UID");
    assert!(payload.contains("DTSTART:20260506T080000"), "wrong DTSTART");
    assert!(payload.contains("DTEND:20260506T160000"), "wrong DTEND");
    assert!(payload.contains("SUMMARY:Mein Projekt"), "missing SUMMARY");
    assert!(payload.contains("DESCRIPTION:daylite:/v1/projects/42"), "missing DESCRIPTION");
    assert!(payload.contains("END:VEVENT"), "missing END:VEVENT");
    assert!(payload.contains("END:VCALENDAR"), "missing END:VCALENDAR");
}

#[test]
fn ical_build_ical_payload_uses_floating_local_time_no_z_suffix() {
    let payload = payload("uid-2", "2026-12-31", "Test", "/v1/projects/1");
    assert!(payload.contains("DTSTART:20261231T080000\r\n"), "DTSTART must not have Z suffix");
    assert!(payload.contains("DTEND:20261231T160000\r\n"), "DTEND must not have Z suffix");
}

#[test]
fn ical_build_ical_payload_escapes_special_chars_in_summary() {
    let payload = payload("uid-esc", "2026-05-06", "Müller, Söhne; Bau \\ Test", "/v1/projects/42");
    assert!(
        payload.contains("SUMMARY:Müller\\, Söhne\\; Bau \\\\ Test"),
        "comma, semicolon and backslash must be escaped, got: {payload}"
    );
}

#[test]
fn ical_build_ical_payload_escapes_newline_in_summary_to_literal() {
    let payload = payload("uid-nl", "2026-05-06", "Zeile1\nZeile2", "/v1/projects/42");
    assert!(payload.contains("SUMMARY:Zeile1\\nZeile2"), "newline must become the two-char escape, got: {payload}");
    assert!(!payload.contains("SUMMARY:Zeile1\r\nZeile2"), "a raw newline must not split the SUMMARY property line");
}

#[test]
fn ical_build_ical_payload_keeps_path_separators_in_description() {
    let payload = payload("uid-d", "2026-05-06", "Projekt", "/v1/projects/42");
    assert!(payload.contains("DESCRIPTION:daylite:/v1/projects/42"), "got: {payload}");
}
const ONE_RESPONSE: &str = r#"<?xml version="1.0" encoding="utf-8"?>
<d:multistatus xmlns:d="DAV:" xmlns:c="urn:ietf:params:xml:ns:caldav">
  <d:response>
    <d:href>/calendars/user/calendar/event1.ics</d:href>
    <d:propstat>
      <d:prop>
        <c:calendar-data>BEGIN:VCALENDAR
BEGIN:VEVENT
UID:test-uid-1
SUMMARY:Projekt Nord
DTSTART;VALUE=DATE:20260505
END:VEVENT
END:VCALENDAR
</c:calendar-data>
      </d:prop>
    </d:propstat>
  </d:response>
</d:multistatus>"#;

const TWO_RESPONSES: &str = r#"<?xml version="1.0" encoding="utf-8"?>
<d:multistatus xmlns:d="DAV:" xmlns:c="urn:ietf:params:xml:ns:caldav">
  <d:response>
    <d:href>/calendars/user/calendar/ev1.ics</d:href>
    <d:propstat>
      <d:prop>
        <c:calendar-data>BEGIN:VCALENDAR
BEGIN:VEVENT
UID:uid-1
SUMMARY:Eins
DTSTART;VALUE=DATE:20260505
END:VEVENT
END:VCALENDAR
</c:calendar-data>
      </d:prop>
    </d:propstat>
  </d:response>
  <d:response>
    <d:href>/calendars/user/calendar/ev2.ics</d:href>
    <d:propstat>
      <d:prop>
        <c:calendar-data>BEGIN:VCALENDAR
BEGIN:VEVENT
UID:uid-2
SUMMARY:Zwei
DTSTART;VALUE=DATE:20260506
END:VEVENT
END:VCALENDAR
</c:calendar-data>
      </d:prop>
    </d:propstat>
  </d:response>
</d:multistatus>"#;

#[test]
fn report_parse_caldav_report_returns_href_with_each_event() {
    let events = parse_caldav_report(ONE_RESPONSE).unwrap();
    assert_eq!(events.len(), 1);
    assert_eq!(events[0].uid, "test-uid-1");
    assert_eq!(events[0].href, "/calendars/user/calendar/event1.ics");
}

#[test]
fn parse_caldav_report_captures_etag_and_raw_ical_per_event() {
    let xml = r#"<?xml version="1.0" encoding="utf-8"?>
<d:multistatus xmlns:d="DAV:" xmlns:c="urn:ietf:params:xml:ns:caldav">
  <d:response>
    <d:href>/calendars/user/calendar/event1.ics</d:href>
    <d:propstat>
      <d:prop>
        <d:getetag>"etag-123"</d:getetag>
        <c:calendar-data>BEGIN:VCALENDAR
BEGIN:VEVENT
UID:test-uid-1
SUMMARY:Projekt Nord
LOCATION:Baustelle Nord
DTSTART:20260505T080000
DTEND:20260505T160000
END:VEVENT
END:VCALENDAR
</c:calendar-data>
      </d:prop>
    </d:propstat>
  </d:response>
</d:multistatus>"#;
    let events = parse_caldav_report(xml).unwrap();
    assert_eq!(events.len(), 1);
    assert_eq!(events[0].etag, "\"etag-123\"");
    assert!(
        events[0].raw_ical.contains("LOCATION:Baustelle Nord"),
        "raw_ical must keep properties the parser does not model"
    );
}

#[test]
fn report_parse_caldav_report_returns_correct_href_per_event_when_multiple_responses() {
    let events = parse_caldav_report(TWO_RESPONSES).unwrap();
    assert_eq!(events.len(), 2);
    assert_eq!(events[0].uid, "uid-1");
    assert_eq!(events[0].href, "/calendars/user/calendar/ev1.ics");
    assert_eq!(events[1].uid, "uid-2");
    assert_eq!(events[1].href, "/calendars/user/calendar/ev2.ics");
}

#[test]
fn resolve_href_joins_root_absolute_path_against_server_origin() {
    let result = resolve_href("/caldav/admin/emp-1/uid-1.ics", "https://app.zep.de/caldav/admin").unwrap();
    assert_eq!(result, "https://app.zep.de/caldav/admin/emp-1/uid-1.ics");
}

#[test]
fn resolve_href_passes_through_absolute_url_unchanged() {
    let abs = "https://app.zep.de/caldav/admin/emp-1/uid-1.ics";
    assert_eq!(resolve_href(abs, "https://app.zep.de/caldav/admin").unwrap(), abs);
}

#[test]
fn parent_collection_url_strips_the_resource_segment() {
    assert_eq!(
        parent_collection_url("https://app.zep.de/caldav/admin/emp-1/uid-1.ics"),
        "https://app.zep.de/caldav/admin/emp-1"
    );
}

#[test]
fn targets_absence_calendar_matches_collection_and_resources_beneath_it() {
    let absence = vec!["https://app.zep.de/caldav/admin/emp/absence".to_string()];
    assert!(targets_absence_calendar("https://app.zep.de/caldav/admin/emp/absence", &absence));
    assert!(targets_absence_calendar("https://app.zep.de/caldav/admin/emp/absence/", &absence));
    assert!(targets_absence_calendar("https://app.zep.de/caldav/admin/emp/absence/uid-1.ics", &absence));
}

#[test]
fn targets_absence_calendar_allows_primary_calendar() {
    let absence = vec!["https://app.zep.de/caldav/admin/emp/absence".to_string()];
    assert!(!targets_absence_calendar("https://app.zep.de/caldav/admin/emp/primary/uid-1.ics", &absence));
    assert!(!targets_absence_calendar("https://app.zep.de/caldav/admin/emp/primary", &[]));
}

#[test]
fn resolve_href_rejects_an_unparseable_base_url() {
    assert!(resolve_href("/caldav/x.ics", "not a url").is_err());
}

#[test]
fn escaping_a_plain_text_changes_nothing_and_a_crlf_becomes_one_escape() {
    assert_eq!(escape_ical_text("Projekt Nord"), "Projekt Nord");
    assert_eq!(escape_ical_text("a\r\nb"), "a\\nb");
    assert_eq!(escape_ical_text("a\rb;c,d\\"), "a\\nb\\;c\\,d\\\\");
}
