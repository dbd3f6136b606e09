use lkr_planner::calendar::ical::{build_ical_payload, parse_ical_events};
use lkr_planner::daylite::contacts::{map_cached_contact, map_planning_contact_to_cache_entry, PlanningContactRecord};
use lkr_planner::daylite::projects::{map_project_status, project_status_to_string, PlanningProjectStatus};
use lkr_planner::local_store::DayliteContactUrl;

#[test]
fn every_status_reads_back_from_its_name() {
    let all = [
        PlanningProjectStatus::NewStatus,
        PlanningProjectStatus::InProgress,
        PlanningProjectStatus::Done,
        PlanningProjectStatus::Abandoned,
        PlanningProjectStatus::Cancelled,
        PlanningProjectStatus::Deferred,
    ];
    for status in all {
        assert_eq!(map_project_status(Some(project_status_to_string(&status).to_string())), status);
    }
    assert_eq!(map_project_status(Some(" IN_PROGRESS ".to_string())), PlanningProjectStatus::InProgress);
}

#[test]
fn a_normalised_contact_reads_back_from_the_cache_unchanged() {
    let contact = PlanningContactRecord {
        reference: "/v1/contacts/1001".to_string(),
        full_name: Some("Max Mustermann".to_string()),
        nickname: None,
        category: Some("Monteur".to_string()),
        urls: vec![DayliteContactUrl {
            label: Some("Primary iCal".to_string()),
            url: Some("https://zep.example/cal".to_string()),
            note: None,
        }],
    };
    assert_eq!(map_cached_contact(map_planning_contact_to_cache_entry(contact.clone())), contact);
}

#[test]
fn a_payload_is_stamped_with_a_utc_time() {
    let payload = build_ical_payload("uid-1", "2026-03-09", "Projekt Nord", "/v1/projects/3001").unwrap();
    let stamp = payload.lines().find_map(|l| l.strip_prefix("DTSTAMP:")).expect("a DTSTAMP line");
    assert_eq!(stamp.len(), 16);
    assert!(stamp.ends_with('Z'));
    assert_eq!(&stamp[8..9], "T");
    assert!(stamp[..8].chars().chain(stamp[9..15].chars()).all(|c| c.is_ascii_digit()));
}

#[test]
fn unreadable_ical_text_is_reported_in_the_planners_words() {
    let error = parse_ical_events("this is definitely not valid ical").unwrap_err();
    assert!(error.starts_with("iCal-Daten konnten nicht gelesen werden: "), "{error}");
}
