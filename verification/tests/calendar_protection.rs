use lkr_planner::calendar::protection::{fixed_appointment_message_text, is_protected_event, protects_day_change, refuse};
use lkr_planner::daylite::projects::ResolvedProject;

const FIXED_REF: Option<&str> = Some("/v1/projects/3001");
const FIXED_APPOINTMENT_CATEGORY: &str = "Termin FIX geplant";

fn project(category: Option<&str>) -> ResolvedProject {
    ResolvedProject {
        name: "Projekt Nord".to_string(),
        status: "in_progress".to_string(),
        category: category.map(str::to_string),
    }
}

#[test]
fn event_of_a_fixed_appointment_project_is_protected() {
    let resolved = project(Some(FIXED_APPOINTMENT_CATEGORY));
    assert!(is_protected_event(FIXED_REF, Some(&resolved)));
}

#[test]
fn event_of_another_project_category_is_not_protected() {
    for category in [Some("Liefertermin bekannt"), None] {
        let resolved = project(category);
        assert!(!is_protected_event(FIXED_REF, Some(&resolved)));
    }
}

#[test]
fn event_without_a_daylite_reference_is_protected() {
    assert!(is_protected_event(None, None));
}

#[test]
fn event_whose_project_lookup_failed_is_not_protected() {
    assert!(!is_protected_event(FIXED_REF, None));
}

#[test]
fn moving_a_fixed_appointment_to_another_day_is_refused() {
    let resolved = project(Some(FIXED_APPOINTMENT_CATEGORY));
    assert!(protects_day_change("2026-05-06", "2026-05-07", FIXED_REF, Some(&resolved)));
}

#[test]
fn moving_a_fixed_appointment_within_its_day_is_allowed() {
    let resolved = project(Some(FIXED_APPOINTMENT_CATEGORY));
    assert!(!protects_day_change("2026-05-06", "2026-05-06", FIXED_REF, Some(&resolved)));
}

#[test]
fn moving_an_unprotected_assignment_to_another_day_is_allowed() {
    let resolved = project(Some("Liefertermin bekannt"));
    assert!(!protects_day_change("2026-05-06", "2026-05-07", FIXED_REF, Some(&resolved)));
}

#[test]
fn a_protected_write_is_refused_with_the_fixed_appointment_message() {
    assert_eq!(refuse(true), Err(fixed_appointment_message_text().to_string()));
    assert_eq!(refuse(false), Ok(()));
    assert!(fixed_appointment_message_text().contains("Termin FIX geplant"));
}
