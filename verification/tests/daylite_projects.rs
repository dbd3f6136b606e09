use lkr_planner::daylite::deep_link::project_deep_link_url;
use lkr_planner::daylite::projects::{
    extract_numeric_id, finish_project_search, map_daylite_project_summary, map_project_status, normalize_optional_date,
    project_path, project_status_to_string, resolve_project, select_overdue_projects, DayliteProjectSummaryDto,
    PlanningProjectStatus,
};
use lkr_planner::daylite::shared::DayliteSearchSort;

const FIXED_APPOINTMENT_CATEGORY: &str = "Termin FIX geplant";

fn dto(reference: &str, name: &str) -> DayliteProjectSummaryDto {
    DayliteProjectSummaryDto {
        reference: reference.to_string(),
        name: name.to_string(),
        status: None,
        category: None,
        keywords: vec![],
        due: None,
        started: None,
        completed: None,
        create_date: None,
        modify_date: None,
    }
}

fn summary_dto() -> DayliteProjectSummaryDto {
    DayliteProjectSummaryDto {
        reference: " /v1/projects/7000 ".to_string(),
        name: " Projekt Nord ".to_string(),
        status: Some(" NEW ".to_string()),
        category: Some(" Überfällig ".to_string()),
        keywords: vec![" Aufträge ".to_string(), "".to_string(), "Vorbereitung".to_string()],
        due: Some("2026-02-15".to_string()),
        started: None,
        completed: None,
        create_date: Some("not-a-date".to_string()),
        modify_date: Some("2026-02-15T12:45:00+01:00".to_string()),
    }
}

fn check_mapped_summary() {
    let mapped = map_daylite_project_summary(summary_dto());
    assert_eq!(mapped.reference, "/v1/projects/7000");
    assert_eq!(mapped.name, "Projekt Nord");
    assert_eq!(mapped.status, PlanningProjectStatus::NewStatus);
    assert_eq!(mapped.category, Some("Überfällig".to_string()));
    assert_eq!(mapped.keywords, vec!["Aufträge".to_string(), "Vorbereitung".to_string()]);
    assert_eq!(mapped.due, Some("2026-02-15T00:00:00.000Z".to_string()));
    assert_eq!(mapped.create_date, None);
    assert_eq!(mapped.modify_date, Some("2026-02-15T11:45:00.000Z".to_string()));
}

#[test]
fn resolved_project_carries_the_category_alongside_name_and_status() {
    let cases: &[(Option<&str>, Option<&str>)] = &[
        (Some(FIXED_APPOINTMENT_CATEGORY), Some("Termin FIX geplant")),
        (Some("Liefertermin bekannt"), Some("Liefertermin bekannt")),
        (None, None),
    ];
    for (category, expected) in cases {
        let resolved = resolve_project(DayliteProjectSummaryDto {
            reference: "/v1/projects/3001".to_string(),
            name: "Projekt Nord".to_string(),
            status: Some("in_progress".to_string()),
            category: category.map(str::to_string),
            keywords: vec![],
            due: None,
            started: None,
            completed: None,
            create_date: None,
            modify_date: None,
        });
        assert_eq!(resolved.name, "Projekt Nord");
        assert_eq!(resolved.status, "in_progress");
        assert_eq!(resolved.category.as_deref(), *expected);
    }
}

#[test]
fn projects_maps_project_summary_to_planning_project_record() {
    check_mapped_summary();
}

#[test]
fn tests_maps_project_summary_to_planning_project_record() {
    check_mapped_summary();
}

#[test]
fn projects_defaults_unknown_project_status_to_new_status() {
    let mapped_status = map_project_status(Some("unknown-status".to_string()));
    assert_eq!(mapped_status, PlanningProjectStatus::NewStatus);
}

#[test]
fn tests_defaults_unknown_project_status_to_new_status() {
    let mapped_status = map_project_status(Some("unknown-status".to_string()));
    assert_eq!(mapped_status, PlanningProjectStatus::NewStatus);
}

#[test]
fn projects_extract_numeric_id_handles_standard_reference() {
    assert_eq!(extract_numeric_id("/v1/projects/3001"), 3001);
    assert_eq!(extract_numeric_id("/v1/projects/100"), 100);
    assert_eq!(extract_numeric_id("/v1/projects/20"), 20);
}

#[test]
fn tests_extract_numeric_id_handles_standard_reference() {
    assert_eq!(extract_numeric_id("/v1/projects/3001"), 3001);
    assert_eq!(extract_numeric_id("/v1/projects/100"), 100);
    assert_eq!(extract_numeric_id("/v1/projects/20"), 20);
}

#[test]
fn projects_extract_numeric_id_returns_max_for_non_numeric() {
    assert_eq!(extract_numeric_id("/v1/projects/abc"), u64::MAX);
    assert_eq!(extract_numeric_id(""), u64::MAX);
}

#[test]
fn tests_extract_numeric_id_returns_max_for_non_numeric() {
    assert_eq!(extract_numeric_id("/v1/projects/abc"), u64::MAX);
    assert_eq!(extract_numeric_id(""), u64::MAX);
}

#[test]
fn known_project_statuses_map_case_insensitively_and_back() {
    let cases = [
        ("in_progress", PlanningProjectStatus::InProgress),
        (" DONE ", PlanningProjectStatus::Done),
        ("abandoned", PlanningProjectStatus::Abandoned),
        ("cancelled", PlanningProjectStatus::Cancelled),
        ("deferred", PlanningProjectStatus::Deferred),
        ("new_status", PlanningProjectStatus::NewStatus),
    ];
    for (text, status) in cases {
        assert_eq!(map_project_status(Some(text.to_string())), status, "case: {text}");
    }
    assert_eq!(map_project_status(None), PlanningProjectStatus::NewStatus);
    assert_eq!(project_status_to_string(&PlanningProjectStatus::InProgress), "in_progress");
    assert_eq!(project_status_to_string(&PlanningProjectStatus::NewStatus), "new_status");
}

#[test]
fn optional_dates_are_normalised_to_utc_milliseconds() {
    assert_eq!(normalize_optional_date(Some("2026-02-15".to_string())), Some("2026-02-15T00:00:00.000Z".to_string()));
    assert_eq!(
        normalize_optional_date(Some(" 2026-02-15T12:45:00+01:00 ".to_string())),
        Some("2026-02-15T11:45:00.000Z".to_string())
    );
    assert_eq!(normalize_optional_date(Some("not-a-date".to_string())), None);
    assert_eq!(normalize_optional_date(Some("   ".to_string())), None);
    assert_eq!(normalize_optional_date(None), None);
}

#[test]
fn project_path_strips_the_api_prefix() {
    assert_eq!(project_path("/v1/projects/3001"), Some("/projects/3001".to_string()));
    assert_eq!(project_path("/projects/3001"), Some("/projects/3001".to_string()));
}

#[test]
fn a_search_page_is_sorted_by_numeric_id_and_limited_after_sorting() {
    let page = vec![dto("/v1/projects/100", "Hundert"), dto("/v1/projects/20", "Zwanzig"), dto("/v1/projects/3", "Drei")];
    let result = finish_project_search(page.clone(), None, None, None);
    let refs: Vec<&str> = result.results.iter().map(|p| p.reference.as_str()).collect();
    assert_eq!(refs, vec!["/v1/projects/3", "/v1/projects/20", "/v1/projects/100"]);

    let limited = finish_project_search(page, Some(" /v1/projects/_search?offset=5 ".to_string()), None, Some(2));
    assert_eq!(limited.results.len(), 2);
    assert_eq!(limited.results[0].reference, "/v1/projects/3");
    assert_eq!(limited.results[1].reference, "/v1/projects/20");
    assert_eq!(limited.next, Some("/v1/projects/_search?offset=5".to_string()));
}

#[test]
fn a_search_page_sorted_by_name_puts_names_in_order() {
    let page = vec![dto("/v1/projects/1", "Zeta"), dto("/v1/projects/2", "Alpha"), dto("/v1/projects/3", "Mitte")];
    let result = finish_project_search(page, None, Some(DayliteSearchSort::Name), None);
    let names: Vec<&str> = result.results.iter().map(|p| p.name.as_str()).collect();
    assert_eq!(names, vec!["Alpha", "Mitte", "Zeta"]);
}

#[test]
fn overdue_selection_sorts_by_numeric_id_marks_the_category_and_keeps_five() {
    let page = vec![
        dto("/v1/projects/100", "Hundert"),
        dto("/v1/projects/20", "Zwanzig"),
        dto("/v1/projects/3", "Drei"),
        dto("/v1/projects/50", "Fünfzig"),
        dto("/v1/projects/7", "Sieben"),
        dto("/v1/projects/9", "Neun"),
    ];
    let results = select_overdue_projects(page);
    let refs: Vec<&str> = results.iter().map(|p| p.reference.as_str()).collect();
    assert_eq!(refs, vec!["/v1/projects/3", "/v1/projects/7", "/v1/projects/9", "/v1/projects/20", "/v1/projects/50"]);
    assert!(results.iter().all(|p| p.category.as_deref() == Some("Überfällig")));
}

#[test]
fn builds_the_show_object_url_from_a_project_reference() {
    assert_eq!(
        project_deep_link_url("/v1/projects/2035"),
        Ok("daylite://Command=ShowObject&Entity=Project&ID=2035".to_string())
    );
}

#[test]
fn rejects_a_reference_that_does_not_name_a_project() {
    assert_eq!(
        project_deep_link_url("/v1/contacts/2035"),
        Err("Das Projekt konnte in Daylite nicht geöffnet werden.".to_string())
    );
}

#[test]
fn rejects_a_project_reference_without_a_numeric_id() {
    assert!(project_deep_link_url("/v1/projects/abc").is_err());
    assert!(project_deep_link_url("/v1/projects/").is_err());
    assert!(project_deep_link_url("").is_err());
}
