use lkr_planner::daylite::queries::{
    contact_name_search_body, contact_search_body, overdue_search_body, project_search_body, project_search_query,
};
use lkr_planner::daylite::rotation::JsonValue;

fn text(s: &str) -> JsonValue {
    JsonValue::Text(s.to_string())
}

fn condition(field: &str, op: &str, value: &str) -> (String, JsonValue) {
    (field.to_string(), JsonValue::Object(vec![(op.to_string(), text(value))]))
}

fn pair(q: &str, v: &str) -> (String, String) {
    (q.to_string(), v.to_string())
}

#[test]
fn contact_search_asks_for_fitters_and_test_contacts() {
    assert_eq!(
        contact_search_body(),
        JsonValue::Array(vec![
            JsonValue::Object(vec![condition("category", "equal", "Monteur")]),
            JsonValue::Object(vec![condition("category", "equal", "Test")]),
        ])
    );
}

#[test]
fn project_search_without_statuses_is_one_name_condition() {
    assert_eq!(project_search_body("Nord", &None), JsonValue::Object(vec![condition("name", "contains", "Nord")]));
    assert_eq!(
        project_search_body("Nord", &Some(Vec::new())),
        JsonValue::Object(vec![condition("name", "contains", "Nord")])
    );
}

#[test]
fn project_search_with_statuses_has_one_clause_per_status() {
    let statuses = Some(vec!["new_status".to_string(), "in_progress".to_string()]);
    assert_eq!(
        project_search_body("Süd", &statuses),
        JsonValue::Array(vec![
            JsonValue::Object(vec![condition("name", "contains", "Süd"), condition("status", "equal", "new_status")]),
            JsonValue::Object(vec![condition("name", "contains", "Süd"), condition("status", "equal", "in_progress")]),
        ])
    );
}

#[test]
fn overdue_search_asks_for_open_overdue_projects() {
    assert_eq!(
        overdue_search_body(),
        JsonValue::Array(vec![
            JsonValue::Object(vec![condition("category", "equal", "Überfällig"), condition("status", "equal", "new_status")]),
            JsonValue::Object(vec![condition("category", "equal", "Überfällig"), condition("status", "equal", "in_progress")]),
        ])
    );
}

#[test]
fn project_search_query_lists_limit_full_records_and_start_in_that_order() {
    assert_eq!(
        project_search_query(Some(50), Some(true), &Some("/v1/projects?start=50".to_string())),
        vec![pair("limit", "50"), pair("full-records", "true"), pair("start", "/v1/projects?start=50")]
    );
    assert_eq!(project_search_query(None, Some(false), &None), Vec::<(String, String)>::new());
    assert_eq!(project_search_query(Some(7), None, &None), vec![pair("limit", "7")]);
}

#[test]
fn contact_name_search_is_one_full_name_condition() {
    assert_eq!(
        contact_name_search_body("Mei"),
        JsonValue::Object(vec![condition("full_name", "contains", "Mei")])
    );
}
