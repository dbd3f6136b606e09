use lkr_planner::daylite::contacts::{
    cached_planning_contacts, contact_path, filter_planning_contacts, map_cached_contact, map_daylite_contact_summary,
    merge_contact_ical_urls, parse_contact_id, planning_contacts_from_search, reconcile_employee_calendars_from_contacts,
    refresh_contact_cache, sort_contacts, DayliteContactSummary, PlanningContactRecord,
};
use lkr_planner::local_store::{DayliteContactCacheEntry, DayliteContactUrl, EmployeeSetting};

fn url(label: &str, value: &str) -> DayliteContactUrl {
    DayliteContactUrl { label: Some(label.to_string()), url: Some(value.to_string()), note: None }
}

fn summary() -> DayliteContactSummary {
    DayliteContactSummary {
        reference: "/v1/contacts/1001".to_string(),
        first_name: " Max ".to_string(),
        last_name: " Mustermann ".to_string(),
        full_name: None,
        nickname: Some("  ".to_string()),
        category: Some(" Monteur ".to_string()),
        urls: vec![
            DayliteContactUrl {
                label: Some(" Einsatz iCal ".to_string()),
                url: Some(" https://example.com/max-primary.ics ".to_string()),
                note: None,
            },
            DayliteContactUrl { label: Some(" ".to_string()), url: None, note: None },
        ],
    }
}

fn check_summary_mapping() {
    let mapped = map_daylite_contact_summary(summary());
    assert_eq!(mapped.reference, "/v1/contacts/1001");
    assert_eq!(mapped.full_name, Some("Max Mustermann".to_string()));
    assert_eq!(mapped.nickname, None);
    assert_eq!(mapped.category, Some("Monteur".to_string()));
    assert_eq!(mapped.urls, vec![url("Einsatz iCal", "https://example.com/max-primary.ics")]);
}

fn check_cached_mapping() {
    let cached_contact = DayliteContactCacheEntry {
        reference: "/v1/contacts/2001".to_string(),
        full_name: None,
        nickname: None,
        category: Some("Monteur".to_string()),
        urls: vec![url("Abwesenheit iCal", "https://example.com/moritz-absence.ics")],
    };
    let mapped = map_cached_contact(cached_contact);
    assert_eq!(mapped.reference, "/v1/contacts/2001");
    assert_eq!(mapped.full_name, None);
    assert_eq!(mapped.category, Some("Monteur".to_string()));
    assert_eq!(mapped.urls, vec![url("Abwesenheit iCal", "https://example.com/moritz-absence.ics")]);
}

fn check_merge_keeps_unmanaged_labels() {
    let existing_urls = vec![
        url("Website", "https://example.com"),
        url("FR-Fehlzeiten", "https://example.com/old-absence.ics"),
        url("Einsatz iCal", "https://example.com/old-primary.ics"),
    ];
    let merged = merge_contact_ical_urls(existing_urls, "https://example.com/new-primary.ics", "https://example.com/new-absence.ics");
    assert_eq!(
        merged,
        vec![
            url("Website", "https://example.com"),
            url("FR-Fehlzeiten", "https://example.com/old-absence.ics"),
            url("Einsatz iCal", "https://example.com/new-primary.ics"),
            url("Abwesenheit iCal", "https://example.com/new-absence.ics"),
        ]
    );
}

fn check_invalid_contact_reference() {
    let error = parse_contact_id("/v1/contacts/not-a-number").expect_err("invalid contact reference should fail");
    assert_eq!(error.user_message, "Die Daylite-Kontaktreferenz ist ungültig.");
}

#[test]
fn contacts_maps_daylite_contact_summary_to_planning_contact_record() {
    check_summary_mapping();
}

#[test]
fn mapping_maps_daylite_contact_summary_to_planning_contact_record() {
    check_summary_mapping();
}

#[test]
fn contacts_maps_cached_contact_without_display_name_fallback() {
    check_cached_mapping();
}

#[test]
fn mapping_maps_cached_contact_without_display_name_fallback() {
    check_cached_mapping();
}

#[test]
fn contacts_merge_contact_ical_urls_keeps_unmanaged_labels() {
    check_merge_keeps_unmanaged_labels();
}

#[test]
fn ical_urls_merge_contact_ical_urls_keeps_unmanaged_labels() {
    check_merge_keeps_unmanaged_labels();
}

#[test]
fn contacts_parse_contact_id_rejects_invalid_reference() {
    check_invalid_contact_reference();
}

#[test]
fn api_parse_contact_id_rejects_invalid_reference() {
    check_invalid_contact_reference();
}

#[test]
fn a_valid_contact_reference_gives_its_id_and_path() {
    assert_eq!(parse_contact_id("/v1/contacts/1001").unwrap(), 1001);
    assert_eq!(contact_path(1001), "/contacts/1001");
}

fn contact(reference: &str, full_name: &str, nickname: Option<&str>, category: &str) -> PlanningContactRecord {
    PlanningContactRecord {
        reference: reference.to_string(),
        full_name: Some(full_name.to_string()),
        nickname: nickname.map(str::to_string),
        category: Some(category.to_string()),
        urls: vec![],
    }
}

#[test]
fn filters_and_sorts_monteur_contacts_by_display_name() {
    let contacts = vec![
        contact("/v1/contacts/3001", "Zora Monteur", None, "Monteur"),
        contact("/v1/contacts/3002", "Anna Vertrieb", None, "Vertrieb"),
        contact("/v1/contacts/3003", "Max Mustermann", Some("Maks"), "Monteur"),
    ];
    let mapped = sort_contacts(filter_planning_contacts(contacts));
    assert_eq!(mapped.len(), 2);
    assert_eq!(mapped[0].reference, "/v1/contacts/3003");
    assert_eq!(mapped[1].reference, "/v1/contacts/3001");
}

#[test]
fn filters_planning_contacts_keeps_monteur_and_test_sorted_by_display_name() {
    let contacts = vec![
        contact("/v1/contacts/3001", "Zora Monteur", None, "Monteur"),
        contact("/v1/contacts/3002", "Anna Vertrieb", None, "Vertrieb"),
        contact("/v1/contacts/3003", "Max Mustermann", Some("Maks"), "Monteur"),
        contact("/v1/contacts/3004", "Bea Test", None, "Test"),
    ];
    let mapped = sort_contacts(filter_planning_contacts(contacts));
    assert_eq!(mapped.len(), 3);
    assert_eq!(mapped[0].reference, "/v1/contacts/3004");
    assert_eq!(mapped[1].reference, "/v1/contacts/3003");
    assert_eq!(mapped[2].reference, "/v1/contacts/3001");
}

fn setting(primary: Option<&str>, absence: Option<&str>) -> EmployeeSetting {
    EmployeeSetting {
        daylite_contact_reference: "/v1/contacts/100".to_string(),
        zep_primary_calendar: primary.map(str::to_string),
        zep_absence_calendar: absence.map(str::to_string),
        primary_ical_last_tested_at: Some("2026-01-01T00:00:00Z".to_string()),
        primary_ical_last_test_passed: Some(true),
        absence_ical_last_tested_at: None,
        absence_ical_last_test_passed: None,
    }
}

fn monteur(urls: Vec<DayliteContactUrl>) -> PlanningContactRecord {
    PlanningContactRecord {
        reference: "/v1/contacts/100".to_string(),
        full_name: Some("Max Mustermann".to_string()),
        nickname: None,
        category: Some("Monteur".to_string()),
        urls,
    }
}

#[test]
fn reconcile_populates_calendars_from_daylite_for_new_device() {
    let mut settings: Vec<EmployeeSetting> = vec![];
    let contacts = vec![monteur(vec![
        url("Einsatz iCal", "https://example.com/max-primary.ics"),
        url("Abwesenheit iCal", "https://example.com/max-absence.ics"),
    ])];
    reconcile_employee_calendars_from_contacts(&mut settings, &contacts);
    assert_eq!(settings.len(), 1);
    assert_eq!(settings[0].daylite_contact_reference, "/v1/contacts/100");
    assert_eq!(settings[0].zep_primary_calendar, Some("https://example.com/max-primary.ics".to_string()));
    assert_eq!(settings[0].zep_absence_calendar, Some("https://example.com/max-absence.ics".to_string()));
}

#[test]
fn reconcile_overrides_changed_url_and_clears_stale_test_result() {
    let mut settings = vec![setting(Some("https://example.com/old-primary.ics"), None)];
    let contacts = vec![monteur(vec![url("Einsatz iCal", "https://example.com/new-primary.ics")])];
    reconcile_employee_calendars_from_contacts(&mut settings, &contacts);
    assert_eq!(settings[0].zep_primary_calendar, Some("https://example.com/new-primary.ics".to_string()));
    assert_eq!(settings[0].primary_ical_last_tested_at, None);
    assert_eq!(settings[0].primary_ical_last_test_passed, None);
}

#[test]
fn reconcile_clears_calendar_removed_in_daylite() {
    let mut settings = vec![setting(Some("https://example.com/old-primary.ics"), Some("https://example.com/old-absence.ics"))];
    let contacts = vec![monteur(vec![])];
    reconcile_employee_calendars_from_contacts(&mut settings, &contacts);
    assert_eq!(settings[0].zep_primary_calendar, None);
    assert_eq!(settings[0].zep_absence_calendar, None);
    assert_eq!(settings[0].primary_ical_last_tested_at, None);
}

#[test]
fn reconcile_leaves_unchanged_calendar_and_test_result_intact() {
    let mut settings = vec![setting(Some("https://example.com/primary.ics"), None)];
    let contacts = vec![monteur(vec![url("Einsatz iCal", "https://example.com/primary.ics")])];
    reconcile_employee_calendars_from_contacts(&mut settings, &contacts);
    assert_eq!(settings[0].primary_ical_last_tested_at, Some("2026-01-01T00:00:00Z".to_string()));
    assert_eq!(settings[0].primary_ical_last_test_passed, Some(true));
}

#[test]
fn reconcile_skips_contacts_without_managed_calendars() {
    let mut settings: Vec<EmployeeSetting> = vec![];
    let contacts = vec![monteur(vec![url("Website", "https://example.com")])];
    reconcile_employee_calendars_from_contacts(&mut settings, &contacts);
    assert!(settings.is_empty());
}

#[test]
fn reconciling_the_same_contacts_twice_changes_nothing_more() {
    let mut settings = vec![setting(Some("https://example.com/old-primary.ics"), None)];
    let contacts = vec![monteur(vec![
        url("Einsatz iCal", "https://example.com/new-primary.ics"),
        url("Abwesenheit iCal", "https://example.com/absence.ics"),
    ])];
    reconcile_employee_calendars_from_contacts(&mut settings, &contacts);
    let once = settings.clone();
    reconcile_employee_calendars_from_contacts(&mut settings, &contacts);
    assert_eq!(settings, once);
}

#[test]
fn a_contact_search_is_mapped_filtered_and_sorted() {
    let mut other = summary();
    other.reference = "/v1/contacts/1002".to_string();
    other.first_name = "Anna".to_string();
    other.last_name = "Vertrieb".to_string();
    other.category = Some("Vertrieb".to_string());
    let mut test = summary();
    test.reference = "/v1/contacts/1003".to_string();
    test.first_name = "Bea".to_string();
    test.last_name = "Test".to_string();
    test.category = Some("Test".to_string());
    let listed = planning_contacts_from_search(vec![summary(), other, test]);
    let refs: Vec<&str> = listed.iter().map(|c| c.reference.as_str()).collect();
    assert_eq!(refs, vec!["/v1/contacts/1003", "/v1/contacts/1001"]);
}

#[test]
fn the_cache_is_refreshed_with_the_updated_contact() {
    let cached = vec![
        DayliteContactCacheEntry {
            reference: "/v1/contacts/1".to_string(),
            full_name: Some("Zora".to_string()),
            nickname: None,
            category: Some("Monteur".to_string()),
            urls: vec![],
        },
        DayliteContactCacheEntry {
            reference: "/v1/contacts/2".to_string(),
            full_name: Some("Bert".to_string()),
            nickname: None,
            category: Some("Monteur".to_string()),
            urls: vec![],
        },
    ];
    let updated = PlanningContactRecord {
        reference: "/v1/contacts/2".to_string(),
        full_name: Some("Bert".to_string()),
        nickname: None,
        category: Some("Monteur".to_string()),
        urls: vec![url("Einsatz iCal", "https://example.com/b.ics")],
    };
    let refreshed = refresh_contact_cache(cached.clone(), updated.clone());
    assert_eq!(refreshed.len(), 2);
    assert_eq!(refreshed[0].reference, "/v1/contacts/2");
    assert_eq!(refreshed[0].urls, updated.urls);
    assert_eq!(refreshed[1].reference, "/v1/contacts/1");

    let demoted = PlanningContactRecord { category: Some("Vertrieb".to_string()), ..updated };
    let refreshed = refresh_contact_cache(cached.clone(), demoted);
    assert_eq!(refreshed.len(), 1);
    assert_eq!(refreshed[0].reference, "/v1/contacts/1");

    let listed = cached_planning_contacts(cached);
    assert_eq!(listed[0].reference, "/v1/contacts/2");
}
