use lkr_planner::daylite::project_cache::cache_now_ms;
use lkr_planner::daylite::auth_flow::{
    interpret_refresh_response, parse_refresh_response_body, refresh_request, DayliteHttpMethod, DayliteHttpRequest,
    DayliteRefreshTokenResponse,
};
use lkr_planner::daylite::categories::{DayliteCategoryDto, DayliteCategoryListDto};
use lkr_planner::daylite::contacts::{
    filter_monteur_contacts, is_monteur_contact, normalize_cached_contact_urls, normalize_optional_string,
    PlanningContactRecord,
};
use lkr_planner::daylite::credentials::{store_daylite_tokens, SecretWrite};
use lkr_planner::daylite::shared::{after_attempt, current_epoch_ms, epoch_ms_of_reading, AttemptStep, trimmed, DayliteApiErrorCode};
use lkr_planner::daylite::test_support::{mock_response, token_state, valid_token_state};
use lkr_planner::local_store::{DayliteContactUrl, DayliteContactUrlCacheEntry};

fn contact(reference: &str, category: Option<&str>) -> PlanningContactRecord {
    PlanningContactRecord {
        reference: reference.to_string(),
        full_name: Some(reference.to_string()),
        nickname: None,
        category: category.map(str::to_string),
        urls: Vec::new(),
    }
}

#[test]
fn storing_the_tokens_reports_each_failure_as_a_server_error() {
    assert_eq!(store_daylite_tokens(SecretWrite::Stored), Ok(()));
    let unencodable = store_daylite_tokens(SecretWrite::Unencodable("key must be a string".to_string())).unwrap_err();
    assert_eq!(unencodable.code, DayliteApiErrorCode::ServerError);
    assert_eq!(unencodable.user_message, "Token konnten nicht sicher gespeichert werden.");
    assert_eq!(unencodable.technical_message, "Token serialization failed: key must be a string");
    let refused = store_daylite_tokens(SecretWrite::Refused("access denied".to_string())).unwrap_err();
    assert_eq!(refused.code, DayliteApiErrorCode::ServerError);
    assert_eq!(refused.technical_message, "access denied");
}

#[test]
fn a_clock_reading_becomes_milliseconds_or_a_failed_request() {
    assert_eq!(epoch_ms_of_reading(Ok(1_767_225_600_000)), Ok(1_767_225_600_000));
    assert_eq!(epoch_ms_of_reading(Ok(u64::MAX as u128)), Ok(u64::MAX));
    let too_late = epoch_ms_of_reading(Ok(u64::MAX as u128 + 1)).unwrap_err();
    assert_eq!(too_late.code, DayliteApiErrorCode::RequestFailed);
    assert_eq!(
        too_late.technical_message,
        "Zeitstempel-Konvertierung fehlgeschlagen: out of range integral type conversion attempted"
    );
    let before_epoch = epoch_ms_of_reading(Err("second time provided was later than self".to_string())).unwrap_err();
    assert_eq!(before_epoch.user_message, "Die aktuelle Systemzeit konnte nicht gelesen werden.");
    assert_eq!(before_epoch.technical_message, "Systemzeitfehler: second time provided was later than self");
}

#[test]
fn the_current_time_is_after_the_year_two_thousand() {
    let now = current_epoch_ms().unwrap();
    assert!(now > 946_684_800_000);
}

#[test]
fn an_unreadable_refresh_answer_is_a_failed_refresh() {
    let answer = DayliteRefreshTokenResponse { access_token: "a".to_string(), refresh_token: "r".to_string(), expires_in: 60 };
    assert_eq!(parse_refresh_response_body(200, "{}", Ok(answer.clone())), Ok(answer));
    let error = parse_refresh_response_body(200, "not json", Err("expected value".to_string())).unwrap_err();
    assert_eq!(error.code, DayliteApiErrorCode::TokenRefreshFailed);
    assert_eq!(error.http_status, Some(200));
    assert_eq!(error.user_message, "Die Daylite-Token-Antwort konnte nicht verarbeitet werden.");
    assert_eq!(
        error.technical_message,
        "JSON-Verarbeitung für /personal_token/refresh_token fehlgeschlagen: expected value; body=not json"
    );
}

#[test]
fn both_shapes_of_the_category_listing_give_their_categories() {
    let category = DayliteCategoryDto { name: "Bau".to_string(), hex_colour: Some("#ff0000".to_string()) };
    assert_eq!(
        DayliteCategoryListDto::Wrapped { results: vec![category.clone()] }.into_categories(),
        vec![category.clone()]
    );
    assert_eq!(DayliteCategoryListDto::Bare(vec![category.clone()]).into_categories(), vec![category]);
    assert_eq!(DayliteCategoryListDto::Wrapped { results: Vec::new() }.into_categories(), Vec::new());
}

#[test]
fn only_fitters_are_monteur_contacts() {
    assert!(is_monteur_contact(&contact("a", Some(" MONTEUR "))));
    assert!(!is_monteur_contact(&contact("b", Some("Test"))));
    assert!(!is_monteur_contact(&contact("c", None)));
    let kept = filter_monteur_contacts(vec![
        contact("a", Some("Monteur")),
        contact("b", Some("Test")),
        contact("c", Some("monteur")),
        contact("d", Some("  ")),
    ]);
    let references: Vec<&str> = kept.iter().map(|c| c.reference.as_str()).collect();
    assert_eq!(references, vec!["a", "c"]);
}

#[test]
fn cached_contact_urls_are_trimmed_and_blank_ones_dropped() {
    let urls = vec![
        DayliteContactUrlCacheEntry {
            label: Some(" iCal ".to_string()),
            url: Some(" https://zep.example/cal ".to_string()),
            note: Some("".to_string()),
        },
        DayliteContactUrlCacheEntry { label: Some(" ".to_string()), url: None, note: Some("  ".to_string()) },
    ];
    assert_eq!(
        normalize_cached_contact_urls(urls),
        vec![DayliteContactUrl {
            label: Some("iCal".to_string()),
            url: Some("https://zep.example/cal".to_string()),
            note: None
        }]
    );
}

#[test]
fn optional_fields_are_trimmed_and_blank_ones_absent() {
    assert_eq!(normalize_optional_string(Some("  Nord ".to_string())), Some("Nord".to_string()));
    assert_eq!(normalize_optional_string(Some("   ".to_string())), None);
    assert_eq!(normalize_optional_string(None), None);
    assert_eq!(trimmed("\t Projekt Nord \n".to_string()), "Projekt Nord");
}

#[test]
fn fixed_tokens_and_replies_hold_what_they_were_given() {
    let reply = mock_response(401, "{\"error\":\"unauthorized\"}");
    assert_eq!(reply.status, 401);
    assert_eq!(reply.body, "{\"error\":\"unauthorized\"}");
    let tokens = token_state("access", "refresh");
    assert_eq!(tokens.access_token, "access");
    assert_eq!(tokens.refresh_token, "refresh");
    assert_eq!(tokens.access_token_expires_at_ms, Some(u64::MAX));
    assert_eq!(valid_token_state(), token_state("at", "rt"));
}

#[test]
fn the_cache_clock_saturates_at_the_largest_timestamp() {
    assert_eq!(cache_now_ms(0), 0);
    assert_eq!(cache_now_ms(90_000), 90_000);
    assert_eq!(cache_now_ms(u128::MAX), u64::MAX);
}

#[test]
fn a_refresh_sends_one_get_with_the_token_and_nothing_for_a_blank_one() {
    assert_eq!(
        refresh_request("rt-1"),
        Ok(DayliteHttpRequest {
            method: DayliteHttpMethod::Get,
            path: "/personal_token/refresh_token".to_string(),
            query: vec![("refresh_token".to_string(), "rt-1".to_string())],
            body: None,
            access_token: None,
        })
    );
    let blank = refresh_request("  ").unwrap_err();
    assert_eq!(blank.code, DayliteApiErrorCode::MissingToken);
    assert_eq!(blank.http_status, None);
    assert_eq!(blank.user_message, "Das Daylite-Refresh-Token fehlt. Bitte Refresh-Token hinterlegen.");
    assert_eq!(blank.technical_message, "Refresh-Token ist leer.");
}

#[test]
fn a_refresh_answer_expires_its_lifetime_after_the_clock_reading() {
    let answer = DayliteRefreshTokenResponse { access_token: "at".to_string(), refresh_token: "rt-2".to_string(), expires_in: 3600 };
    let tokens = interpret_refresh_response(200, "{}", Ok(answer), Ok(1_000_000)).unwrap();
    assert_eq!(tokens, token_state_expiring("at", "rt-2", 4_600_000));
}

#[test]
fn a_clock_error_surfaces_only_for_an_accepted_refresh_answer() {
    let clock_error = epoch_ms_of_reading(Err("clock".to_string())).unwrap_err();
    let answer = DayliteRefreshTokenResponse { access_token: "at".to_string(), refresh_token: "rt".to_string(), expires_in: 60 };
    assert_eq!(interpret_refresh_response(200, "{}", Ok(answer), Err(clock_error.clone())), Err(clock_error.clone()));
    let refused = interpret_refresh_response(500, "boom", Err("x".to_string()), Err(clock_error)).unwrap_err();
    assert_eq!(refused.code, DayliteApiErrorCode::TokenRefreshFailed);
    assert_eq!(refused.http_status, Some(500));
}

fn token_state_expiring(access: &str, refresh: &str, at: u64) -> lkr_planner::daylite::shared::DayliteTokenState {
    lkr_planner::daylite::shared::DayliteTokenState {
        access_token: access.to_string(),
        refresh_token: refresh.to_string(),
        access_token_expires_at_ms: Some(at),
    }
}

#[test]
fn only_a_first_attempt_refused_for_its_tokens_is_retried() {
    let refused = || -> Result<u32, lkr_planner::daylite::shared::DayliteApiError> {
        Err(lkr_planner::daylite::shared::normalize_http_error(401, "", "/projects"))
    };
    assert!(matches!(after_attempt(false, refused()), AttemptStep::RenewAndRetry));
    assert!(matches!(after_attempt(true, refused()), AttemptStep::Finished(Err(_))));
    assert!(matches!(after_attempt(false, Ok::<u32, _>(7)), AttemptStep::Finished(Ok(7))));
    let rate_limited: Result<u32, _> = Err(lkr_planner::daylite::shared::normalize_http_error(429, "", "/projects"));
    assert!(matches!(after_attempt(false, rate_limited), AttemptStep::Finished(Err(_))));
}

#[test]
fn trimming_removes_exactly_the_characters_std_calls_whitespace() {
    for code in 0u32..=0x10ffff {
        if let Some(c) = char::from_u32(code) {
            let alone = trimmed(c.to_string());
            assert_eq!(alone.is_empty(), c.is_whitespace(), "U+{code:04X}");
        }
    }
}
