use lkr_planner::daylite::credentials::{load_daylite_tokens, token_encoding_error, token_store_refused_error, SecretRead};
use lkr_planner::daylite::auth_flow::{
    bearer_header, check_refresh_token, interpret_refresh_response, request_url_text, DayliteHttpMethod,
    DayliteRefreshTokenResponse,
};
use lkr_planner::daylite::categories::{normalize_hex_colour, project_category_colours, DayliteCategoryDto};
use lkr_planner::daylite::project_cache::{is_fresh, needs_sweep, record_load, served_project, sweep_keeps, CacheEntry};
use lkr_planner::daylite::projects::ResolvedProject;
use lkr_planner::daylite::shared::{
    build_limit_query, check_rotation_possible, check_success_status, invalid_json_error, normalize_base_url,
    normalize_http_error, should_renew_and_retry, token_sync_status, truncate_for_log, DayliteApiErrorCode,
    DayliteTokenState,
};
use lkr_planner::daylite::token_session::{has_life_left, TokenSessionState};

fn tokens(access: &str, refresh: &str, expires: Option<u64>) -> DayliteTokenState {
    DayliteTokenState { access_token: access.to_string(), refresh_token: refresh.to_string(), access_token_expires_at_ms: expires }
}

#[test]
fn http_failures_map_to_their_error_kinds() {
    let e = normalize_http_error(401, "nope", "/projects/_search");
    assert_eq!(e.code, DayliteApiErrorCode::Unauthorized);
    assert_eq!(e.http_status, Some(401));
    assert_eq!(e.technical_message, "Daylite request failed for /projects/_search with status=401; body=nope");
    assert_eq!(normalize_http_error(429, "", "/x").code, DayliteApiErrorCode::RateLimited);
    assert_eq!(normalize_http_error(500, "", "/x").code, DayliteApiErrorCode::ServerError);
    assert_eq!(normalize_http_error(503, "", "/x").code, DayliteApiErrorCode::ServerError);
    assert_eq!(normalize_http_error(404, "", "/x").code, DayliteApiErrorCode::RequestFailed);
    assert!(check_success_status(204, "", "/x").is_ok());
    assert!(check_success_status(302, "", "/x").is_err());
}

#[test]
fn an_unreadable_body_is_an_invalid_response() {
    let e = invalid_json_error(200, "{", "/contacts/1", "EOF while parsing");
    assert_eq!(e.code, DayliteApiErrorCode::InvalidResponse);
    assert_eq!(e.user_message, "Die Antwort von Daylite konnte nicht verarbeitet werden.");
    assert_eq!(e.technical_message, "JSON-Verarbeitung für /contacts/1 fehlgeschlagen: EOF while parsing; body={");
}

#[test]
fn long_bodies_are_cut_for_the_log() {
    let long = "x".repeat(1000);
    let cut = truncate_for_log(&long);
    assert!(cut.chars().count() < long.chars().count());
    assert!(cut.starts_with("xxxx"));
    assert_eq!(truncate_for_log("kurz"), "kurz");
}

#[test]
fn the_limit_becomes_a_query_parameter() {
    assert_eq!(build_limit_query(Some(5)), vec![("limit".to_string(), "5".to_string())]);
    assert!(build_limit_query(None).is_empty());
}

#[test]
fn base_urls_are_trimmed_of_trailing_slashes_and_blank_ones_refused() {
    assert_eq!(normalize_base_url(" https://api.marketcircle.net/v1/ ").unwrap(), "https://api.marketcircle.net/v1");
    let e = normalize_base_url("   ").unwrap_err();
    assert_eq!(e.code, DayliteApiErrorCode::InvalidConfiguration);
}

#[test]
fn only_an_authorization_failure_renews_the_tokens() {
    assert!(should_renew_and_retry(&normalize_http_error(401, "", "/x")));
    assert!(!should_renew_and_retry(&normalize_http_error(500, "", "/x")));
}

#[test]
fn token_status_and_rotation_need_a_refresh_token() {
    let status = token_sync_status(&tokens("at", "", None));
    assert!(status.has_access_token);
    assert!(!status.has_refresh_token);
    assert!(token_sync_status(&tokens("at", "  ", None)).has_refresh_token);
    assert!(check_rotation_possible(&tokens("at", "rt", None)).is_ok());
    assert!(check_rotation_possible(&tokens("at", "", None)).is_ok());
    assert_eq!(check_rotation_possible(&tokens(" ", "", None)).unwrap_err().code, DayliteApiErrorCode::MissingToken);
    assert!(check_refresh_token("rt").is_ok());
    assert_eq!(check_refresh_token(" ").unwrap_err().code, DayliteApiErrorCode::MissingToken);
}

fn reply(access: &str, refresh: &str, expires_in: u64) -> Result<DayliteRefreshTokenResponse, String> {
    Ok(DayliteRefreshTokenResponse { access_token: access.to_string(), refresh_token: refresh.to_string(), expires_in })
}

#[test]
fn a_refresh_reply_gives_trimmed_tokens_expiring_after_its_lifetime() {
    let t = interpret_refresh_response(200, "{}", reply(" new-at ", "new-rt", 3600), Ok(1_000)).unwrap();
    assert_eq!(t.access_token, "new-at");
    assert_eq!(t.refresh_token, "new-rt");
    assert_eq!(t.access_token_expires_at_ms, Some(3_601_000));
}

#[test]
fn every_kind_of_bad_refresh_reply_is_a_refresh_failure() {
    let cases = [
        (401, reply("a", "r", 10)),
        (200, Err("expected value".to_string())),
        (200, reply(" ", "r", 10)),
        (200, reply("a", "", 10)),
        (200, reply("a", "r", 0)),
    ];
    for (status, parsed) in cases {
        let e = interpret_refresh_response(status, "body", parsed, Ok(0)).unwrap_err();
        assert_eq!(e.code, DayliteApiErrorCode::TokenRefreshFailed);
        assert_eq!(e.http_status, Some(status));
    }
}

#[test]
fn requests_carry_a_bearer_header_only_for_a_real_token() {
    assert_eq!(bearer_header(&Some("abc".to_string())), Some("Bearer abc".to_string()));
    assert_eq!(bearer_header(&Some("  ".to_string())), None);
    assert_eq!(bearer_header(&None), None);
    assert_eq!(request_url_text("https://api.example/v1", "/projects/1"), "https://api.example/v1/projects/1");
    assert_eq!(DayliteHttpMethod::Patch.as_str(), "PATCH");
}

#[test]
fn a_token_needs_time_left_beyond_the_margin() {
    assert!(has_life_left(&tokens("at", "rt", Some(100_000)), 10_000, 60_000));
    assert!(!has_life_left(&tokens("at", "rt", Some(70_000)), 10_000, 60_000));
    assert!(!has_life_left(&tokens(" ", "rt", Some(u64::MAX)), 0, 0));
    assert!(!has_life_left(&tokens("at", "rt", None), 0, 0));
    assert!(!has_life_left(&tokens("at", "rt", Some(u64::MAX)), u64::MAX, 1));
}

#[test]
fn a_publication_supersedes_the_seeded_tokens() {
    let mut session = TokenSessionState::new();
    assert!(session.is_empty());
    session.seed(tokens("seed", "rt", Some(500_000)));
    assert_eq!(session.fresh_lease(0, 60_000).unwrap().generation, 0);
    let lease = session.publish(tokens("new", "rt2", Some(900_000)));
    assert_eq!(lease.generation, 1);
    session.seed(tokens("late-seed", "rt", Some(1)));
    assert_eq!(session.current_tokens().unwrap().access_token, "new");
    assert_eq!(session.lease_newer_than(0).unwrap().tokens.access_token, "new");
    assert!(session.lease_newer_than(1).is_none());
    assert!(session.fresh_lease(900_000, 60_000).is_none());
}

fn project(name: &str) -> ResolvedProject {
    ResolvedProject { name: name.to_string(), status: "in_progress".to_string(), category: None }
}

#[test]
fn a_loaded_project_is_served_until_its_ttl_runs_out() {
    let mut slot: Option<CacheEntry> = None;
    assert_eq!(record_load(&mut slot, Some(project("Nord")), 1_000), Some(project("Nord")));
    assert_eq!(served_project(&slot, 30_999, 30_000), Some(project("Nord")));
    assert_eq!(served_project(&slot, 31_000, 30_000), None);
    assert_eq!(record_load(&mut slot, None, 40_000), None);
    assert_eq!(slot.as_ref().unwrap().fetched_at_ms, 1_000);
    assert!(is_fresh(5_000, 1_000, 1));
    assert!(needs_sweep(513, 512, false));
    assert!(!needs_sweep(513, 512, true));
    assert!(sweep_keeps(&None, true, 0, 1));
    assert!(!sweep_keeps(&None, false, 0, 1));
    assert!(sweep_keeps(&slot, false, 2_000, 30_000));
}

#[test]
fn category_colours_are_normalised_and_blank_ones_left_out() {
    assert_eq!(normalize_hex_colour(Some(" ff0000 ".to_string())), Some("#ff0000".to_string()));
    assert_eq!(normalize_hex_colour(Some("#00ff00".to_string())), Some("#00ff00".to_string()));
    assert_eq!(normalize_hex_colour(Some("  ".to_string())), None);
    let categories = vec![
        DayliteCategoryDto { name: " Bau ".to_string(), hex_colour: Some("123456".to_string()) },
        DayliteCategoryDto { name: "Ohne Farbe".to_string(), hex_colour: None },
        DayliteCategoryDto { name: " ".to_string(), hex_colour: Some("#fff".to_string()) },
    ];
    let colours = project_category_colours(&categories);
    assert_eq!(colours.len(), 1);
    assert_eq!(colours[0].1, "#123456");
}

#[test]
fn the_secret_store_outcome_decides_the_loaded_tokens() {
    assert_eq!(load_daylite_tokens(SecretRead::Found(Ok(tokens("a", "r", Some(5))))), Ok(tokens("a", "r", Some(5))));
    assert_eq!(load_daylite_tokens(SecretRead::NotFound), Ok(tokens("", "", None)));
    let broken = load_daylite_tokens(SecretRead::Found(Err("EOF".to_string()))).unwrap_err();
    assert_eq!(broken.code, DayliteApiErrorCode::InvalidConfiguration);
    assert_eq!(broken.technical_message, "Token-JSON konnte nicht deserialisiert werden: EOF");
    let locked = load_daylite_tokens(SecretRead::Unreadable("denied".to_string())).unwrap_err();
    assert_eq!(locked.technical_message, "Keychain-Fehler beim Lesen des Daylite-Tokens: denied");
    assert_eq!(token_encoding_error("x").technical_message, "Token serialization failed: x");
    assert_eq!(token_store_refused_error("nope").technical_message, "nope");
    assert_eq!(token_store_refused_error("nope").code, DayliteApiErrorCode::ServerError);
}
