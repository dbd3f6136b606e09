use lkr_planner::daylite::rotation::{
    access_rotation_panics_exec, after_final_reply, after_first_reply, apply_rotated_tokens, bearer_cut_splits_exec,
    body_decode_error, check_stored_refresh_token, eq_ignore_ascii_case, extract_access_token, extract_header_token,
    extract_refresh_token, find_json_key_value, interpret_rotating_refresh, normalize_access_token, start_json_request,
    DayliteReply, FirstReplyStep, JsonValue, RequestStart,
};
use lkr_planner::daylite::shared::{DayliteApiErrorCode, DayliteTokenState};

fn tokens(access: &str, refresh: &str) -> DayliteTokenState {
    DayliteTokenState { access_token: access.to_string(), refresh_token: refresh.to_string(), access_token_expires_at_ms: None }
}

fn reply(status: u16, headers: &[(&str, &str)], json: Option<JsonValue>) -> DayliteReply {
    DayliteReply {
        status,
        headers: headers.iter().map(|(k, v)| (k.to_string(), v.to_string())).collect(),
        body: "{}".to_string(),
        json,
    }
}

fn text(s: &str) -> JsonValue {
    JsonValue::Text(s.to_string())
}

fn object(members: Vec<(&str, JsonValue)>) -> JsonValue {
    JsonValue::Object(members.into_iter().map(|(k, v)| (k.to_string(), v)).collect())
}

#[test]
fn bearer_prefixes_are_stripped_in_any_case() {
    assert_eq!(normalize_access_token("  Bearer abc "), "abc");
    assert_eq!(normalize_access_token("bEaReR   xyz"), "xyz");
    assert_eq!(normalize_access_token("token-only"), "token-only");
    assert_eq!(normalize_access_token("Bearer"), "Bearer");
    assert!(eq_ignore_ascii_case("Access_Token", "access_token"));
    assert!(!eq_ignore_ascii_case("Straße", "STRASSE"));
}

#[test]
fn a_token_whose_seventh_byte_splits_a_character_is_detected() {
    assert!(bearer_cut_splits_exec("abcdefé-token"));
    assert!(!bearer_cut_splits_exec("abcdeé-token"));
    assert!(!bearer_cut_splits_exec("kurz"));
    assert!(!bearer_cut_splits_exec("Bearer abc"));
}

#[test]
fn header_tokens_come_from_the_first_candidate_present() {
    let headers = vec![("access_token".to_string(), " second ".to_string()), ("authorization".to_string(), " first ".to_string())];
    assert_eq!(extract_header_token(&headers, &["authorization", "access_token"]), Some("first".to_string()));
    assert_eq!(extract_header_token(&headers, &["x-missing"]), None);
}

#[test]
fn json_tokens_are_found_depth_first_with_keys_ignoring_case() {
    let doc = object(vec![
        ("data", JsonValue::Array(vec![JsonValue::Null, object(vec![("Access_Token", text("tief"))])])),
        ("token", JsonValue::Number),
    ]);
    assert_eq!(find_json_key_value(&doc, &["access_token"]), Some("tief".to_string()));
    assert_eq!(find_json_key_value(&doc, &["token"]), None);
    let nested = object(vec![("token", object(vec![("token", text("innen"))]))]);
    assert_eq!(find_json_key_value(&nested, &["token"]), Some("innen".to_string()));
}

#[test]
fn rotation_prefers_headers_and_falls_back_to_the_body() {
    let r = reply(200, &[("authorization", "Bearer neu")], Some(object(vec![("refresh_token", text("r2"))])));
    assert_eq!(extract_access_token(&r), Some("neu".to_string()));
    assert_eq!(extract_refresh_token(&r), Some("r2".to_string()));
    let blank_header = reply(200, &[("authorization", "  ")], Some(object(vec![("token", text("aus-json"))])));
    assert_eq!(extract_access_token(&blank_header), Some("aus-json".to_string()));
    let bare_bearer = reply(200, &[("authorization", "Bearer  ")], None);
    assert_eq!(extract_access_token(&bare_bearer), Some("Bearer".to_string()));
    let mut t = tokens("alt", "r-alt");
    apply_rotated_tokens(&reply(200, &[], None), &mut t);
    assert_eq!(t, tokens("alt", "r-alt"));
    apply_rotated_tokens(&r, &mut t);
    assert_eq!(t, tokens("neu", "r2"));
    assert!(!access_rotation_panics_exec(&r));
    assert!(access_rotation_panics_exec(&reply(200, &[("authorization", "abcdefé")], None)));
}

#[test]
fn a_rotating_refresh_adopts_the_new_tokens_or_explains_what_is_missing() {
    let ok = interpret_rotating_refresh("r-alt", &reply(200, &[("access-token", "neu")], None), "{}").unwrap();
    assert_eq!(ok, tokens("neu", "r-alt"));
    let missing = interpret_rotating_refresh("r-alt", &reply(200, &[], None), "{\"x\": \"y\"}").unwrap_err();
    assert_eq!(missing.code, DayliteApiErrorCode::TokenRefreshFailed);
    assert_eq!(missing.technical_message, "Kein Access-Token in Refresh-Antwort gefunden. headers={\"x\": \"y\"}, body={}");
    let failed = interpret_rotating_refresh("r-alt", &reply(500, &[], None), "{}").unwrap_err();
    assert_eq!(failed.code, DayliteApiErrorCode::TokenRefreshFailed);
    assert_eq!(failed.http_status, Some(500));
    assert_eq!(check_stored_refresh_token(" ").unwrap_err().code, DayliteApiErrorCode::MissingToken);
    assert!(check_stored_refresh_token("r").is_ok());
}

#[test]
fn a_json_request_refreshes_retries_once_and_reports_failures() {
    assert_eq!(start_json_request(&tokens("", "")).unwrap_err().code, DayliteApiErrorCode::MissingToken);
    assert_eq!(start_json_request(&tokens(" ", "r")), Ok(RequestStart::Refresh("r".to_string())));
    assert_eq!(start_json_request(&tokens("a", "r")), Ok(RequestStart::Send("a".to_string())));

    match after_first_reply("/projects", tokens("a", "r"), &reply(401, &[], None)) {
        FirstReplyStep::Retry(t) => assert_eq!(t, tokens("a", "r")),
        FirstReplyStep::Finished(_) => panic!("a refused token with a refresh token left is retried"),
    }
    match after_first_reply("/projects", tokens("a", ""), &reply(401, &[], None)) {
        FirstReplyStep::Finished(Err(e)) => assert_eq!(e.code, DayliteApiErrorCode::Unauthorized),
        _ => panic!("without a refresh token the 401 is final"),
    }
    match after_first_reply("/projects", tokens("a", "r"), &reply(200, &[("refresh-token", "r9")], None)) {
        FirstReplyStep::Finished(Ok(t)) => assert_eq!(t, tokens("a", "r9")),
        _ => panic!("a success finishes the request"),
    }
    let e = after_final_reply("/projects", tokens("a", "r"), &reply(429, &[], None)).unwrap_err();
    assert_eq!(e.code, DayliteApiErrorCode::RateLimited);
    let d = body_decode_error(200, "[]", "/projects", "invalid type");
    assert_eq!(d.code, DayliteApiErrorCode::InvalidResponse);
    assert_eq!(d.technical_message, "JSON-Deserialisierung für /projects fehlgeschlagen: invalid type; body=[]");
}
