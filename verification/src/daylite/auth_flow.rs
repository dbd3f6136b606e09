//! The token refresh exchange with Daylite and the shape of authenticated
//! requests.

use super::shared::{
    has_text, http_error_kind, http_error_log, json_error_log, missing_token_error, normalize_http_error,
    truncate_for_log, truncated_for_log, DayliteApiError, DayliteApiErrorCode, DayliteTokenState,
};
use super::rotation::JsonValue;
use crate::text::{push_str, trim, trimmed};
use vstd::prelude::*;

verus! {

/// The API path of the token refresh.
pub open spec fn refresh_path() -> Seq<char> {
    "/personal_token/refresh_token"@
}

/// The body of a token refresh answer.
#[derive(Clone, Debug, PartialEq, Eq)]
pub struct DayliteRefreshTokenResponse {
    pub access_token: String,
    pub refresh_token: String,
    /// Lifetime of the new access token in seconds.
    pub expires_in: u64,
}

/// A refresh needs a refresh token that is not blank.
pub fn check_refresh_token(refresh_token: &str) -> (r: Result<(), DayliteApiError>)
    ensures
        r is Ok <==> trimmed(refresh_token@).len() > 0,
        r matches Err(e) ==> e.code == DayliteApiErrorCode::MissingToken && e.http_status is None && e.user_message@
            == "Das Daylite-Refresh-Token fehlt. Bitte Refresh-Token hinterlegen."@ && e.technical_message@
            == "Refresh-Token ist leer."@,
{
    if !has_text(refresh_token) {
        return Err(
            missing_token_error("Das Daylite-Refresh-Token fehlt. Bitte Refresh-Token hinterlegen.", "Refresh-Token ist leer."),
        );
    }
    Ok(())
}

/// The tokens a refresh answer yields, or why it is refused; `parsed` is the
/// answer body read as JSON (or the parser's error text), `now_ms` the time
/// the answer arrived.
///
/// A non-2xx status is a failed refresh with the HTTP error's messages; an
/// unreadable body, a blank access or refresh token or a zero lifetime are
/// failed refreshes too. Otherwise the trimmed tokens expire `expires_in`
/// seconds after `now_ms` (saturating).
pub open spec fn refreshed_tokens(
    status: u16,
    body: Seq<char>,
    parsed: Result<(Seq<char>, Seq<char>, u64), Seq<char>>,
    now_ms: u64,
) -> Result<(Seq<char>, Seq<char>, u64), (Seq<char>, Seq<char>)> {
    if !(200 <= status < 300) {
        Err((http_error_kind(status).1, http_error_log(status, body, refresh_path())))
    } else {
        match parsed {
            Err(detail) => Err(
                (
                    "Die Daylite-Token-Antwort konnte nicht verarbeitet werden."@,
                    json_error_log(refresh_path(), detail, body),
                ),
            ),
            Ok((access, refresh, expires_in)) => if trimmed(access).len() == 0 {
                Err(
                    (
                        "Das Daylite-Access-Token konnte nicht erneuert werden."@,
                        "Refresh-Antwort enthält ein leeres access_token Feld. body="@ + truncated_for_log(body),
                    ),
                )
            } else if trimmed(refresh).len() == 0 {
                Err(
                    (
                        "Das Daylite-Refresh-Token konnte nicht erneuert werden."@,
                        "Refresh-Antwort enthält ein leeres refresh_token Feld. body="@ + truncated_for_log(body),
                    ),
                )
            } else if expires_in == 0 {
                Err(
                    (
                        "Die Ablaufzeit des Daylite-Access-Tokens ist ungültig."@,
                        "Refresh-Antwort enthält expires_in=0. body="@ + truncated_for_log(body),
                    ),
                )
            } else {
                Ok((trimmed(access), trimmed(refresh), saturating_expiry(now_ms, expires_in)))
            },
        }
    }
}

/// `now + seconds * 1000`, each step saturating at `u64::MAX`.
pub open spec fn saturating_expiry(now_ms: u64, expires_in: u64) -> u64 {
    let ms: int = if expires_in * 1000 > u64::MAX { u64::MAX as int } else { expires_in * 1000 };
    if now_ms + ms > u64::MAX {
        u64::MAX
    } else {
        (now_ms + ms) as u64
    }
}

/// The view of a parsed refresh answer.
pub open spec fn parsed_view(parsed: Result<DayliteRefreshTokenResponse, String>) -> Result<(Seq<char>, Seq<char>, u64), Seq<char>> {
    match parsed {
        Ok(p) => Ok((p.access_token@, p.refresh_token@, p.expires_in)),
        Err(e) => Err(e@),
    }
}

fn refresh_failure(status: u16, user_message: &str, technical_message: String) -> (r: DayliteApiError)
    ensures
        r.code == DayliteApiErrorCode::TokenRefreshFailed,
        r.http_status == Some(status),
        r.user_message@ == user_message@,
        r.technical_message@ == technical_message@,
{
    DayliteApiError::new(DayliteApiErrorCode::TokenRefreshFailed, Some(status), user_message.to_owned(), technical_message)
}

fn with_body(prefix: &str, body: &str) -> (r: String)
    ensures
        r@ == prefix@ + truncated_for_log(body@),
{
    let mut m = prefix.to_owned();
    let cut = truncate_for_log(body);
    push_str(&mut m, cut.as_str());
    m
}

/// A refresh answer read as JSON (`parsed`: the answer, or the parser's
/// error text): a body that did not parse is a failed refresh naming the
/// parser's complaint.
pub fn parse_refresh_response_body(
    status: u16,
    body: &str,
    parsed: Result<DayliteRefreshTokenResponse, String>,
) -> (r: Result<DayliteRefreshTokenResponse, DayliteApiError>)
    ensures
        match parsed {
            Ok(p) => r == Ok::<DayliteRefreshTokenResponse, DayliteApiError>(p),
            Err(detail) => r matches Err(e) && e.code == DayliteApiErrorCode::TokenRefreshFailed && e.http_status
                == Some(status) && e.user_message@ == "Die Daylite-Token-Antwort konnte nicht verarbeitet werden."@
                && e.technical_message@ == json_error_log(refresh_path(), detail@, body@),
        },
{
    match parsed {
        Ok(p) => Ok(p),
        Err(detail) => {
            let error = super::shared::invalid_json_error(status, body, "/personal_token/refresh_token", detail.as_str());
            Err(
                DayliteApiError {
                    code: DayliteApiErrorCode::TokenRefreshFailed,
                    user_message: "Die Daylite-Token-Antwort konnte nicht verarbeitet werden.".to_owned(),
                    ..error
                },
            )
        },
    }
}

/// Interprets a token refresh answer (see `refreshed_tokens`); every refusal
/// is a `TokenRefreshFailed` error carrying the status. `clock` is the time the
/// answer arrived, or why it could not be read; a clock error is returned only
/// for an answer that is otherwise accepted.
pub fn interpret_refresh_response(
    status: u16,
    body: &str,
    parsed: Result<DayliteRefreshTokenResponse, String>,
    clock: Result<u64, DayliteApiError>,
) -> (r: Result<DayliteTokenState, DayliteApiError>)
    ensures
        match clock {
            Ok(now_ms) => match refreshed_tokens(status, body@, parsed_view(parsed), now_ms) {
                Ok((access, refresh, expires)) => r matches Ok(t) && t.access_token@ == access && t.refresh_token@
                    == refresh && t.access_token_expires_at_ms == Some(expires),
                Err((user, technical)) => r matches Err(e) && e.code == DayliteApiErrorCode::TokenRefreshFailed
                    && e.http_status == Some(status) && e.user_message@ == user && e.technical_message@ == technical,
            },
            Err(c) => match refreshed_tokens(status, body@, parsed_view(parsed), 0) {
                Ok(_) => r == Err::<DayliteTokenState, DayliteApiError>(c),
                Err((user, technical)) => r matches Err(e) && e.code == DayliteApiErrorCode::TokenRefreshFailed
                    && e.http_status == Some(status) && e.user_message@ == user && e.technical_message@ == technical,
            },
        },
{
    if !(200 <= status && status < 300) {
        let error = normalize_http_error(status, body, "/personal_token/refresh_token");
        return Err(DayliteApiError { code: DayliteApiErrorCode::TokenRefreshFailed, ..error });
    }
    let answer = match parse_refresh_response_body(status, body, parsed) {
        Ok(p) => p,
        Err(error) => return Err(error),
    };
    let access_token = super::shared::trimmed(answer.access_token);
    let refresh_token = super::shared::trimmed(answer.refresh_token);
    if !has_text(access_token.as_str()) {
        proof {
            crate::text::lemma_trimmed_idempotent(parsed_view(parsed)->Ok_0.0);
        }
        return Err(
            refresh_failure(
                status,
                "Das Daylite-Access-Token konnte nicht erneuert werden.",
                with_body("Refresh-Antwort enthält ein leeres access_token Feld. body=", body),
            ),
        );
    }
    if !has_text(refresh_token.as_str()) {
        proof {
            crate::text::lemma_trimmed_idempotent(parsed_view(parsed)->Ok_0.0);
            crate::text::lemma_trimmed_idempotent(parsed_view(parsed)->Ok_0.1);
        }
        return Err(
            refresh_failure(
                status,
                "Das Daylite-Refresh-Token konnte nicht erneuert werden.",
                with_body("Refresh-Antwort enthält ein leeres refresh_token Feld. body=", body),
            ),
        );
    }
    proof {
        crate::text::lemma_trimmed_idempotent(parsed_view(parsed)->Ok_0.0);
        crate::text::lemma_trimmed_idempotent(parsed_view(parsed)->Ok_0.1);
    }
    if answer.expires_in == 0 {
        return Err(
            refresh_failure(
                status,
                "Die Ablaufzeit des Daylite-Access-Tokens ist ungültig.",
                with_body("Refresh-Antwort enthält expires_in=0. body=", body),
            ),
        );
    }
    let now_ms = match clock {
        Ok(n) => n,
        Err(c) => return Err(c),
    };
    let lifetime_ms: u64 = if answer.expires_in > u64::MAX / 1000 {
        u64::MAX
    } else {
        answer.expires_in * 1000
    };
    let expires_at_ms = now_ms.saturating_add(lifetime_ms);
    Ok(DayliteTokenState { access_token, refresh_token, access_token_expires_at_ms: Some(expires_at_ms) })
}

/// An HTTP method of the Daylite API.
#[derive(Clone, Copy, Debug, PartialEq, Eq, Structural)]
pub enum DayliteHttpMethod {
    Get,
    Post,
    Patch,
}

impl DayliteHttpMethod {
    /// The method's name.
    pub fn as_str(&self) -> (r: &'static str)
        ensures
            r@ == match self {
                DayliteHttpMethod::Get => "GET"@,
                DayliteHttpMethod::Post => "POST"@,
                DayliteHttpMethod::Patch => "PATCH"@,
            },
    {
        match self {
            DayliteHttpMethod::Get => "GET",
            DayliteHttpMethod::Post => "POST",
            DayliteHttpMethod::Patch => "PATCH",
        }
    }
}

/// A Daylite reply: its status and body.
#[derive(Clone, Debug, PartialEq, Eq)]
pub struct DayliteHttpResponse {
    pub status: u16,
    pub body: String,
}

/// A request to the Daylite API: method, path below the base URL, query
/// pairs in order, JSON body and the access token to send.
#[derive(Debug, PartialEq, Eq)]
pub struct DayliteHttpRequest {
    pub method: DayliteHttpMethod,
    pub path: String,
    pub query: Vec<(String, String)>,
    pub body: Option<JsonValue>,
    pub access_token: Option<String>,
}

/// The token refresh request: nothing is sent for a blank refresh token (the
/// missing-token error of `check_refresh_token`); otherwise one `GET` of the
/// refresh path whose only query pair carries the token as given, with no
/// body and no access token.
pub fn refresh_request(refresh_token: &str) -> (r: Result<DayliteHttpRequest, DayliteApiError>)
    ensures
        r is Ok <==> trimmed(refresh_token@).len() > 0,
        r matches Err(e) ==> e.code == DayliteApiErrorCode::MissingToken && e.http_status is None && e.user_message@
            == "Das Daylite-Refresh-Token fehlt. Bitte Refresh-Token hinterlegen."@ && e.technical_message@
            == "Refresh-Token ist leer."@,
        r matches Ok(q) ==> q.method == DayliteHttpMethod::Get && q.path@ == refresh_path() && q.query@.len() == 1
            && q.query@[0].0@ == "refresh_token"@ && q.query@[0].1@ == refresh_token@ && q.body is None
            && q.access_token is None,
{
    match check_refresh_token(refresh_token) {
        Err(e) => Err(e),
        Ok(()) => {
            let mut query: Vec<(String, String)> = Vec::new();
            query.push(("refresh_token".to_owned(), refresh_token.to_owned()));
            Ok(
                DayliteHttpRequest {
                    method: DayliteHttpMethod::Get,
                    path: "/personal_token/refresh_token".to_owned(),
                    query,
                    body: None,
                    access_token: None,
                },
            )
        },
    }
}

/// The Authorization header of a request: `Bearer <token>` when the token is
/// not blank, none otherwise.
pub fn bearer_header(access_token: &Option<String>) -> (r: Option<String>)
    ensures
        match access_token {
            Some(t) => if trimmed(t@).len() > 0 {
                r matches Some(h) && h@ == "Bearer "@ + t@
            } else {
                r is None
            },
            None => r is None,
        },
{
    match access_token {
        Some(t) => if has_text(t.as_str()) {
            let mut h = "Bearer ".to_owned();
            push_str(&mut h, t.as_str());
            Some(h)
        } else {
            None
        },
        None => None,
    }
}

/// The URL text of a request: the normalised base URL followed by the path.
pub fn request_url_text(base_url: &str, path: &str) -> (r: String)
    ensures
        r@ == base_url@ + path@,
{
    let mut u = base_url.to_owned();
    push_str(&mut u, path);
    u
}

} // verus!
