//! Records and error rules shared by every Daylite API call.

use crate::local_store::StoreError;
use crate::text::{decimal, opt_view, push_str, trim, u64_to_text};
use vstd::prelude::*;
use vstd::string::StrSliceExecFns;

verus! {

/// The Daylite OAuth tokens the planner holds.
#[derive(Clone, Debug, Default, PartialEq, Eq)]
pub struct DayliteTokenState {
    pub access_token: String,
    pub refresh_token: String,
    /// When the access token expires, in milliseconds since the Unix epoch.
    pub access_token_expires_at_ms: Option<u64>,
}

/// Which tokens are present, as the settings screen shows it.
#[derive(Clone, Debug, PartialEq, Eq)]
pub struct DayliteTokenSyncStatus {
    pub has_access_token: bool,
    pub has_refresh_token: bool,
}

/// One page of a Daylite search.
#[derive(Clone, Debug, PartialEq, Eq)]
pub struct DayliteSearchResult<T> {
    pub results: Vec<T>,
    pub next: Option<String>,
}

/// Data returned together with the token state it was fetched with.
#[derive(Clone, Debug, PartialEq, Eq)]
pub struct DayliteApiResponse<T> {
    pub data: T,
    pub token_state: DayliteTokenState,
}

/// A failed Daylite call: a code, the HTTP status if one came back, a message
/// for the user and one for the log.
#[derive(Clone, Debug, PartialEq, Eq)]
pub struct DayliteApiError {
    pub code: DayliteApiErrorCode,
    pub http_status: Option<u16>,
    pub user_message: String,
    pub technical_message: String,
}

/// The kind of a Daylite failure.
#[derive(Clone, Copy, Debug, PartialEq, Eq, Structural)]
pub enum DayliteApiErrorCode {
    Unauthorized,
    RateLimited,
    ServerError,
    MissingToken,
    InvalidConfiguration,
    RequestFailed,
    InvalidResponse,
    TokenRefreshFailed,
    Timeout,
}

/// Connects with a refresh token.
#[derive(Clone, Debug, PartialEq, Eq)]
pub struct DayliteRefreshTokenRequest {
    pub base_url: String,
    pub refresh_token: String,
}

/// Connects with a personal token.
#[derive(Clone, Debug, PartialEq, Eq)]
pub struct DaylitePersonalTokenRequest {
    pub base_url: String,
    pub personal_token: String,
}

/// The order of search results.
#[derive(Clone, Copy, Debug, PartialEq, Eq, Structural)]
pub enum DayliteSearchSort {
    Id,
    Name,
}

/// A search request as the frontend sends it.
#[derive(Clone, Debug, PartialEq, Eq)]
pub struct DayliteSearchInput {
    pub search_term: String,
    pub limit: Option<u16>,
    pub statuses: Option<Vec<String>>,
    pub full_records: Option<bool>,
    pub start: Option<String>,
    pub sort: Option<DayliteSearchSort>,
}

impl DayliteApiError {
    /// An error with the given parts.
    pub fn new(code: DayliteApiErrorCode, http_status: Option<u16>, user_message: String, technical_message: String) -> (r: Self)
        ensures
            r.code == code,
            r.http_status == http_status,
            r.user_message@ == user_message@,
            r.technical_message@ == technical_message@,
    {
        DayliteApiError { code, http_status, user_message, technical_message }
    }
}

/// The query of a limited listing: `limit=<n>` when a limit is given.
pub fn build_limit_query(limit: Option<u16>) -> (r: Vec<(String, String)>)
    ensures
        limit is None ==> r@.len() == 0,
        limit matches Some(n) ==> r@.len() == 1 && r@[0].0@ == "limit"@ && r@[0].1@ == decimal(n as nat),
{
    let mut query: Vec<(String, String)> = Vec::new();
    if let Some(n) = limit {
        query.push(("limit".to_owned(), u64_to_text(n as u64)));
    }
    query
}

/// `s` without trailing `/` characters (`trim_end_matches('/')`).
pub open spec fn without_trailing_slashes(s: Seq<char>) -> Seq<char>
    decreases s.len(),
{
    if s.len() > 0 && s.last() == '/' {
        without_trailing_slashes(s.drop_last())
    } else {
        s
    }
}

/// `s` without trailing `/` characters.
pub fn trim_trailing_slashes(s: &str) -> (r: String)
    ensures
        r@ == without_trailing_slashes(s@),
{
    let n = s.unicode_len();
    let mut b: usize = n;
    assert(s@.subrange(0, n as int) =~= s@);
    while b > 0 && s.get_char(b - 1) == '/'
        invariant
            n == s@.len(),
            b <= n,
            without_trailing_slashes(s@) == without_trailing_slashes(s@.subrange(0, b as int)),
        decreases b,
    {
        assert(s@.subrange(0, b as int).drop_last() =~= s@.subrange(0, b - 1));
        b = b - 1;
    }
    s.substring_char(0, b).to_owned()
}

/// The user message of an unconfigured Daylite URL.
pub open spec fn missing_base_url_message() -> Seq<char> {
    "Die Daylite-URL ist nicht konfiguriert."@
}

/// The base URL trimmed of whitespace and trailing slashes; an empty one is a
/// configuration error.
pub fn normalize_base_url(base_url: &str) -> (r: Result<String, DayliteApiError>)
    ensures
        without_trailing_slashes(crate::text::trimmed(base_url@)).len() > 0 <==> r is Ok,
        r matches Ok(u) ==> u@ == without_trailing_slashes(crate::text::trimmed(base_url@)),
        r matches Err(e) ==> e.code == DayliteApiErrorCode::InvalidConfiguration && e.http_status is None
            && e.user_message@ == missing_base_url_message(),
{
    let t = trim(base_url);
    let u = trim_trailing_slashes(t.as_str());
    if u.as_str().unicode_len() == 0 {
        return Err(
            DayliteApiError::new(
                DayliteApiErrorCode::InvalidConfiguration,
                None,
                "Die Daylite-URL ist nicht konfiguriert.".to_owned(),
                "Leere dayliteBaseUrl-Konfiguration".to_owned(),
            ),
        );
    }
    Ok(u)
}

/// The number of characters a logged body keeps.
pub const LOG_LIMIT: usize = 400;

/// A body as it goes into a log line: at most 400 characters, and `...` when
/// it was cut.
pub open spec fn truncated_for_log(s: Seq<char>) -> Seq<char> {
    if s.len() <= LOG_LIMIT {
        s
    } else {
        s.take(LOG_LIMIT as int) + "..."@
    }
}

/// Cuts a body for the log (see `truncated_for_log`).
pub fn truncate_for_log(value: &str) -> (r: String)
    ensures
        r@ == truncated_for_log(value@),
{
    let n = value.unicode_len();
    if n <= LOG_LIMIT {
        return value.to_owned();
    }
    let mut r = value.substring_char(0, LOG_LIMIT).to_owned();
    push_str(&mut r, "...");
    assert(r@ =~= value@.take(LOG_LIMIT as int) + "..."@);
    r
}

/// The code and user message an HTTP failure status maps to.
pub open spec fn http_error_kind(status: u16) -> (DayliteApiErrorCode, Seq<char>) {
    if status == 401 {
        (DayliteApiErrorCode::Unauthorized, "Die Daylite-Anmeldung ist abgelaufen oder ungültig."@)
    } else if status == 429 {
        (
            DayliteApiErrorCode::RateLimited,
            "Daylite hat zu viele Anfragen erhalten. Bitte kurz warten und erneut versuchen."@,
        )
    } else if 500 <= status <= 599 {
        (DayliteApiErrorCode::ServerError, "Daylite ist aktuell nicht erreichbar."@)
    } else {
        (DayliteApiErrorCode::RequestFailed, "Die Daten konnten nicht von Daylite geladen werden."@)
    }
}

/// The log message of an HTTP failure.
pub open spec fn http_error_log(status: u16, body: Seq<char>, path: Seq<char>) -> Seq<char> {
    "Daylite request failed for "@ + path + " with status="@ + decimal(status as nat) + "; body="@ + truncated_for_log(body)
}

/// The error a failed HTTP response maps to: 401 is unauthorized, 429 rate
/// limited, 5xx a server error and anything else a failed request.
pub fn normalize_http_error(status: u16, body: &str, path: &str) -> (r: DayliteApiError)
    ensures
        r.code == http_error_kind(status).0,
        r.user_message@ == http_error_kind(status).1,
        r.http_status == Some(status),
        r.technical_message@ == http_error_log(status, body@, path@),
{
    let (code, user_message) = if status == 401 {
        (DayliteApiErrorCode::Unauthorized, "Die Daylite-Anmeldung ist abgelaufen oder ungültig.")
    } else if status == 429 {
        (DayliteApiErrorCode::RateLimited, "Daylite hat zu viele Anfragen erhalten. Bitte kurz warten und erneut versuchen.")
    } else if 500 <= status && status <= 599 {
        (DayliteApiErrorCode::ServerError, "Daylite ist aktuell nicht erreichbar.")
    } else {
        (DayliteApiErrorCode::RequestFailed, "Die Daten konnten nicht von Daylite geladen werden.")
    };
    let mut technical = "Daylite request failed for ".to_owned();
    push_str(&mut technical, path);
    push_str(&mut technical, " with status=");
    let digits = u64_to_text(status as u64);
    push_str(&mut technical, digits.as_str());
    push_str(&mut technical, "; body=");
    let cut = truncate_for_log(body);
    push_str(&mut technical, cut.as_str());
    assert(technical@ =~= http_error_log(status, body@, path@));
    DayliteApiError::new(code, Some(status), user_message.to_owned(), technical)
}

/// The error of a response whose status is not a success.
pub fn check_success_status(status: u16, body: &str, path: &str) -> (r: Result<(), DayliteApiError>)
    ensures
        (200 <= status < 300) <==> r is Ok,
        r matches Err(e) ==> e.code == http_error_kind(status).0 && e.user_message@ == http_error_kind(status).1
            && e.http_status == Some(status) && e.technical_message@ == http_error_log(status, body@, path@),
{
    if !(200 <= status && status < 300) {
        return Err(normalize_http_error(status, body, path));
    }
    Ok(())
}

/// The log message of a response body that could not be read as JSON.
pub open spec fn json_error_log(path: Seq<char>, detail: Seq<char>, body: Seq<char>) -> Seq<char> {
    "JSON-Verarbeitung für "@ + path + " fehlgeschlagen: "@ + detail + "; body="@ + truncated_for_log(body)
}

/// The error of a response body that could not be read as the expected JSON;
/// `detail` is the parser's own description.
pub fn invalid_json_error(status: u16, body: &str, path: &str, detail: &str) -> (r: DayliteApiError)
    ensures
        r.code == DayliteApiErrorCode::InvalidResponse,
        r.http_status == Some(status),
        r.user_message@ == "Die Antwort von Daylite konnte nicht verarbeitet werden."@,
        r.technical_message@ == json_error_log(path@, detail@, body@),
{
    let mut technical = "JSON-Verarbeitung für ".to_owned();
    push_str(&mut technical, path);
    push_str(&mut technical, " fehlgeschlagen: ");
    push_str(&mut technical, detail);
    push_str(&mut technical, "; body=");
    let cut = truncate_for_log(body);
    push_str(&mut technical, cut.as_str());
    assert(technical@ =~= json_error_log(path@, detail@, body@));
    DayliteApiError::new(
        DayliteApiErrorCode::InvalidResponse,
        Some(status),
        "Die Antwort von Daylite konnte nicht verarbeitet werden.".to_owned(),
        technical,
    )
}

/// An error for a missing token.
pub fn missing_token_error(user_message: &str, technical_message: &str) -> (r: DayliteApiError)
    ensures
        r.code == DayliteApiErrorCode::MissingToken,
        r.http_status is None,
        r.user_message@ == user_message@,
        r.technical_message@ == technical_message@,
{
    DayliteApiError::new(DayliteApiErrorCode::MissingToken, None, user_message.to_owned(), technical_message.to_owned())
}

/// A store failure as a Daylite configuration error, keeping both messages.
pub fn map_store_error(error: StoreError) -> (r: DayliteApiError)
    ensures
        r.code == DayliteApiErrorCode::InvalidConfiguration,
        r.http_status is None,
        r.user_message@ == error.user_message@,
        r.technical_message@ == error.technical_message@,
{
    DayliteApiError::new(DayliteApiErrorCode::InvalidConfiguration, None, error.user_message, error.technical_message)
}

/// A field as Daylite sends it, trimmed, with an empty one read as absent.
pub open spec fn trimmed_or_none_spec(value: Option<Seq<char>>) -> Option<Seq<char>> {
    match value {
        Some(v) => if crate::text::trimmed(v).len() == 0 {
            None
        } else {
            Some(crate::text::trimmed(v))
        },
        None => None,
    }
}

/// Trims a field and reads an empty one as absent.
pub fn trimmed_or_none(value: Option<String>) -> (r: Option<String>)
    ensures
        opt_view(r) == trimmed_or_none_spec(opt_view(value)),
{
    match value {
        Some(v) => {
            let t = trim(v.as_str());
            if t.as_str().unicode_len() == 0 {
                None
            } else {
                Some(t)
            }
        },
        None => None,
    }
}

/// Trims a field.
pub fn trimmed(value: String) -> (r: String)
    ensures
        r@ == crate::text::trimmed(value@),
{
    trim(value.as_str())
}

/// A rejected call is replayed once with renewed tokens exactly when Daylite
/// rejected the tokens.
pub fn should_renew_and_retry(error: &DayliteApiError) -> (r: bool)
    ensures
        r == (error.code == DayliteApiErrorCode::Unauthorized),
{
    match error.code {
        DayliteApiErrorCode::Unauthorized => true,
        _ => false,
    }
}

/// Where a call with leased tokens stands after an attempt.
pub enum AttemptStep<T> {
    /// The call is over with this outcome.
    Finished(Result<T, DayliteApiError>),
    /// Daylite refused the tokens: renew them and call once more.
    RenewAndRetry,
}

/// The step after an attempt: a first attempt whose tokens Daylite refused is
/// retried once with renewed tokens; every other outcome, and every outcome
/// of the retry, is final.
pub open spec fn attempt_step<T>(retried: bool, outcome: Result<T, DayliteApiError>) -> AttemptStep<T> {
    if !retried && (outcome matches Err(e) && e.code == DayliteApiErrorCode::Unauthorized) {
        AttemptStep::RenewAndRetry
    } else {
        AttemptStep::Finished(outcome)
    }
}

/// Decides the step after an attempt (see `attempt_step`); `retried` tells
/// whether the attempt was already the retry.
pub fn after_attempt<T>(retried: bool, outcome: Result<T, DayliteApiError>) -> (r: AttemptStep<T>)
    ensures
        r == attempt_step(retried, outcome),
{
    let refused = match &outcome {
        Err(e) => should_renew_and_retry(e),
        Ok(_) => false,
    };
    if !retried && refused {
        AttemptStep::RenewAndRetry
    } else {
        AttemptStep::Finished(outcome)
    }
}

/// A call is retried at most once: whatever the retry yields is final, and a
/// first attempt is retried exactly when Daylite refused its tokens.
pub proof fn law_a_refused_call_is_retried_at_most_once<T>(first: Result<T, DayliteApiError>, retry: Result<T, DayliteApiError>)
    ensures
        attempt_step(true, retry) == AttemptStep::<T>::Finished(retry),
        attempt_step(false, first) is RenewAndRetry <==> (first matches Err(e) && e.code
            == DayliteApiErrorCode::Unauthorized),
{
}

/// Whether a token text holds anything but whitespace.
pub fn has_text(s: &str) -> (r: bool)
    ensures
        r == (crate::text::trimmed(s@).len() > 0),
{
    let t = trim(s);
    t.as_str().unicode_len() > 0
}

/// The token presence the settings screen shows: whether each token is non-empty.
pub fn token_sync_status(tokens: &DayliteTokenState) -> (r: DayliteTokenSyncStatus)
    ensures
        r.has_access_token == (tokens.access_token@.len() > 0),
        r.has_refresh_token == (tokens.refresh_token@.len() > 0),
{
    DayliteTokenSyncStatus {
        has_access_token: tokens.access_token.as_str().unicode_len() > 0,
        has_refresh_token: tokens.refresh_token.as_str().unicode_len() > 0,
    }
}

/// The error of a rotation attempted without any token: rotation needs at
/// least one of the two tokens.
pub fn check_rotation_possible(current: &DayliteTokenState) -> (r: Result<(), DayliteApiError>)
    ensures
        r is Err <==> (crate::text::trimmed(current.access_token@).len() == 0 && crate::text::trimmed(current.refresh_token@).len() == 0),
        r matches Err(e) ==> e.code == DayliteApiErrorCode::MissingToken,
{
    if !has_text(current.access_token.as_str()) && !has_text(current.refresh_token.as_str()) {
        return Err(
            missing_token_error(
                "Es sind keine Daylite-Zugangsdaten hinterlegt. Bitte ein Refresh-Token hinterlegen.",
                "Weder Access- noch Refresh-Token sind vorhanden.",
            ),
        );
    }
    Ok(())
}

/// The milliseconds since the Unix epoch on the system clock
/// (`SystemTime::duration_since(UNIX_EPOCH)` read by `Duration::as_millis`),
/// or the clock error's text when the clock stands before the epoch. Nothing
/// is stated of the reading: it is the machine's clock at the call.
#[verifier::external_body]
fn epoch_millis_now() -> (r: Result<u128, String>) {
    match std::time::SystemTime::now().duration_since(std::time::UNIX_EPOCH) {
        Ok(elapsed) => Ok(elapsed.as_millis()),
        Err(error) => Err(error.to_string()),
    }
}

/// What the planner tells the user when the system clock cannot be used.
pub open spec fn clock_unreadable_message() -> Seq<char> {
    "Die aktuelle Systemzeit konnte nicht gelesen werden."@
}

/// A clock reading as a Unix timestamp in milliseconds: a clock error, or a
/// reading beyond `u64`, is a failed request naming the cause.
pub fn epoch_ms_of_reading(reading: Result<u128, String>) -> (r: Result<u64, DayliteApiError>)
    ensures
        match reading {
            Ok(ms) => if ms <= u64::MAX {
                r == Ok::<u64, DayliteApiError>(ms as u64)
            } else {
                r matches Err(e) && e.code == DayliteApiErrorCode::RequestFailed && e.http_status is None
                    && e.user_message@ == clock_unreadable_message() && e.technical_message@
                    == "Zeitstempel-Konvertierung fehlgeschlagen: out of range integral type conversion attempted"@
            },
            Err(detail) => r matches Err(e) && e.code == DayliteApiErrorCode::RequestFailed && e.http_status is None
                && e.user_message@ == clock_unreadable_message() && e.technical_message@ == "Systemzeitfehler: "@
                + detail@,
        },
{
    match reading {
        Ok(ms) => {
            if ms <= u64::MAX as u128 {
                Ok(ms as u64)
            } else {
                Err(
                    DayliteApiError::new(
                        DayliteApiErrorCode::RequestFailed,
                        None,
                        "Die aktuelle Systemzeit konnte nicht gelesen werden.".to_owned(),
                        "Zeitstempel-Konvertierung fehlgeschlagen: out of range integral type conversion attempted".to_owned(),
                    ),
                )
            }
        },
        Err(detail) => {
            let mut technical = "Systemzeitfehler: ".to_owned();
            push_str(&mut technical, detail.as_str());
            Err(
                DayliteApiError::new(
                    DayliteApiErrorCode::RequestFailed,
                    None,
                    "Die aktuelle Systemzeit konnte nicht gelesen werden.".to_owned(),
                    technical,
                ),
            )
        },
    }
}

/// The current Unix time in milliseconds (see `epoch_ms_of_reading`); which
/// time it is, and whether the clock can be read at all, rests on the clock.
/// A failure is a failed request without status that names either the clock's
/// error or a reading beyond `u64`.
pub fn current_epoch_ms() -> (r: Result<u64, DayliteApiError>)
    ensures
        r matches Err(e) ==> e.code == DayliteApiErrorCode::RequestFailed && e.http_status is None && e.user_message@
            == clock_unreadable_message() && ("Systemzeitfehler: "@.is_prefix_of(e.technical_message@)
            || e.technical_message@
            == "Zeitstempel-Konvertierung fehlgeschlagen: out of range integral type conversion attempted"@),
{
    epoch_ms_of_reading(epoch_millis_now())
}

} // verus!

