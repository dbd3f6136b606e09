//! Fixed values for exercising the Daylite logic: tokens that never expire
//! and canned replies.

use super::auth_flow::DayliteHttpResponse;
use super::shared::DayliteTokenState;
use vstd::prelude::*;

verus! {

/// A reply with the given status and body.
pub fn mock_response(status: u16, body: &str) -> (r: DayliteHttpResponse)
    ensures
        r.status == status,
        r.body@ == body@,
{
    DayliteHttpResponse { status, body: body.to_owned() }
}

/// Tokens with the given access and refresh token that never expire.
pub fn token_state(access_token: &str, refresh_token: &str) -> (r: DayliteTokenState)
    ensures
        r.access_token@ == access_token@,
        r.refresh_token@ == refresh_token@,
        r.access_token_expires_at_ms == Some(u64::MAX),
{
    DayliteTokenState {
        access_token: access_token.to_owned(),
        refresh_token: refresh_token.to_owned(),
        access_token_expires_at_ms: Some(u64::MAX),
    }
}

/// The never-expiring tokens `at` and `rt`.
pub fn valid_token_state() -> (r: DayliteTokenState)
    ensures
        r.access_token@ == "at"@,
        r.refresh_token@ == "rt"@,
        r.access_token_expires_at_ms == Some(u64::MAX),
{
    token_state("at", "rt")
}

} // verus!
