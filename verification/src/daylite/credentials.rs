//! Reading and writing the Daylite tokens in the system's secret store: what
//! each outcome of the store means for the planner.

use super::shared::{DayliteApiError, DayliteApiErrorCode, DayliteTokenState};
use crate::text::push_str;
use vstd::prelude::*;

verus! {

/// What reading the stored tokens gave.
pub enum SecretRead {
    /// An entry was found; its JSON decoded to tokens, or the decoder's complaint.
    Found(Result<DayliteTokenState, String>),
    /// No entry is stored yet.
    NotFound,
    /// The secret store could not be read; its complaint.
    Unreadable(String),
}

/// The tokens a read of the secret store yields: none stored means empty
/// tokens; an entry that does not decode, or a store that cannot be read, is
/// a configuration error naming the cause.
pub fn load_daylite_tokens(read: SecretRead) -> (r: Result<DayliteTokenState, DayliteApiError>)
    ensures
        match read {
            SecretRead::Found(Ok(t)) => r == Ok::<DayliteTokenState, DayliteApiError>(t),
            SecretRead::Found(Err(detail)) => r matches Err(e) && e.code == DayliteApiErrorCode::InvalidConfiguration
                && e.http_status is None && e.user_message@
                == "Die gespeicherten Daylite-Zugangsdaten sind beschädigt. Bitte verbinde dich erneut."@
                && e.technical_message@ == "Token-JSON konnte nicht deserialisiert werden: "@ + detail@,
            SecretRead::NotFound => r matches Ok(t) && t.access_token@.len() == 0 && t.refresh_token@.len() == 0
                && t.access_token_expires_at_ms is None,
            SecretRead::Unreadable(detail) => r matches Err(e) && e.code == DayliteApiErrorCode::InvalidConfiguration
                && e.http_status is None && e.user_message@
                == "Auf die Daylite-Zugangsdaten im Keychain konnte nicht zugegriffen werden. Bitte prüfe die Keychain-Berechtigungen."@
                && e.technical_message@ == "Keychain-Fehler beim Lesen des Daylite-Tokens: "@ + detail@,
        },
{
    match read {
        SecretRead::Found(Ok(t)) => Ok(t),
        SecretRead::Found(Err(detail)) => {
            let mut technical = "Token-JSON konnte nicht deserialisiert werden: ".to_owned();
            push_str(&mut technical, detail.as_str());
            Err(
                DayliteApiError::new(
                    DayliteApiErrorCode::InvalidConfiguration,
                    None,
                    "Die gespeicherten Daylite-Zugangsdaten sind beschädigt. Bitte verbinde dich erneut.".to_owned(),
                    technical,
                ),
            )
        },
        SecretRead::NotFound => Ok(
            DayliteTokenState { access_token: String::new(), refresh_token: String::new(), access_token_expires_at_ms: None },
        ),
        SecretRead::Unreadable(detail) => {
            let mut technical = "Keychain-Fehler beim Lesen des Daylite-Tokens: ".to_owned();
            push_str(&mut technical, detail.as_str());
            Err(
                DayliteApiError::new(
                    DayliteApiErrorCode::InvalidConfiguration,
                    None,
                    "Auf die Daylite-Zugangsdaten im Keychain konnte nicht zugegriffen werden. Bitte prüfe die Keychain-Berechtigungen.".to_owned(),
                    technical,
                ),
            )
        },
    }
}

/// The error of tokens that could not be encoded for storing.
pub fn token_encoding_error(detail: &str) -> (r: DayliteApiError)
    ensures
        r.code == DayliteApiErrorCode::ServerError,
        r.http_status is None,
        r.user_message@ == "Token konnten nicht sicher gespeichert werden."@,
        r.technical_message@ == "Token serialization failed: "@ + detail@,
{
    let mut technical = "Token serialization failed: ".to_owned();
    push_str(&mut technical, detail);
    DayliteApiError::new(
        DayliteApiErrorCode::ServerError,
        None,
        "Token konnten nicht sicher gespeichert werden.".to_owned(),
        technical,
    )
}

/// The error of a secret store that refused to store the tokens.
pub fn token_store_refused_error(detail: &str) -> (r: DayliteApiError)
    ensures
        r.code == DayliteApiErrorCode::ServerError,
        r.http_status is None,
        r.user_message@ == "Auf den sicheren Speicher konnte nicht zugegriffen werden (Keychain verweigert?)."@,
        r.technical_message@ == detail@,
{
    DayliteApiError::new(
        DayliteApiErrorCode::ServerError,
        None,
        "Auf den sicheren Speicher konnte nicht zugegriffen werden (Keychain verweigert?).".to_owned(),
        detail.to_owned(),
    )
}

/// What writing the tokens to the secret store gave.
pub enum SecretWrite {
    /// The tokens could not be encoded as JSON; the encoder's complaint.
    Unencodable(String),
    /// The secret store refused the entry; its complaint.
    Refused(String),
    /// The entry was written.
    Stored,
}

/// The outcome of storing the tokens: written is success; tokens that could
/// not be encoded, or a store that refused them, are server errors naming the
/// cause (see `token_encoding_error` and `token_store_refused_error`).
pub fn store_daylite_tokens(outcome: SecretWrite) -> (r: Result<(), DayliteApiError>)
    ensures
        match outcome {
            SecretWrite::Stored => r is Ok,
            SecretWrite::Unencodable(detail) => r matches Err(e) && e.code == DayliteApiErrorCode::ServerError
                && e.http_status is None && e.user_message@ == "Token konnten nicht sicher gespeichert werden."@
                && e.technical_message@ == "Token serialization failed: "@ + detail@,
            SecretWrite::Refused(detail) => r matches Err(e) && e.code == DayliteApiErrorCode::ServerError
                && e.http_status is None && e.user_message@
                == "Auf den sicheren Speicher konnte nicht zugegriffen werden (Keychain verweigert?)."@
                && e.technical_message@ == detail@,
        },
{
    match outcome {
        SecretWrite::Stored => Ok(()),
        SecretWrite::Unencodable(detail) => Err(token_encoding_error(detail.as_str())),
        SecretWrite::Refused(detail) => Err(token_store_refused_error(detail.as_str())),
    }
}

} // verus!
