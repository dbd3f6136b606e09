//! The settings of a live recording of Daylite answers: which calls are
//! recorded (`DAYLITE_VCR_SCOPE`), against which account, and the inputs of
//! the calls that change data. The values come from environment variables
//! that the caller reads; these functions decide what they mean.

use super::contacts::DayliteUpdateContactIcalUrlsInput;
use super::rotation::{eq_ignore_ascii_case, eq_ignore_ascii_case_spec};
use crate::text::{lowercased, opt_view, push_str, text_eq, to_lowercase, trim, trimmed};
use vstd::prelude::*;
use vstd::string::StrSliceExecFns;

verus! {

/// The message for a variable that is set but blank.
pub open spec fn blank_message(key: Seq<char>) -> Seq<char> {
    key + " must not be blank."@
}

/// The message for a required variable that is not set.
pub open spec fn unset_message(key: Seq<char>) -> Seq<char> {
    key + " must be set for live cassette recording."@
}

/// An optional variable: unset is none, a blank value is an error, any other
/// value counts trimmed.
pub open spec fn env_value(key: Seq<char>, value: Option<Seq<char>>) -> Result<Option<Seq<char>>, Seq<char>> {
    match value {
        None => Ok(None),
        Some(v) => if trimmed(v).len() == 0 {
            Err(blank_message(key))
        } else {
            Ok(Some(trimmed(v)))
        },
    }
}

/// A required variable: as `env_value`, and unset is an error too.
pub open spec fn required_value(key: Seq<char>, value: Option<Seq<char>>) -> Result<Seq<char>, Seq<char>> {
    match env_value(key, value) {
        Err(e) => Err(e),
        Ok(None) => Err(unset_message(key)),
        Ok(Some(v)) => Ok(v),
    }
}

/// Reads an optional variable (see `env_value`); `value` is what the
/// environment holds for `key`.
pub fn optional_env(key: &str, value: Option<String>) -> (r: Result<Option<String>, String>)
    ensures
        match env_value(key@, opt_view(value)) {
            Ok(v) => r matches Ok(x) && opt_view(x) == v,
            Err(e) => r matches Err(m) && m@ == e,
        },
{
    match value {
        None => Ok(None),
        Some(v) => {
            let t = trim(v.as_str());
            if t.as_str().unicode_len() == 0 {
                let mut m = key.to_owned();
                push_str(&mut m, " must not be blank.");
                Err(m)
            } else {
                Ok(Some(t))
            }
        },
    }
}

/// Reads a required variable (see `required_value`).
pub fn required_env(key: &str, value: Option<String>) -> (r: Result<String, String>)
    ensures
        match required_value(key@, opt_view(value)) {
            Ok(v) => r matches Ok(x) && x@ == v,
            Err(e) => r matches Err(m) && m@ == e,
        },
{
    match optional_env(key, value) {
        Err(e) => Err(e),
        Ok(None) => {
            let mut m = key.to_owned();
            push_str(&mut m, " must be set for live cassette recording.");
            Err(m)
        },
        Ok(Some(v)) => Ok(v),
    }
}

/// Whether HTTP exchanges are recorded or replayed.
#[derive(Clone, Copy, Debug, PartialEq, Eq, Structural)]
pub enum VcrMode {
    Record,
    Replay,
}

/// Recording needs `VCR_MODE` to read `record` (trimmed, in any ASCII case).
pub open spec fn is_record_mode(value: Option<Seq<char>>) -> bool {
    value matches Some(v) && eq_ignore_ascii_case_spec(trimmed(v), "record"@)
}

impl VcrMode {
    /// The mode `VCR_MODE` selects; replaying unless it says `record`.
    pub fn from_env(value: Option<String>) -> (r: VcrMode)
        ensures
            r == (if is_record_mode(opt_view(value)) { VcrMode::Record } else { VcrMode::Replay }),
    {
        match value {
            Some(v) => {
                let t = trim(v.as_str());
                if eq_ignore_ascii_case(t.as_str(), "record") {
                    VcrMode::Record
                } else {
                    VcrMode::Replay
                }
            },
            None => VcrMode::Replay,
        }
    }
}

/// Which calls a recording covers: only reads, or also the contact update.
#[derive(Clone, Copy, Debug, PartialEq, Eq, Structural)]
pub enum DayliteVcrScope {
    ReadOnly,
    All,
}

/// A scope by its lowercase name.
pub open spec fn scope_named(v: Seq<char>) -> Result<DayliteVcrScope, Seq<char>> {
    if v == "readonly"@ {
        Ok(DayliteVcrScope::ReadOnly)
    } else if v == "all"@ {
        Ok(DayliteVcrScope::All)
    } else {
        Err("DAYLITE_VCR_SCOPE must be `readonly` or `all`, got `"@ + v + "`."@)
    }
}

/// The scope `DAYLITE_VCR_SCOPE` names: read-only when unset, otherwise the
/// lowercased value, which must be `readonly` or `all`.
pub open spec fn scope_spec(value: Option<Seq<char>>) -> Result<DayliteVcrScope, Seq<char>> {
    match env_value("DAYLITE_VCR_SCOPE"@, value) {
        Err(e) => Err(e),
        Ok(None) => Ok(DayliteVcrScope::ReadOnly),
        Ok(Some(v)) => scope_named(lowercased(v)),
    }
}

impl DayliteVcrScope {
    /// Reads the scope (see `scope_spec`); `value` is what `DAYLITE_VCR_SCOPE` holds.
    pub fn from_env(value: Option<String>) -> (r: Result<DayliteVcrScope, String>)
        ensures
            match scope_spec(opt_view(value)) {
                Ok(s) => r == Ok::<DayliteVcrScope, String>(s),
                Err(e) => r matches Err(m) && m@ == e,
            },
    {
        let v = match optional_env("DAYLITE_VCR_SCOPE", value) {
            Err(e) => return Err(e),
            Ok(None) => return Ok(DayliteVcrScope::ReadOnly),
            Ok(Some(v)) => v,
        };
        let lower = to_lowercase(v.as_str());
        if text_eq(lower.as_str(), "readonly") {
            Ok(DayliteVcrScope::ReadOnly)
        } else if text_eq(lower.as_str(), "all") {
            Ok(DayliteVcrScope::All)
        } else {
            let mut m = "DAYLITE_VCR_SCOPE must be `readonly` or `all`, got `".to_owned();
            push_str(&mut m, lower.as_str());
            push_str(&mut m, "`.");
            Err(m)
        }
    }
}

/// What the environment holds for each variable of a recording.
pub struct VcrEnv {
    pub vcr_mode: Option<String>,
    pub base_url: Option<String>,
    pub refresh_token: Option<String>,
    pub scope: Option<String>,
    pub project_search_term: Option<String>,
    pub contact_reference: Option<String>,
    pub primary_ical_url: Option<String>,
    pub absence_ical_url: Option<String>,
}

/// The settings of a recording.
#[derive(Clone, Debug, PartialEq, Eq)]
pub struct DayliteVcrConfig {
    pub base_url: String,
    pub refresh_token: String,
    pub scope: DayliteVcrScope,
    pub project_search_term: String,
    pub update_contact_input: Option<DayliteUpdateContactIcalUrlsInput>,
}

/// The contact update a recording of every call performs: with scope `all`
/// the three contact variables are required, in this order.
pub open spec fn update_input_spec(env: VcrEnv, scope: DayliteVcrScope) -> Result<
    Option<(Seq<char>, Seq<char>, Seq<char>)>,
    Seq<char>,
> {
    match scope {
        DayliteVcrScope::ReadOnly => Ok(None),
        DayliteVcrScope::All => match required_value("DAYLITE_VCR_CONTACT_REFERENCE"@, opt_view(env.contact_reference)) {
            Err(e) => Err(e),
            Ok(c) => match required_value("DAYLITE_VCR_PRIMARY_ICAL_URL"@, opt_view(env.primary_ical_url)) {
                Err(e) => Err(e),
                Ok(p) => match required_value("DAYLITE_VCR_ABSENCE_ICAL_URL"@, opt_view(env.absence_ical_url)) {
                    Err(e) => Err(e),
                    Ok(a) => Ok(Some((c, p, a))),
                },
            },
        },
    }
}

/// The settings of a recording: record mode first, then the scope, the
/// contact update of scope `all`, and the base URL, refresh token and project
/// search term, each required; the first failure is the error.
pub open spec fn vcr_config_spec(env: VcrEnv) -> Result<
    (Seq<char>, Seq<char>, DayliteVcrScope, Seq<char>, Option<(Seq<char>, Seq<char>, Seq<char>)>),
    Seq<char>,
> {
    if !is_record_mode(opt_view(env.vcr_mode)) {
        Err("Live cassette recording requires VCR_MODE=record."@)
    } else {
        match scope_spec(opt_view(env.scope)) {
            Err(e) => Err(e),
            Ok(scope) => match update_input_spec(env, scope) {
                Err(e) => Err(e),
                Ok(input) => match required_value("DAYLITE_BASE_URL"@, opt_view(env.base_url)) {
                    Err(e) => Err(e),
                    Ok(b) => match required_value("DAYLITE_REFRESH_TOKEN"@, opt_view(env.refresh_token)) {
                        Err(e) => Err(e),
                        Ok(t) => match required_value("DAYLITE_VCR_PROJECT_SEARCH_TERM"@, opt_view(env.project_search_term)) {
                            Err(e) => Err(e),
                            Ok(term) => Ok((b, t, scope, term, input)),
                        },
                    },
                },
            },
        }
    }
}

fn copy_opt(o: &Option<String>) -> (r: Option<String>)
    ensures
        opt_view(r) == opt_view(*o),
{
    match o {
        Some(s) => Some(s.clone()),
        None => None,
    }
}

fn update_input(env: &VcrEnv, scope: DayliteVcrScope) -> (r: Result<Option<DayliteUpdateContactIcalUrlsInput>, String>)
    ensures
        match update_input_spec(*env, scope) {
            Ok(None) => r matches Ok(None),
            Ok(Some((c, p, a))) => r matches Ok(Some(u)) && u.contact_reference@ == c && u.primary_ical_url@ == p
                && u.absence_ical_url@ == a,
            Err(e) => r matches Err(m) && m@ == e,
        },
{
    match scope {
        DayliteVcrScope::ReadOnly => Ok(None),
        DayliteVcrScope::All => {
            let contact_reference = match required_env("DAYLITE_VCR_CONTACT_REFERENCE", copy_opt(&env.contact_reference)) {
                Err(e) => return Err(e),
                Ok(v) => v,
            };
            let primary_ical_url = match required_env("DAYLITE_VCR_PRIMARY_ICAL_URL", copy_opt(&env.primary_ical_url)) {
                Err(e) => return Err(e),
                Ok(v) => v,
            };
            let absence_ical_url = match required_env("DAYLITE_VCR_ABSENCE_ICAL_URL", copy_opt(&env.absence_ical_url)) {
                Err(e) => return Err(e),
                Ok(v) => v,
            };
            Ok(Some(DayliteUpdateContactIcalUrlsInput { contact_reference, primary_ical_url, absence_ical_url }))
        },
    }
}

impl DayliteVcrConfig {
    /// The settings of a recording (see `vcr_config_spec`).
    pub fn from_env(env: &VcrEnv) -> (r: Result<DayliteVcrConfig, String>)
        ensures
            match vcr_config_spec(*env) {
                Ok((b, t, scope, term, input)) => r matches Ok(c) && c.base_url@ == b && c.refresh_token@ == t
                    && c.scope == scope && c.project_search_term@ == term && match input {
                    None => c.update_contact_input is None,
                    Some((x, y, z)) => c.update_contact_input matches Some(u) && u.contact_reference@ == x
                        && u.primary_ical_url@ == y && u.absence_ical_url@ == z,
                },
                Err(e) => r matches Err(m) && m@ == e,
            },
    {
        if VcrMode::from_env(copy_opt(&env.vcr_mode)) != VcrMode::Record {
            return Err("Live cassette recording requires VCR_MODE=record.".to_owned());
        }
        let scope = match DayliteVcrScope::from_env(copy_opt(&env.scope)) {
            Err(e) => return Err(e),
            Ok(s) => s,
        };
        let update_contact_input = match update_input(env, scope) {
            Err(e) => return Err(e),
            Ok(i) => i,
        };
        let base_url = match required_env("DAYLITE_BASE_URL", copy_opt(&env.base_url)) {
            Err(e) => return Err(e),
            Ok(v) => v,
        };
        let refresh_token = match required_env("DAYLITE_REFRESH_TOKEN", copy_opt(&env.refresh_token)) {
            Err(e) => return Err(e),
            Ok(v) => v,
        };
        let project_search_term = match required_env("DAYLITE_VCR_PROJECT_SEARCH_TERM", copy_opt(&env.project_search_term)) {
            Err(e) => return Err(e),
            Ok(v) => v,
        };
        Ok(DayliteVcrConfig { base_url, refresh_token, scope, project_search_term, update_contact_input })
    }
}

} // verus!
