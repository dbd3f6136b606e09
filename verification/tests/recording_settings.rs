use lkr_planner::daylite::recording_harness::{
    optional_env, required_env, DayliteVcrConfig, DayliteVcrScope, VcrEnv, VcrMode,
};

fn set(value: &str) -> Option<String> {
    Some(value.to_string())
}

fn empty_env() -> VcrEnv {
    VcrEnv {
        vcr_mode: None,
        base_url: None,
        refresh_token: None,
        scope: None,
        project_search_term: None,
        contact_reference: None,
        primary_ical_url: None,
        absence_ical_url: None,
    }
}

#[test]
fn scope_defaults_to_read_only() {
    assert_eq!(DayliteVcrScope::from_env(None), Ok(DayliteVcrScope::ReadOnly));
}

#[test]
fn scope_parses_all() {
    assert_eq!(DayliteVcrScope::from_env(set("all")), Ok(DayliteVcrScope::All));
}

#[test]
fn config_requires_mutation_inputs_for_all_scope() {
    let env = VcrEnv {
        vcr_mode: set("record"),
        base_url: set("https://daylite.example"),
        refresh_token: set("refresh-token"),
        scope: set("all"),
        project_search_term: set("Nord"),
        ..empty_env()
    };
    let error = DayliteVcrConfig::from_env(&env).expect_err("all scope should require PATCH inputs");
    assert!(error.contains("DAYLITE_VCR_CONTACT_REFERENCE"));
}

#[test]
fn config_allows_read_only_without_patch_inputs() {
    let env = VcrEnv {
        vcr_mode: set("record"),
        base_url: set("https://daylite.example"),
        refresh_token: set("refresh-token"),
        project_search_term: set("Nord"),
        ..empty_env()
    };
    let config = DayliteVcrConfig::from_env(&env).expect("read-only scope should not require PATCH inputs");
    assert_eq!(config.scope, DayliteVcrScope::ReadOnly);
    assert_eq!(config.update_contact_input, None);
}

#[test]
fn config_requires_record_mode() {
    let env = VcrEnv {
        base_url: set("https://daylite.example"),
        refresh_token: set("refresh-token"),
        project_search_term: set("Nord"),
        ..empty_env()
    };
    let error = DayliteVcrConfig::from_env(&env).expect_err("record mode should be required");
    assert_eq!(error, "Live cassette recording requires VCR_MODE=record.");
}

#[test]
fn a_full_recording_configuration_carries_every_trimmed_value() {
    let env = VcrEnv {
        vcr_mode: set(" RECORD "),
        base_url: set(" https://daylite.example "),
        refresh_token: set("rt"),
        scope: set("ALL"),
        project_search_term: set("Nord"),
        contact_reference: set("/v1/contacts/1"),
        primary_ical_url: set("https://zep.example/p"),
        absence_ical_url: set("https://zep.example/a"),
    };
    let config = DayliteVcrConfig::from_env(&env).unwrap();
    assert_eq!(config.base_url, "https://daylite.example");
    assert_eq!(config.scope, DayliteVcrScope::All);
    let input = config.update_contact_input.unwrap();
    assert_eq!(input.contact_reference, "/v1/contacts/1");
    assert_eq!(input.absence_ical_url, "https://zep.example/a");
}

#[test]
fn environment_values_are_trimmed_and_blank_or_missing_ones_refused() {
    assert_eq!(optional_env("X", None), Ok(None));
    assert_eq!(optional_env("X", set("  v ")), Ok(Some("v".to_string())));
    assert_eq!(optional_env("X", set("   ")), Err("X must not be blank.".to_string()));
    assert_eq!(required_env("X", None), Err("X must be set for live cassette recording.".to_string()));
    assert_eq!(
        DayliteVcrScope::from_env(set("Everything")),
        Err("DAYLITE_VCR_SCOPE must be `readonly` or `all`, got `everything`.".to_string())
    );
    assert_eq!(VcrMode::from_env(set("replay")), VcrMode::Replay);
    assert_eq!(VcrMode::from_env(None), VcrMode::Replay);
}
