use std::time::Duration;

use depotd::error::Error;
use depotd::settings::{
    ArtifactsSettings, OnEventSettings, ProfileSettings, ProfileSpec, Settings,
    DEFAULT_TYPESAFE_API_BASE,
};

fn profile(harness: &str, model: &str, effort: &str) -> ProfileSettings {
    ProfileSettings {
        harness: harness.to_string(),
        model: model.to_string(),
        effort: effort.to_string(),
        account: "acct".to_string(),
    }
}

#[test]
fn the_defaults_are_the_documented_ones() {
    let settings = Settings::default();
    assert_eq!(settings.typesafe_base_url, DEFAULT_TYPESAFE_API_BASE);
    assert_eq!(settings.concurrency, 4);
    assert_eq!(settings.run_duration(), Duration::from_secs(3600));
    assert_eq!(settings.poll_interval(), Duration::from_secs(30));
    assert_eq!(settings.coordinator_context_tokens, 120_000);
    assert!(settings.profile_fallbacks().is_empty());
    assert_eq!(settings.publish_command(), "");
}

#[test]
fn a_huge_run_duration_saturates() {
    let settings = Settings { run_duration_minutes: u64::MAX, ..Settings::default() };
    assert_eq!(settings.run_duration(), Duration::from_secs(u64::MAX));
}

#[test]
fn the_publish_command_is_trimmed() {
    let settings = Settings {
        artifacts: ArtifactsSettings { publish_command: "  up --now \n".to_string() },
        ..Settings::default()
    };
    assert_eq!(settings.publish_command(), "up --now");
}

#[test]
fn on_event_runs_for_the_listed_or_default_events() {
    let defaults = OnEventSettings { command: "notify".to_string(), events: None };
    assert!(defaults.includes("question"));
    assert!(defaults.includes("failed"));
    assert!(defaults.includes("merge_refused"));
    assert!(!defaults.includes("merged"));
    let listed = OnEventSettings { command: "notify".to_string(), events: Some(vec!["merged".to_string()]) };
    assert!(listed.includes("merged"));
    assert!(!listed.includes("question"));
}

#[test]
fn a_profile_must_be_defined_with_its_fields() {
    let settings = Settings {
        profiles: vec![
            ("fast".to_string(), profile("alpha", "small", "low")),
            ("blank".to_string(), profile("alpha", " ", "low")),
            ("fast".to_string(), profile("beta", "o3", "high")),
        ],
        fallback_profiles: vec!["fast".to_string()],
        ..Settings::default()
    };
    assert_eq!(
        settings.profile_spec("fast"),
        Ok(ProfileSpec {
            profile: "fast".to_string(),
            harness: "beta".to_string(),
            model: "o3".to_string(),
            effort: "high".to_string(),
            account: "acct".to_string(),
        })
    );
    assert_eq!(
        settings.profile_spec("blank"),
        Err(Error::Config("profile `blank` in machine-local settings has no model".to_string()))
    );
    assert_eq!(
        settings.profile_spec("gone"),
        Err(Error::Config("profile `gone` is not defined in machine-local settings".to_string()))
    );
    assert_eq!(settings.profile_fallbacks(), vec!["fast".to_string()]);
}
