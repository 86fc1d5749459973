use depotd::adapters::profiles::{ConfiguredProfiles, ProfileError, ResolvedRole, RoleEntry};
use depotd::names::Role;
use depotd::settings::ProfileSpec;

fn spec(profile: &str, model: &str) -> ProfileSpec {
    ProfileSpec {
        profile: profile.to_string(),
        harness: "h".to_string(),
        model: model.to_string(),
        effort: "high".to_string(),
        account: String::new(),
    }
}

#[test]
fn a_role_resolves_to_its_first_profile_and_falls_back_to_the_rest() {
    let profiles = ConfiguredProfiles::from_entries(vec![
        RoleEntry { role: Role::Review, profiles: vec![spec("deep", "m")] },
        RoleEntry { role: Role::Build, profiles: vec![spec("fast", "m"), spec("slow", "m2"), spec("last", "m3")] },
    ])
    .unwrap();
    assert_eq!(profiles.roles(), vec![Role::Build, Role::Review]);
    assert_eq!(
        profiles.resolve(Role::Build),
        Ok(ResolvedRole {
            role: Role::Build,
            primary: spec("fast", "m"),
            fallbacks: vec![spec("slow", "m2"), spec("last", "m3")],
        })
    );
    let error = profiles.resolve(Role::Fix).unwrap_err();
    assert_eq!(error, ProfileError::UnmappedRole { role: Role::Fix, configured: vec![Role::Build, Role::Review] });
    assert_eq!(
        error.message(),
        "no profile is configured for the role fix, which is not a role depot guesses; configured roles: build, review"
    );
    assert_eq!(
        ConfiguredProfiles::empty().resolve(Role::Plan).unwrap_err().message(),
        "no profile is configured for the role plan, which is not a role depot guesses; configured roles: none"
    );
}

#[test]
fn a_bad_role_map_is_refused_at_its_first_fault() {
    let duplicate = ConfiguredProfiles::from_entries(vec![
        RoleEntry { role: Role::Plan, profiles: vec![spec("a", "m")] },
        RoleEntry { role: Role::Plan, profiles: vec![] },
    ]);
    assert_eq!(duplicate.unwrap_err(), ProfileError::DuplicateRole { role: Role::Plan });
    let empty = ConfiguredProfiles::from_entries(vec![RoleEntry { role: Role::Fix, profiles: vec![] }]);
    assert_eq!(
        empty.unwrap_err().message(),
        "the role fix is configured with no profile, so depot cannot resolve it"
    );
    let incomplete = ConfiguredProfiles::from_entries(vec![RoleEntry {
        role: Role::Build,
        profiles: vec![spec("ok", "m"), spec("bad", "  ")],
    }]);
    let error = incomplete.unwrap_err();
    assert_eq!(error, ProfileError::IncompleteProfile { profile: "bad".to_string(), field: "model".to_string() });
    assert_eq!(error.message(), "the profile bad declares no model, so depot cannot launch with it");
    assert_eq!(
        ProfileError::DuplicateRole { role: Role::Review }.message(),
        "the role review is configured more than once"
    );
}
