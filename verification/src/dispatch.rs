//! What dispatch checks before it asks the judge which rule a new task matches, and how
//! it words a refusal.
use vstd::prelude::*;

use crate::adapters::profiles::ConfiguredProfiles;
use crate::config::DispatchRule;
use crate::error::Error;
use crate::names::Role;
use crate::settings::{ProfileSpec, Settings};
use crate::text::{push_str, push_string};

verus! {

/// Whether the settings define a profile named `name` that a worker can launch with.
pub open spec fn usable_profile(settings: Settings, name: Seq<char>) -> bool {
    exists|p: ProfileSpec| settings.profile_spec_result(name, Ok::<ProfileSpec, Error>(p))
}

/// Whether a rule can be acted on: a rule that pins no profile needs its role mapped, and
/// every profile it may pin must be usable.
pub open spec fn rule_ready(rule: DispatchRule, profiles: ConfiguredProfiles, settings: Settings) -> bool {
    &&& !(rule.candidates@.len() == 0 && !profiles.map_view().contains_key(rule.role))
    &&& forall|k: int| 0 <= k < rule.candidates@.len() ==> usable_profile(settings, (#[trigger] rule.candidates@[k])@)
}

pub open spec fn unmapped_rule_message(rule: DispatchRule) -> Seq<char> {
    "dispatch rule `"@ + rule.when@ + "` has no candidates and its role has no [profiles] mapping"@
}

/// Why `rule` is not ready, as the check words it: its unmapped role, else the refusal of
/// its first unusable profile.
pub open spec fn rule_refusal(rule: DispatchRule, profiles: ConfiguredProfiles, settings: Settings, e: Error) -> bool {
    if rule.candidates@.len() == 0 && !profiles.map_view().contains_key(rule.role) {
        e matches Error::Config(m) && m@ == unmapped_rule_message(rule)
    } else {
        exists|k: int|
            0 <= k < rule.candidates@.len() && (forall|l: int| 0 <= l < k ==> usable_profile(settings, (#[trigger] rule.candidates@[l])@))
                && !usable_profile(settings, rule.candidates@[k]@) && settings.profile_spec_result(
                rule.candidates@[k]@,
                Err(e),
            )
    }
}

fn check_rule(rule: &DispatchRule, profiles: &ConfiguredProfiles, settings: &Settings) -> (r: Result<(), Error>)
    requires
        profiles.wf(),
    ensures
        match r {
            Ok(()) => rule_ready(*rule, *profiles, *settings),
            Err(e) => !rule_ready(*rule, *profiles, *settings) && rule_refusal(*rule, *profiles, *settings, e),
        },
{
    if rule.candidates.len() == 0 && profiles.resolve(rule.role).is_err() {
        let mut m = String::new();
        push_str(&mut m, "dispatch rule `");
        push_string(&mut m, &rule.when);
        push_str(&mut m, "` has no candidates and its role has no [profiles] mapping");
        return Err(Error::Config(m));
    }
    let mut k: usize = 0;
    while k < rule.candidates.len()
        invariant
            k <= rule.candidates@.len(),
            forall|l: int| 0 <= l < k ==> usable_profile(*settings, (#[trigger] rule.candidates@[l])@),
        decreases rule.candidates@.len() - k,
    {
        match settings.profile_spec(rule.candidates[k].as_str()) {
            Ok(p) => {
                assert(usable_profile(*settings, rule.candidates@[k as int]@));
            },
            Err(e) => {
                proof {
                    if usable_profile(*settings, rule.candidates@[k as int]@) {
                        let p = choose|p: ProfileSpec| settings.profile_spec_result(rule.candidates@[k as int]@, Ok::<ProfileSpec, Error>(p));
                        assert(false);
                    }
                }
                return Err(e);
            },
        }
        k += 1;
    }
    Ok(())
}

/// Checks the validated rules in order before the judge is asked; the first rule that is
/// not ready refuses the dispatch, for the reason `rule_refusal` gives.
pub fn check_dispatch_rules(rules: &[DispatchRule], profiles: &ConfiguredProfiles, settings: &Settings) -> (r: Result<(), Error>)
    requires
        profiles.wf(),
    ensures
        match r {
            Ok(()) => forall|i: int| 0 <= i < rules@.len() ==> rule_ready(#[trigger] rules@[i], *profiles, *settings),
            Err(e) => exists|i: int|
                0 <= i < rules@.len() && (forall|j: int| 0 <= j < i ==> rule_ready(#[trigger] rules@[j], *profiles, *settings))
                    && !rule_ready(rules@[i], *profiles, *settings) && rule_refusal(rules@[i], *profiles, *settings, e),
        },
{
    let mut i: usize = 0;
    while i < rules.len()
        invariant
            i <= rules@.len(),
            profiles.wf(),
            forall|j: int| 0 <= j < i ==> rule_ready(#[trigger] rules@[j], *profiles, *settings),
        decreases rules@.len() - i,
    {
        match check_rule(&rules[i], profiles, settings) {
            Ok(()) => {},
            Err(e) => return Err(e),
        }
        i += 1;
    }
    Ok(())
}

/// Why dispatch refused to pick a role.
#[derive(Debug, Clone, Copy, PartialEq, Eq, Structural)]
pub enum DispatchRefusal {
    /// The judge matched no rule.
    NoMatchingRule,
    /// The rule's role has no profile mapping.
    UnmappedRole(Role),
}

/// How a role is named in a refusal: its variant's name.
pub open spec fn role_label(role: Role) -> Seq<char> {
    match role {
        Role::Plan => "Plan"@,
        Role::Build => "Build"@,
        Role::Review => "Review"@,
        Role::Fix => "Fix"@,
    }
}

pub open spec fn refusal_message_spec(refusal: DispatchRefusal) -> Seq<char> {
    match refusal {
        DispatchRefusal::NoMatchingRule => "dispatch refused: no matching rule; supply --role to override"@,
        DispatchRefusal::UnmappedRole(role) => "dispatch refused: unmapped role "@ + role_label(role)
            + "; configure [profiles]"@,
    }
}

/// The configuration error a refusal is reported as.
pub fn refusal_error(refusal: DispatchRefusal) -> (e: Error)
    ensures
        e matches Error::Config(m) && m@ == refusal_message_spec(refusal),
{
    let mut m = String::new();
    match refusal {
        DispatchRefusal::NoMatchingRule => push_str(&mut m, "dispatch refused: no matching rule; supply --role to override"),
        DispatchRefusal::UnmappedRole(role) => {
            push_str(&mut m, "dispatch refused: unmapped role ");
            push_str(&mut m, match role {
                Role::Plan => "Plan",
                Role::Build => "Build",
                Role::Review => "Review",
                Role::Fix => "Fix",
            });
            push_str(&mut m, "; configure [profiles]");
        },
    }
    Error::Config(m)
}

} // verus!
