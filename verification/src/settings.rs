//! Machine-local settings, read from the home's `config.toml`.
//!
//! The settings file is decoded at the edge; its tables of credentials and profiles
//! arrive here as lists of `(name, value)` pairs in which no name occurs twice.
use std::time::Duration;

use vstd::prelude::*;

use crate::error::Error;
use crate::text::{push_str, str_eq, trim, trim_str};

verus! {

/// The Typesafe API base URL the settings name unless they say otherwise.
pub const DEFAULT_TYPESAFE_API_BASE: &'static str = "https://api.typesafe.ai";

/// What `[artifacts]` configures.
#[derive(Debug, Clone, PartialEq, Eq)]
pub struct ArtifactsSettings {
    pub publish_command: String,
}

impl Default for ArtifactsSettings {
    fn default() -> (r: Self)
        ensures
            r.publish_command@.len() == 0,
    {
        ArtifactsSettings { publish_command: String::new() }
    }
}

/// What `[on_event]` configures: the command to run, and the events it runs for.
#[derive(Debug, Clone, PartialEq, Eq)]
pub struct OnEventSettings {
    pub command: String,
    pub events: Option<Vec<String>>,
}

/// The events the on-event command runs for when the settings name none: a question,
/// a failure, and a refused merge.
pub open spec fn default_on_event(event: Seq<char>) -> bool {
    event == "question"@ || event == "failed"@ || event == "merge_refused"@
}

impl OnEventSettings {
    /// Whether the command runs for `event`: the events listed, or the default ones when
    /// none are listed.
    pub open spec fn includes_spec(&self, event: Seq<char>) -> bool {
        match self.events {
            Some(events) => exists|i: int| 0 <= i < events@.len() && (#[trigger] events@[i])@ == event,
            None => default_on_event(event),
        }
    }

    #[verifier::loop_isolation(false)]
    pub fn includes(&self, event: &str) -> (r: bool)
        ensures
            r == self.includes_spec(event@),
    {
        match &self.events {
            Some(events) => {
                let mut i: usize = 0;
                while i < events.len()
                    invariant
                        i <= events@.len(),
                        forall|k: int| 0 <= k < i ==> (#[trigger] events@[k])@ != event@,
                    decreases events@.len() - i,
                {
                    if str_eq(events[i].as_str(), event) {
                        assert((events@[i as int])@ == event@);
                        return true;
                    }
                    i += 1;
                }
                false
            },
            None => str_eq(event, "question") || str_eq(event, "failed") || str_eq(
                event,
                "merge_refused",
            ),
        }
    }
}

/// A profile a role can run with.
#[derive(Debug, Clone, PartialEq, Eq)]
pub struct ProfileSettings {
    pub harness: String,
    pub model: String,
    pub effort: String,
    pub account: String,
}

/// A profile resolved from the settings under its name.
#[derive(Debug, Clone, PartialEq, Eq)]
pub struct ProfileSpec {
    pub profile: String,
    pub harness: String,
    pub model: String,
    pub effort: String,
    pub account: String,
}

/// The machine-local settings.
#[derive(Debug, Clone, PartialEq, Eq)]
pub struct Settings {
    pub typesafe_base_url: String,
    pub concurrency: usize,
    pub run_duration_minutes: u64,
    pub poll_interval_seconds: u64,
    pub pool_root: Option<String>,
    pub fallback_profiles: Vec<String>,
    pub coordinator_context_tokens: u64,
    pub credentials: Vec<(String, String)>,
    pub profiles: Vec<(String, ProfileSettings)>,
    pub on_event: Option<OnEventSettings>,
    pub artifacts: ArtifactsSettings,
}

impl Default for Settings {
    fn default() -> (r: Self)
        ensures
            r.typesafe_base_url@ == DEFAULT_TYPESAFE_API_BASE@,
            r.concurrency == 4,
            r.run_duration_minutes == 60,
            r.poll_interval_seconds == 30,
            r.pool_root is None,
            r.fallback_profiles@.len() == 0,
            r.coordinator_context_tokens == 120_000,
            r.credentials@.len() == 0,
            r.profiles@.len() == 0,
            r.on_event is None,
            r.artifacts.publish_command@.len() == 0,
    {
        Settings {
            typesafe_base_url: DEFAULT_TYPESAFE_API_BASE.to_string(),
            concurrency: 4,
            run_duration_minutes: 60,
            poll_interval_seconds: 30,
            pool_root: None,
            fallback_profiles: Vec::new(),
            coordinator_context_tokens: 120_000,
            credentials: Vec::new(),
            profiles: Vec::new(),
            on_event: None,
            artifacts: ArtifactsSettings::default(),
        }
    }
}

/// The `Duration` of `secs` whole seconds.
pub uninterp spec fn seconds(secs: u64) -> Duration;

/// `Duration::from_secs`.
#[verifier::external_body]
fn duration_from_secs(secs: u64) -> (d: Duration)
    ensures
        d == seconds(secs),
{
    Duration::from_secs(secs)
}

/// The position of the profile named `name`.
pub open spec fn profile_position(profiles: Seq<(String, ProfileSettings)>, name: Seq<char>) -> int
    decreases profiles.len(),
{
    if profiles.len() == 0 {
        -1
    } else if profiles.last().0@ == name {
        profiles.len() - 1
    } else {
        profile_position(profiles.drop_last(), name)
    }
}

impl Settings {
    /// The longest a worker turn may run: the configured minutes, in seconds, capped at
    /// the largest count a `u64` holds.
    pub fn run_duration(&self) -> (d: Duration)
        ensures
            d == seconds(
                if self.run_duration_minutes * 60 > u64::MAX {
                    u64::MAX
                } else {
                    (self.run_duration_minutes * 60) as u64
                },
            ),
    {
        let secs = if self.run_duration_minutes > u64::MAX / 60 {
            u64::MAX
        } else {
            self.run_duration_minutes * 60
        };
        duration_from_secs(secs)
    }

    /// How long the daemon waits between ticks.
    pub fn poll_interval(&self) -> (d: Duration)
        ensures
            d == seconds(self.poll_interval_seconds),
    {
        duration_from_secs(self.poll_interval_seconds)
    }

    /// The profiles every role falls back to, in order.
    pub fn profile_fallbacks(&self) -> (r: Vec<String>)
        ensures
            r@.len() == self.fallback_profiles@.len(),
            forall|i: int| 0 <= i < r@.len() ==> (#[trigger] r@[i])@ == self.fallback_profiles@[i]@,
    {
        let mut r: Vec<String> = Vec::new();
        let mut i: usize = 0;
        while i < self.fallback_profiles.len()
            invariant
                i <= self.fallback_profiles@.len(),
                r@.len() == i,
                forall|k: int| 0 <= k < i ==> (#[trigger] r@[k])@ == self.fallback_profiles@[k]@,
            decreases self.fallback_profiles@.len() - i,
        {
            r.push(self.fallback_profiles[i].clone());
            i += 1;
        }
        r
    }

    /// The configured publish command, trimmed.
    pub fn publish_command(&self) -> (r: &str)
        ensures
            r@ == trim(self.artifacts.publish_command@),
    {
        trim_str(self.artifacts.publish_command.as_str())
    }

    /// The profile named `name`, which the settings must define with a harness, a model
    /// and an effort that are not blank.
    pub open spec fn profile_spec_result(&self, name: Seq<char>, r: Result<ProfileSpec, Error>) -> bool {
        let k = profile_position(self.profiles@, name);
        if k < 0 {
            r matches Err(Error::Config(m)) && m@ == "profile `"@ + name
                + "` is not defined in machine-local settings"@
        } else {
            let p = self.profiles@[k].1;
            let blank = if trim(p.harness@).len() == 0 {
                Some("harness"@)
            } else if trim(p.model@).len() == 0 {
                Some("model"@)
            } else if trim(p.effort@).len() == 0 {
                Some("effort"@)
            } else {
                None
            };
            match blank {
                Some(field) => r matches Err(Error::Config(m)) && m@ == "profile `"@ + name
                    + "` in machine-local settings has no "@ + field,
                None => r matches Ok(spec) && spec.profile@ == name && spec.harness@ == p.harness@
                    && spec.model@ == p.model@ && spec.effort@ == p.effort@ && spec.account@
                    == p.account@,
            }
        }
    }

    pub fn profile_spec(&self, name: &str) -> (r: Result<ProfileSpec, Error>)
        ensures
            self.profile_spec_result(name@, r),
    {
        let mut k = self.profiles.len();
        assert(self.profiles@.take(k as int) == self.profiles@);
        while k > 0 && !str_eq(self.profiles[k - 1].0.as_str(), name)
            invariant
                k <= self.profiles@.len(),
                profile_position(self.profiles@, name@) == profile_position(
                    self.profiles@.take(k as int),
                    name@,
                ),
            decreases k,
        {
            assert(self.profiles@.take(k as int).drop_last() == self.profiles@.take(k - 1));
            k -= 1;
        }
        if k == 0 {
            let mut m = String::new();
            push_str(&mut m, "profile `");
            push_str(&mut m, name);
            push_str(&mut m, "` is not defined in machine-local settings");
            return Err(Error::Config(m));
        }
        assert(self.profiles@.take(k as int).last() == self.profiles@[k - 1]);
        assert(profile_position(self.profiles@, name@) == k - 1);
        let profile = &self.profiles[k - 1].1;
        let blank = if trim_str(profile.harness.as_str()).is_empty() {
            Some("harness")
        } else if trim_str(profile.model.as_str()).is_empty() {
            Some("model")
        } else if trim_str(profile.effort.as_str()).is_empty() {
            Some("effort")
        } else {
            None
        };
        match blank {
            Some(field) => {
                let mut m = String::new();
                push_str(&mut m, "profile `");
                push_str(&mut m, name);
                push_str(&mut m, "` in machine-local settings has no ");
                push_str(&mut m, field);
                Err(Error::Config(m))
            },
            None => Ok(
                ProfileSpec {
                    profile: name.to_string(),
                    harness: profile.harness.clone(),
                    model: profile.model.clone(),
                    effort: profile.effort.clone(),
                    account: profile.account.clone(),
                },
            ),
        }
    }
}

} // verus!
