//! The decisions the daemon makes at each reconcile step, from what the store records and
//! what its collaborators report to what it records and does next. The caller performs
//! each step's outside work and hands its outcome back.
use vstd::prelude::*;

use crate::adapters::forge::{Checks, PrState};
use crate::daemon::{resume_reason, resume_reason_parts};
use crate::error::{Error, ErrorKind};
use crate::factcodec::payload_field;
use crate::inbox::field_of;
use crate::names::{checks_name, checks_name_spec};
use crate::facts::{FactKind, Liveness};
use crate::names::TaskState;
use crate::records::Timestamp;
use crate::adapters::profiles::{all_roles, configured_text, copy_spec, ConfiguredProfiles};
use crate::adapters::sessions::{LaunchRequest, SessionProfile};
use crate::names::{role_name, role_name_spec, Role};
use crate::commands::Dependency;
use crate::tasks::ProjectState;
use crate::settings::{ProfileSpec, Settings};
use crate::tasks::Task;
use crate::text::{join_spec, push_str, push_string, str_eq, trim, trimmed};

verus! {

/// How many times a worker's turn is resumed before the turn is given up as unresolved.
pub const MAX_RESUME_ATTEMPTS: u32 = 3;

/// What the session tool says of a worker's session before it is resumed.
#[derive(Debug, Clone, PartialEq, Eq)]
pub enum SessionCheck {
    /// The session is running.
    Running,
    /// The session stopped, finished or failed.
    NotRunning,
    /// Its status could not be read; the reason.
    Unreadable(String),
}

/// What a resume step does.
#[derive(Debug, Clone, PartialEq, Eq)]
pub enum ResumeStep {
    /// Launch a fresh session: the old one is gone.
    Relaunch,
    /// Put the turn off, for the reason given.
    Defer(String),
    /// Give the turn up as unresolved, for the reason given.
    Unresolved(String),
    /// Resume the session with this prompt; this is its `attempt`th resume.
    Resume { attempt: u32, prompt: String },
}

pub open spec fn no_answer_message(task: Seq<char>) -> Seq<char> {
    "task `"@ + task + "` has no answer to resume"@
}

pub open spec fn resumes_exhausted_reason() -> Seq<char> {
    "the worker did not come back after the resume attempts"@
}

/// What to do to resume task `task`'s worker with the answers it is owed and the direction
/// it was given, after `earlier` resumes of this turn: nothing to resume is an error; a
/// session that is not running is relaunched; one whose status cannot be read is put off;
/// past the resume limit the turn is unresolved; otherwise the session is resumed with
/// the reason as its prompt.
pub fn resume_step(
    task: &str,
    answers: &[(String, String)],
    redirect: &Option<String>,
    session: &SessionCheck,
    earlier: u32,
) -> (r: Result<ResumeStep, Error>)
    ensures
        answers@.len() == 0 && redirect.is_none() ==> (r matches Err(Error::Project(m)) && m@
            == no_answer_message(task@)),
        !(answers@.len() == 0 && redirect.is_none()) ==> match *session {
            SessionCheck::NotRunning => r == Ok::<ResumeStep, Error>(ResumeStep::Relaunch),
            SessionCheck::Unreadable(reason) => (r matches Ok(ResumeStep::Defer(d)) && d@ == reason@),
            SessionCheck::Running => if earlier >= MAX_RESUME_ATTEMPTS {
                r matches Ok(ResumeStep::Unresolved(why)) && why@ == resumes_exhausted_reason()
            } else {
                r matches Ok(ResumeStep::Resume { attempt, prompt }) && attempt == earlier + 1
                    && prompt@ == join_spec(resume_reason_parts(*redirect, answers@), " "@)
            },
        },
{
    if answers.len() == 0 && redirect.is_none() {
        let mut m = String::new();
        push_str(&mut m, "task `");
        push_str(&mut m, task);
        push_str(&mut m, "` has no answer to resume");
        return Err(Error::Project(m));
    }
    match session {
        SessionCheck::NotRunning => Ok(ResumeStep::Relaunch),
        SessionCheck::Unreadable(reason) => Ok(ResumeStep::Defer(reason.clone())),
        SessionCheck::Running => {
            if earlier >= MAX_RESUME_ATTEMPTS {
                let mut why = String::new();
                push_str(&mut why, "the worker did not come back after the resume attempts");
                Ok(ResumeStep::Unresolved(why))
            } else {
                Ok(ResumeStep::Resume { attempt: earlier + 1, prompt: resume_reason(redirect, answers) })
            }
        },
    }
}

/// A task's pull request as the forge reports it.
#[derive(Debug, Clone, PartialEq, Eq)]
pub struct ObservedPullRequest {
    pub state: PrState,
    pub checks: Checks,
    /// The commit at its head.
    pub commit: String,
    pub head_ref: String,
    /// The base commit it is compared against.
    pub base: String,
    /// Whether it merges cleanly into that base, when the forge knows.
    pub mergeable: Option<bool>,
}

/// Whether an open pull request's mergeability is checked again against a freshly fetched
/// base before it is believed: the forge said it does not merge.
pub fn recheck_mergeability(observed: &ObservedPullRequest) -> (r: bool)
    ensures
        r == (observed.mergeable == Some(false)),
{
    match observed.mergeable {
        Some(m) => !m,
        None => false,
    }
}

/// What the daemon concludes from one observation of a task's pull request.
#[derive(Debug, Clone, PartialEq, Eq)]
pub struct ForgeStep {
    /// The facts to record, in order.
    pub facts: Vec<FactKind>,
    /// A change of mergeability to record: whether it merges, and the base it was checked
    /// against.
    pub mergeability: Option<(bool, String)>,
    /// Whether the pull request number is settled by this observation.
    pub settles: bool,
    /// Whether the pull request is open, to be considered for base merges and auto-merge.
    pub open: bool,
}

/// The facts an observation gives: a merge or a close once per pull request, and a change
/// of checks while it is open.
pub open spec fn forge_facts_spec(task: Task, recorded: Checks, observed: ObservedPullRequest, settled: bool) -> Seq<FactKind> {
    match observed.state {
        PrState::Merged => if settled {
            Seq::empty()
        } else {
            seq![FactKind::PullRequestMerged { task: task.id, commit: observed.commit }]
        },
        PrState::Closed => if settled {
            Seq::empty()
        } else {
            seq![FactKind::PullRequestClosedUnmerged { task: task.id }]
        },
        PrState::Open => if observed.checks != recorded {
            seq![FactKind::PullRequestChecksChanged { task: task.id, checks: observed.checks }]
        } else {
            Seq::empty()
        },
    }
}

/// The base an open pull request conflicts with, by the mergeability observed.
pub open spec fn conflicting_base(observed: ObservedPullRequest) -> Option<Seq<char>> {
    match observed.mergeable {
        Some(m) => if m {
            None
        } else {
            Some(observed.base@)
        },
        None => None,
    }
}

pub open spec fn text_of(value: Option<String>) -> Option<Seq<char>> {
    match value {
        Some(v) => Some(v@),
        None => None,
    }
}

/// The mergeability change an open pull request shows: when its mergeability is known
/// and the base it conflicts with differs from the one the task records.
pub open spec fn mergeability_spec(task: Task, observed: ObservedPullRequest) -> Option<(bool, Seq<char>)> {
    match observed.mergeable {
        Some(m) => if observed.state == PrState::Open && text_of(task.conflict_base)
            != conflicting_base(observed) {
            Some((m, observed.base@))
        } else {
            None
        },
        None => None,
    }
}

fn same_checks(a: Checks, b: Checks) -> (r: bool)
    ensures
        r == (a == b),
{
    match (a, b) {
        (Checks::Unknown, Checks::Unknown) => true,
        (Checks::Pending, Checks::Pending) => true,
        (Checks::Passing, Checks::Passing) => true,
        (Checks::Failing, Checks::Failing) => true,
        _ => false,
    }
}

fn same_text(a: &Option<String>, b: &Option<String>) -> (r: bool)
    ensures
        r == (text_of(*a) == text_of(*b)),
{
    match (a, b) {
        (Some(x), Some(y)) => crate::text::str_eq(x.as_str(), y.as_str()),
        (None, None) => true,
        _ => false,
    }
}

/// What the daemon concludes from `observed`, the forge's report of `task`'s pull
/// request, whose checks the task records as `recorded`; `settled` says whether the pull
/// request's merge or close was already handled this tick. The mergeability in `observed`
/// is the one checked against a fresh base where `recheck_mergeability` asked for it.
pub fn forge_observation(task: &Task, recorded: Checks, observed: &ObservedPullRequest, settled: bool) -> (r: ForgeStep)
    ensures
        r.facts@ == forge_facts_spec(*task, recorded, *observed, settled),
        match r.mergeability {
            Some((m, base)) => mergeability_spec(*task, *observed) == Some((m, base@)),
            None => mergeability_spec(*task, *observed) is None,
        },
        r.settles == (observed.state != PrState::Open && !settled),
        r.open == (observed.state == PrState::Open),
{
    let mut facts: Vec<FactKind> = Vec::new();
    match observed.state {
        PrState::Merged => {
            if !settled {
                facts.push(FactKind::PullRequestMerged { task: task.id.clone(), commit: observed.commit.clone() });
            }
            assert(facts@ =~= forge_facts_spec(*task, recorded, *observed, settled));
            ForgeStep { facts, mergeability: None, settles: !settled, open: false }
        },
        PrState::Closed => {
            if !settled {
                facts.push(FactKind::PullRequestClosedUnmerged { task: task.id.clone() });
            }
            assert(facts@ =~= forge_facts_spec(*task, recorded, *observed, settled));
            ForgeStep { facts, mergeability: None, settles: !settled, open: false }
        },
        PrState::Open => {
            if !same_checks(observed.checks, recorded) {
                facts.push(FactKind::PullRequestChecksChanged { task: task.id.clone(), checks: observed.checks });
            }
            assert(facts@ =~= forge_facts_spec(*task, recorded, *observed, settled));
            let mergeability = match observed.mergeable {
                Some(m) => {
                    let conflict = if m {
                        None
                    } else {
                        Some(observed.base.clone())
                    };
                    if same_text(&task.conflict_base, &conflict) {
                        None
                    } else {
                        Some((m, observed.base.clone()))
                    }
                },
                None => None,
            };
            ForgeStep { facts, mergeability, settles: false, open: true }
        },
    }
}

pub open spec fn not_authorized_message(profile: Seq<char>, task: Seq<char>) -> Seq<char> {
    "profile `"@ + profile + "` is not authorized for task `"@ + task + "`"@
}

pub open spec fn not_configured_message(profile: Seq<char>, task: Seq<char>) -> Seq<char> {
    "profile `"@ + profile + "` is not configured for task `"@ + task + "`"@
}

/// The message for a role the profile map does not configure.
pub open spec fn unmapped_message(task: Task, profiles: ConfiguredProfiles) -> Seq<char> {
    "no profile is configured for the role "@ + role_name_spec(task.role)
        + ", which is not a role depot guesses; configured roles: "@ + configured_text(
        all_roles().filter(|r: crate::names::Role| profiles.map_view().contains_key(r)),
    )
}

/// Whether `name` is one of the profiles every role falls back to.
pub open spec fn falls_back_to(settings: Settings, name: Seq<char>) -> bool {
    exists|i: int| 0 <= i < settings.fallback_profiles@.len() && (#[trigger] settings.fallback_profiles@[i])@ == name
}

/// The position of the first profile named `name`, or -1.
pub open spec fn first_named(profiles: Seq<ProfileSpec>, name: Seq<char>) -> int
    decreases profiles.len(),
{
    if profiles.len() == 0 {
        -1
    } else if profiles.last().profile@ == name && first_named(profiles.drop_last(), name) < 0 {
        profiles.len() - 1
    } else {
        first_named(profiles.drop_last(), name)
    }
}

/// The profile a worker of `task` may be launched with as `profile`. A base merge may use
/// any profile the settings define. A task pinned to a profile by its dispatch may use
/// that profile or a fallback one, and no other. Otherwise the profile must be one the
/// project configures for the task's role.
pub open spec fn launch_profile_result(
    task: Task,
    profile: Seq<char>,
    base_merge: bool,
    pinned: Option<String>,
    settings: Settings,
    profiles: ConfiguredProfiles,
    r: Result<ProfileSpec, Error>,
) -> bool {
    if base_merge {
        settings.profile_spec_result(profile, r)
    } else {
        match pinned {
            Some(p) => if p@ != profile && !falls_back_to(settings, profile) {
                r matches Err(Error::Config(m)) && m@ == not_authorized_message(profile, task.id@)
            } else {
                settings.profile_spec_result(profile, r)
            },
            None => if !profiles.map_view().contains_key(task.role) {
                r matches Err(Error::Config(m)) && m@ == unmapped_message(task, profiles)
            } else {
                let candidates = profiles.map_view()[task.role];
                let k = first_named(candidates, profile);
                if k < 0 {
                    r matches Err(Error::Config(m)) && m@ == not_configured_message(profile, task.id@)
                } else {
                    r == Ok::<ProfileSpec, Error>(candidates[k])
                }
            },
        }
    }
}

fn listed(names: &Vec<String>, name: &str) -> (r: bool)
    ensures
        r == exists|i: int| 0 <= i < names@.len() && (#[trigger] names@[i])@ == name@,
{
    let mut i: usize = 0;
    while i < names.len()
        invariant
            i <= names@.len(),
            forall|k: int| 0 <= k < i ==> (#[trigger] names@[k])@ != name@,
        decreases names@.len() - i,
    {
        if str_eq(names[i].as_str(), name) {
            return true;
        }
        i += 1;
    }
    false
}

proof fn lemma_first_named(profiles: Seq<ProfileSpec>, name: Seq<char>)
    ensures
        first_named(profiles, name) < profiles.len(),
        first_named(profiles, name) >= 0 ==> profiles[first_named(profiles, name)].profile@ == name
            && forall|j: int| 0 <= j < first_named(profiles, name) ==> profiles[j].profile@ != name,
        first_named(profiles, name) < 0 ==> first_named(profiles, name) == -1 && forall|j: int|
            0 <= j < profiles.len() ==> profiles[j].profile@ != name,
    decreases profiles.len(),
{
    if profiles.len() > 0 {
        let rest = profiles.drop_last();
        lemma_first_named(rest, name);
        assert forall|j: int| 0 <= j < rest.len() implies rest[j] == profiles[j] by {}
    }
}

/// The profile to launch `task`'s worker with as `profile`: see `launch_profile_result`.
pub fn launch_profile(
    task: &Task,
    profile: &str,
    base_merge: bool,
    pinned: &Option<String>,
    settings: &Settings,
    profiles: &ConfiguredProfiles,
) -> (r: Result<ProfileSpec, Error>)
    requires
        profiles.wf(),
    ensures
        launch_profile_result(*task, profile@, base_merge, *pinned, *settings, *profiles, r),
{
    if base_merge {
        return settings.profile_spec(profile);
    }
    match pinned {
        Some(p) => {
            let fallbacks = settings.profile_fallbacks();
            let allowed = listed(&fallbacks, profile);
            if !str_eq(p.as_str(), profile) && !allowed {
                proof {
                    if falls_back_to(*settings, profile@) {
                        let i = choose|i: int| 0 <= i < settings.fallback_profiles@.len() && (#[trigger] settings.fallback_profiles@[i])@ == profile@;
                        assert(fallbacks@[i]@ == profile@);
                    }
                }
                let mut m = String::new();
                push_str(&mut m, "profile `");
                push_str(&mut m, profile);
                push_str(&mut m, "` is not authorized for task `");
                push_string(&mut m, &task.id);
                push_str(&mut m, "`");
                return Err(Error::Config(m));
            }
            proof {
                if allowed {
                    let i = choose|i: int| 0 <= i < fallbacks@.len() && (#[trigger] fallbacks@[i])@ == profile@;
                    assert(settings.fallback_profiles@[i]@ == profile@);
                }
            }
            settings.profile_spec(profile)
        },
        None => {
            match profiles.resolve(task.role) {
                Err(e) => Err(Error::Config(e.message())),
                Ok(resolved) => {
                    let ghost candidates = profiles.map_view()[task.role];
                    proof {
                        lemma_first_named(candidates, profile@);
                    }
                    if str_eq(resolved.primary.profile.as_str(), profile) {
                        proof {
                            let k = first_named(candidates, profile@);
                            assert(candidates[0].profile@ == profile@);
                            if k > 0 {
                                assert(candidates[0].profile@ != profile@);
                            }
                            assert(k == 0);
                        }
                        return Ok(resolved.primary);
                    }
                    let mut i: usize = 0;
                    while i < resolved.fallbacks.len()
                        invariant
                            i <= resolved.fallbacks@.len(),
                            candidates == profiles.map_view()[task.role],
                            profiles.map_view().contains_key(task.role),
                            !base_merge,
                            pinned.is_none(),
                            candidates.len() >= 1,
                            resolved.fallbacks@ == candidates.skip(1),
                            candidates[0].profile@ != profile@,
                            forall|k: int| 0 <= k < i ==> (#[trigger] resolved.fallbacks@[k]).profile@ != profile@,
                        decreases resolved.fallbacks@.len() - i,
                    {
                        if str_eq(resolved.fallbacks[i].profile.as_str(), profile) {
                            proof {
                                lemma_first_named(candidates, profile@);
                                let k = first_named(candidates, profile@);
                                assert(resolved.fallbacks@[i as int] == candidates[i + 1]);
                                assert(candidates[i + 1].profile@ == profile@);
                                if k >= 0 && k != i + 1 {
                                    if k == 0 {
                                    } else if k < i + 1 {
                                        assert(candidates[k] == resolved.fallbacks@[k - 1]);
                                    }
                                }
                                assert(k == i + 1);
                            }
                            return Ok(copy_spec(&resolved.fallbacks[i]));
                        }
                        i += 1;
                    }
                    proof {
                        lemma_first_named(candidates, profile@);
                        let k = first_named(candidates, profile@);
                        if k >= 0 {
                            if k > 0 {
                                assert(candidates[k] == resolved.fallbacks@[k - 1]);
                            }
                        }
                    }
                    let mut m = String::new();
                    push_str(&mut m, "profile `");
                    push_str(&mut m, profile);
                    push_str(&mut m, "` is not configured for task `");
                    push_string(&mut m, &task.id);
                    push_str(&mut m, "`");
                    Err(Error::Config(m))
                },
            }
        },
    }
}

/// The prompt a worker is launched with: its brief, and after a blank line why it is
/// launched again when it is owed answers or was given a new direction.
pub open spec fn launch_prompt(brief: Seq<char>, answers: Seq<(String, String)>, redirect: Option<String>) -> Seq<char> {
    if answers.len() > 0 || redirect is Some {
        brief + "\n\n"@ + join_spec(resume_reason_parts(redirect, answers), " "@)
    } else {
        brief
    }
}

/// Whether `request` launches `task`'s worker in `directory` with `spec`, the brief and
/// what it is owed: the account is the profile's account trimmed, empty when it is
/// blank, and the session's kind is the task's role.
pub open spec fn launch_request_spec(
    request: LaunchRequest,
    task: Task,
    spec: ProfileSpec,
    brief: Seq<char>,
    answers: Seq<(String, String)>,
    redirect: Option<String>,
    directory: Seq<char>,
) -> bool {
    &&& request.directory@ == directory
    &&& request.profile.account@ == trim(spec.account@)
    &&& request.profile.harness@ == spec.harness@
    &&& request.profile.model@ == spec.model@
    &&& request.profile.effort@ == spec.effort@
    &&& request.kind matches Some(kind) && kind@ == role_name_spec(task.role)
    &&& request.prompt@ == launch_prompt(brief, answers, redirect)
}

/// The request that launches `task`'s worker with the profile `spec`.
pub fn build_launch(
    task: &Task,
    spec: &ProfileSpec,
    brief: &str,
    answers: &[(String, String)],
    redirect: &Option<String>,
    directory: &str,
) -> (r: LaunchRequest)
    ensures
        launch_request_spec(r, *task, *spec, brief@, answers@, *redirect, directory@),
{
    let mut prompt = String::new();
    push_str(&mut prompt, brief);
    if answers.len() > 0 || redirect.is_some() {
        push_str(&mut prompt, "\n\n");
        push_string(&mut prompt, &resume_reason(redirect, answers));
    }
    let mut dir = String::new();
    push_str(&mut dir, directory);
    let mut kind = String::new();
    push_str(&mut kind, role_name(task.role));
    LaunchRequest {
        directory: dir,
        profile: SessionProfile {
            account: trimmed(spec.account.as_str()),
            harness: spec.harness.clone(),
            model: spec.model.clone(),
            effort: spec.effort.clone(),
        },
        kind: Some(kind),
        prompt,
    }
}

/// The request that launches `task`'s worker as `profile` in `directory`: the profile is
/// checked as `launch_profile` checks it, and its refusal is the error.
pub fn launch_request(
    task: &Task,
    profile: &str,
    base_merge: bool,
    pinned: &Option<String>,
    settings: &Settings,
    profiles: &ConfiguredProfiles,
    brief: &str,
    answers: &[(String, String)],
    redirect: &Option<String>,
    directory: &str,
) -> (r: Result<LaunchRequest, Error>)
    requires
        profiles.wf(),
    ensures
        match r {
            Ok(request) => exists|spec: ProfileSpec|
                launch_profile_result(*task, profile@, base_merge, *pinned, *settings, *profiles, Ok(spec))
                    && launch_request_spec(request, *task, spec, brief@, answers@, *redirect, directory@),
            Err(e) => launch_profile_result(*task, profile@, base_merge, *pinned, *settings, *profiles, Err(e)),
        },
{
    match launch_profile(task, profile, base_merge, pinned, settings, profiles) {
        Ok(spec) => {
            let request = build_launch(task, &spec, brief, answers, redirect, directory);
            assert(launch_profile_result(*task, profile@, base_merge, *pinned, *settings, *profiles, Ok(spec)));
            Ok(request)
        },
        Err(e) => Err(e),
    }
}

/// How long a recorded liveness stands before it is recorded again though unchanged.
pub const LIVENESS_REFRESH_MILLIS: u64 = 60_000;

/// Whether a worker's liveness is recorded: unless the last recording said the same less
/// than a refresh ago, and it neither settles an attempt whose outcome is unknown nor
/// follows a deferred turn that recovered.
pub open spec fn liveness_due_spec(
    previous: Option<(Liveness, u64)>,
    liveness: Liveness,
    resolves_unknown: bool,
    recovered: bool,
    now: u64,
) -> bool {
    let stale = match previous {
        None => true,
        Some((_, at)) => (if now >= at { now - at } else { 0 }) >= LIVENESS_REFRESH_MILLIS,
    };
    let same = match previous {
        Some((value, _)) => value == liveness,
        None => false,
    };
    !(same && !resolves_unknown && !stale && !recovered)
}

pub fn liveness_due(
    previous: Option<(Liveness, Timestamp)>,
    liveness: Liveness,
    resolves_unknown: bool,
    recovered: bool,
    now: Timestamp,
) -> (r: bool)
    ensures
        r == liveness_due_spec(
            match previous {
                Some((l, at)) => Some((l, at@)),
                None => None,
            },
            liveness,
            resolves_unknown,
            recovered,
            now@,
        ),
{
    let (stale, same) = match previous {
        None => (true, false),
        Some((value, at)) => (
            now.millis().saturating_sub(at.millis()) >= LIVENESS_REFRESH_MILLIS,
            match (value, liveness) {
                (Liveness::Live, Liveness::Live) => true,
                (Liveness::Gone, Liveness::Gone) => true,
                _ => false,
            },
        ),
    };
    !(same && !resolves_unknown && !stale && !recovered)
}

/// Whether a task has run past its run duration: it is in flight but not waiting on a
/// question, owes no answer and has no direction pending, and its latest attempt is open
/// and began at least the run duration ago.
pub open spec fn run_exceeded_spec(task: Task, answer_owed: bool, redirect_pending: bool, now: u64, run_duration_millis: u64) -> bool {
    &&& task.in_flight
    &&& task.state != TaskState::WaitingOnQuestion
    &&& !answer_owed
    &&& !redirect_pending
    &&& task.attempts@.len() > 0
    &&& task.attempts@.last().open
    &&& (if now >= task.attempts@.last().started_at@ {
        now - task.attempts@.last().started_at@
    } else {
        0
    }) >= run_duration_millis
}

/// The fact the run budget records for `task`, if it ran past its run duration.
pub fn run_budget(task: &Task, answer_owed: bool, redirect_pending: bool, now: Timestamp, run_duration_millis: u64) -> (r: Option<FactKind>)
    ensures
        r == (if run_exceeded_spec(*task, answer_owed, redirect_pending, now@, run_duration_millis) {
            Some(FactKind::RunDurationExceeded { task: task.id })
        } else {
            None
        }),
{
    if !task.in_flight || task.state == TaskState::WaitingOnQuestion || answer_owed || redirect_pending {
        return None;
    }
    if task.attempts.len() == 0 {
        return None;
    }
    let attempt = &task.attempts[task.attempts.len() - 1];
    if !attempt.open {
        return None;
    }
    if now.millis().saturating_sub(attempt.started_at.millis()) < run_duration_millis {
        return None;
    }
    Some(FactKind::RunDurationExceeded { task: task.id.clone() })
}

/// When the daemon merges a pull request itself.
#[derive(Debug, Clone, Copy, PartialEq, Eq, Structural)]
pub enum MergePolicy {
    /// Never: a person merges.
    Manual,
    /// Once the forge's checks pass and no dependency pin is stale.
    AfterChecks,
    /// As after checks, once a review task filed against the pull request head validates.
    AfterReview,
}

/// Whether task `other` reviews the task `id`: a review-role task that depends on it.
pub open spec fn reviews(other: Task, id: Seq<char>) -> bool {
    other.role == Role::Review && exists|k: int|
        0 <= k < other.dependencies@.len() && (#[trigger] other.dependencies@[k]).task@ == id
}

/// Whether some task already reviews the task `id`.
pub open spec fn review_filed(tasks: Seq<Task>, id: Seq<char>) -> bool {
    exists|j: int| 0 <= j < tasks.len() && reviews(#[trigger] tasks[j], id)
}

/// Whether a review task is due for `task`: its pull request is open, it has a validated
/// commit, and no task reviews it yet.
pub open spec fn review_due(tasks: Seq<Task>, task: Task) -> bool {
    task.state == TaskState::PrOpen && task.validated_commit is Some && !review_filed(tasks, task.id@)
}

/// The positions of the tasks among the first `n` that a review task is due for, in order.
pub open spec fn reviews_due_upto(tasks: Seq<Task>, n: int) -> Seq<usize>
    decreases n,
{
    if n <= 0 {
        Seq::empty()
    } else if review_due(tasks, tasks[n - 1]) {
        reviews_due_upto(tasks, n - 1).push((n - 1) as usize)
    } else {
        reviews_due_upto(tasks, n - 1)
    }
}

/// The tasks a review task is filed for: under the after-review merge policy, when the
/// review role has a profile, each task whose open pull request has a validated commit
/// and no review yet.
pub open spec fn review_due_spec(tasks: Seq<Task>, after_review: bool, review_role_mapped: bool) -> Seq<usize> {
    if after_review && review_role_mapped {
        reviews_due_upto(tasks, tasks.len() as int)
    } else {
        Seq::empty()
    }
}

fn reviews_exec(other: &Task, id: &str) -> (r: bool)
    ensures
        r == reviews(*other, id@),
{
    if other.role != Role::Review {
        return false;
    }
    let mut k: usize = 0;
    while k < other.dependencies.len()
        invariant
            k <= other.dependencies@.len(),
            other.role == Role::Review,
            forall|l: int| 0 <= l < k ==> (#[trigger] other.dependencies@[l]).task@ != id@,
        decreases other.dependencies@.len() - k,
    {
        if str_eq(other.dependencies[k].task.as_str(), id) {
            assert(other.dependencies@[k as int].task@ == id@);
            return true;
        }
        k += 1;
    }
    false
}

fn review_filed_exec(tasks: &[Task], id: &str) -> (r: bool)
    ensures
        r == review_filed(tasks@, id@),
{
    let mut j: usize = 0;
    while j < tasks.len()
        invariant
            j <= tasks@.len(),
            forall|l: int| 0 <= l < j ==> !reviews(#[trigger] tasks@[l], id@),
        decreases tasks@.len() - j,
    {
        if reviews_exec(&tasks[j], id) {
            return true;
        }
        j += 1;
    }
    false
}

/// The positions in `state` of the tasks a review task is due for.
pub fn review_tasks_due(state: &ProjectState, after_review: bool, review_role_mapped: bool) -> (r: Vec<usize>)
    ensures
        r@ == review_due_spec(state.tasks@, after_review, review_role_mapped),
{
    let mut due: Vec<usize> = Vec::new();
    if !(after_review && review_role_mapped) {
        return due;
    }
    let tasks = &state.tasks;
    let mut i: usize = 0;
    while i < tasks.len()
        invariant
            i <= tasks@.len(),
            due@ == reviews_due_upto(tasks@, i as int),
        decreases tasks@.len() - i,
    {
        let t = &tasks[i];
        if t.state == TaskState::PrOpen && t.validated_commit.is_some() && !review_filed_exec(tasks.as_slice(), t.id.as_str()) {
            due.push(i);
        }
        i += 1;
    }
    due
}

pub open spec fn review_intent(id: Seq<char>) -> Seq<char> {
    "Review the change of task `"@ + id
        + "` on its delivery branch. Read the diff against the base branch and report findings on correctness, tests and risks."@
}

/// The facts that file review task `review` for `task` at its validated `commit`: the
/// review is proposed, titled after the task, with the fixed intent naming it, in the
/// review role, depending on the task at that commit and based on it, its own pull
/// request held; then it is approved.
pub fn review_facts(review: &str, task: &Task, commit: &str) -> (r: (FactKind, FactKind))
    ensures
        r.0 matches FactKind::TaskProposed {
            task: id,
            title,
            intent,
            role,
            dispatch_profile,
            dependencies,
            base_dependency,
            hold_pr,
        } && id@ == review@ && title@ == "Review "@ + task.title@ && intent@ == review_intent(task.id@)
            && role == Role::Review && dispatch_profile is None && dependencies@.len() == 1
            && dependencies@[0].task@ == task.id@ && dependencies@[0].commit@ == commit@
            && (base_dependency matches Some(b) && b@ == task.id@) && hold_pr,
        r.1 matches FactKind::TaskApproved { task: id } && id@ == review@,
{
    let mut title = String::new();
    push_str(&mut title, "Review ");
    push_string(&mut title, &task.title);
    let mut intent = String::new();
    push_str(&mut intent, "Review the change of task `");
    push_string(&mut intent, &task.id);
    push_str(&mut intent, "` on its delivery branch. Read the diff against the base branch and report findings on correctness, tests and risks.");
    let mut dependency_commit = String::new();
    push_str(&mut dependency_commit, commit);
    let mut dependencies: Vec<Dependency> = Vec::new();
    dependencies.push(Dependency { task: task.id.clone(), commit: dependency_commit });
    let mut proposed_id = String::new();
    push_str(&mut proposed_id, review);
    let mut approved_id = String::new();
    push_str(&mut approved_id, review);
    (
        FactKind::TaskProposed {
            task: proposed_id,
            title,
            intent,
            role: Role::Review,
            dispatch_profile: None,
            dependencies,
            base_dependency: Some(task.id.clone()),
            hold_pr: true,
        },
        FactKind::TaskApproved { task: approved_id },
    )
}

/// Whether the daemon watches `task`'s pull request: the task's pull request is open.
pub open spec fn tracks(task: Task) -> bool {
    task.state == TaskState::PrOpen && task.pull_request is Some
}

pub open spec fn pr_number(task: Task) -> u64 {
    task.pull_request->0.number
}

/// Whether a task before position `i` watches pull request `number`.
pub open spec fn watched_before(tasks: Seq<Task>, i: int, number: u64) -> bool {
    exists|j: int| 0 <= j < i && tracks(#[trigger] tasks[j]) && pr_number(tasks[j]) == number
}

/// The polls the first `n` tasks ask for: each watched pull request once, for the first
/// task that watches it.
pub open spec fn polls_upto(tasks: Seq<Task>, n: int) -> Seq<(usize, u64)>
    decreases n,
{
    if n <= 0 {
        Seq::empty()
    } else {
        let t = tasks[n - 1];
        if tracks(t) && !watched_before(tasks, n - 1, pr_number(t)) {
            polls_upto(tasks, n - 1).push(((n - 1) as usize, pr_number(t)))
        } else {
            polls_upto(tasks, n - 1)
        }
    }
}

fn watched_before_exec(tasks: &[Task], i: usize, number: u64) -> (r: bool)
    requires
        i <= tasks@.len(),
    ensures
        r == watched_before(tasks@, i as int, number),
{
    let mut j: usize = 0;
    while j < i
        invariant
            j <= i <= tasks@.len(),
            forall|l: int| 0 <= l < j ==> !(tracks(#[trigger] tasks@[l]) && pr_number(tasks@[l]) == number),
        decreases i - j,
    {
        let t = &tasks[j];
        if t.state == TaskState::PrOpen {
            match &t.pull_request {
                Some(pr) => if pr.number == number {
                    assert(tracks(tasks@[j as int]) && pr_number(tasks@[j as int]) == number);
                    return true;
                },
                None => {},
            }
        }
        j += 1;
    }
    false
}

/// The pull requests to poll this tick, each once: the position of the first task that
/// watches it, and its number.
pub fn forge_polls(state: &ProjectState) -> (r: Vec<(usize, u64)>)
    ensures
        r@ == polls_upto(state.tasks@, state.tasks@.len() as int),
{
    let tasks = state.tasks.as_slice();
    let mut polls: Vec<(usize, u64)> = Vec::new();
    let mut i: usize = 0;
    while i < tasks.len()
        invariant
            i <= tasks@.len(),
            tasks@ == state.tasks@,
            polls@ == polls_upto(tasks@, i as int),
        decreases tasks@.len() - i,
    {
        let t = &tasks[i];
        if t.state == TaskState::PrOpen {
            match &t.pull_request {
                Some(pr) => {
                    if !watched_before_exec(tasks, i, pr.number) {
                        polls.push((i, pr.number));
                    }
                },
                None => {},
            }
        }
        i += 1;
    }
    polls
}

/// The forge's report for pull request `number`, from the first entry that names it.
pub open spec fn observation_for(observed: Seq<(u64, Option<ObservedPullRequest>)>, number: u64) -> Option<ObservedPullRequest>
    decreases observed.len(),
{
    if observed.len() == 0 {
        None
    } else if observed[0].0 == number {
        observed[0].1
    } else {
        observation_for(observed.skip(1), number)
    }
}

fn find_observation(observed: &[(u64, Option<ObservedPullRequest>)], number: u64) -> (r: Option<&ObservedPullRequest>)
    ensures
        match r {
            Some(o) => observation_for(observed@, number) == Some(*o),
            None => observation_for(observed@, number) is None,
        },
{
    let mut k: usize = 0;
    assert(observed@.skip(0) == observed@);
    while k < observed.len()
        invariant
            k <= observed@.len(),
            observation_for(observed@, number) == observation_for(observed@.skip(k as int), number),
        decreases observed@.len() - k,
    {
        assert(observed@.skip(k as int)[0] == observed@[k as int]);
        assert(observed@.skip(k as int).skip(1) == observed@.skip(k + 1));
        if observed[k].0 == number {
            return match &observed[k].1 {
                Some(o) => Some(o),
                None => None,
            };
        }
        k += 1;
    }
    None
}

/// What a tick concludes about each watched pull request the forge reported on: the
/// task's position, the report, and whether an earlier task watching the same pull
/// request already settled its merge or close.
pub open spec fn tick_upto(tasks: Seq<Task>, observed: Seq<(u64, Option<ObservedPullRequest>)>, n: int) -> Seq<(usize, ObservedPullRequest, bool)>
    decreases n,
{
    if n <= 0 {
        Seq::empty()
    } else {
        let t = tasks[n - 1];
        let before = tick_upto(tasks, observed, n - 1);
        if tracks(t) && observation_for(observed, pr_number(t)) is Some {
            before.push(((n - 1) as usize, observation_for(observed, pr_number(t))->0, watched_before(tasks, n - 1, pr_number(t))))
        } else {
            before
        }
    }
}

/// Whether `step` is what `forge_observation` concludes for `task` from `observed`.
pub open spec fn step_for(step: ForgeStep, task: Task, observed: ObservedPullRequest, settled: bool) -> bool {
    let recorded = task.pull_request->0.checks;
    &&& step.facts@ == forge_facts_spec(task, recorded, observed, settled)
    &&& match step.mergeability {
        Some((m, base)) => mergeability_spec(task, observed) == Some((m, base@)),
        None => mergeability_spec(task, observed) is None,
    }
    &&& step.settles == (observed.state != PrState::Open && !settled)
    &&& step.open == (observed.state == PrState::Open)
}

/// One tick of forge observation: for each task that watches a pull request the forge
/// reported on, in order, what it concludes; a merge or a close is settled once for each
/// pull request number.
pub fn forge_tick(state: &ProjectState, observed: &[(u64, Option<ObservedPullRequest>)]) -> (r: Vec<(usize, ForgeStep)>)
    ensures
        r@.len() == tick_upto(state.tasks@, observed@, state.tasks@.len() as int).len(),
        forall|k: int| 0 <= k < r@.len() ==> {
            let e = tick_upto(state.tasks@, observed@, state.tasks@.len() as int)[k];
            &&& (#[trigger] r@[k]).0 == e.0
            &&& e.0 < state.tasks@.len()
            &&& step_for(r@[k].1, state.tasks@[e.0 as int], e.1, e.2)
        },
{
    let tasks = state.tasks.as_slice();
    let mut steps: Vec<(usize, ForgeStep)> = Vec::new();
    let mut i: usize = 0;
    while i < tasks.len()
        invariant
            i <= tasks@.len(),
            tasks@ == state.tasks@,
            steps@.len() == tick_upto(tasks@, observed@, i as int).len(),
            forall|k: int| 0 <= k < steps@.len() ==> {
                let e = tick_upto(tasks@, observed@, i as int)[k];
                &&& (#[trigger] steps@[k]).0 == e.0
                &&& e.0 < i
                &&& step_for(steps@[k].1, tasks@[e.0 as int], e.1, e.2)
            },
        decreases tasks@.len() - i,
    {
        let t = &tasks[i];
        let ghost before = tick_upto(tasks@, observed@, i as int);
        if t.state == TaskState::PrOpen {
            match &t.pull_request {
                Some(pr) => {
                    match find_observation(observed, pr.number) {
                        Some(o) => {
                            let settled = watched_before_exec(tasks, i, pr.number);
                            let step = forge_observation(t, pr.checks, o, settled);
                            steps.push((i, step));
                        },
                        None => {},
                    }
                },
                None => {},
            }
        }
        assert forall|k: int| 0 <= k < before.len() implies tick_upto(tasks@, observed@, i + 1)[k] == before[k] by {}
        i += 1;
    }
    steps
}

/// Whether the daemon merges a watched pull request itself now: the policy merges, the
/// pull request is open with passing checks, no dependency pin of the task is stale, and,
/// under the after-review policy, its review validated.
pub open spec fn merge_due(task: Task, observed: ObservedPullRequest, policy: MergePolicy, pins_fresh: bool, review_validated: bool) -> bool {
    &&& policy != MergePolicy::Manual
    &&& task.state == TaskState::PrOpen
    &&& observed.state == PrState::Open
    &&& observed.checks == Checks::Passing
    &&& pins_fresh
    &&& (policy == MergePolicy::AfterReview ==> review_validated)
}

/// What the merge step does with a watched pull request.
#[derive(Debug, Clone, PartialEq, Eq)]
pub enum MergeStep {
    /// Merge it at this head commit, then delete this head branch.
    Merge { commit: String, head_ref: String },
    /// Leave it.
    Hold,
}

/// The merge step for `task`'s pull request as `observed`: merge when it is due and the
/// forge has not already refused this very merge; hold otherwise.
pub fn merge_step(
    task: &Task,
    observed: &ObservedPullRequest,
    policy: MergePolicy,
    pins_fresh: bool,
    review_validated: bool,
    refused_here: bool,
) -> (r: MergeStep)
    ensures
        merge_due(*task, *observed, policy, pins_fresh, review_validated) && !refused_here ==> (r matches MergeStep::Merge { commit, head_ref } && commit@ == observed.commit@ && head_ref@ == observed.head_ref@),
        !(merge_due(*task, *observed, policy, pins_fresh, review_validated) && !refused_here) ==> r == MergeStep::Hold,
{
    let policy_merges = match policy {
        MergePolicy::Manual => false,
        _ => true,
    };
    let reviewed = match policy {
        MergePolicy::AfterReview => review_validated,
        _ => true,
    };
    let open = match observed.state {
        PrState::Open => true,
        _ => false,
    };
    let passing = match observed.checks {
        Checks::Passing => true,
        _ => false,
    };
    if policy_merges && task.state == TaskState::PrOpen && open && passing && pins_fresh && reviewed && !refused_here {
        MergeStep::Merge { commit: observed.commit.clone(), head_ref: observed.head_ref.clone() }
    } else {
        MergeStep::Hold
    }
}

/// Whether the task's last merge refusal, whose payload is `payload`, was for this very
/// merge: the same head commit, base and checks. The fields are read in that order, and
/// the first that differs settles it; a field that cannot be read is an error.
pub open spec fn refused_here_spec(payload: Seq<char>, observed: ObservedPullRequest) -> Result<bool, (ErrorKind, Seq<char>)> {
    match field_of(payload, "commit"@) {
        Err(e) => Err(e),
        Ok(commit) => if commit != observed.commit@ {
            Ok(false)
        } else {
            match field_of(payload, "base"@) {
                Err(e) => Err(e),
                Ok(base) => if base != observed.base@ {
                    Ok(false)
                } else {
                    match field_of(payload, "checks"@) {
                        Err(e) => Err(e),
                        Ok(checks) => Ok(checks == checks_name_spec(observed.checks)),
                    }
                },
            }
        },
    }
}

pub open spec fn bool_view(r: Result<bool, Error>) -> Result<bool, (ErrorKind, Seq<char>)> {
    match r {
        Ok(b) => Ok(b),
        Err(e) => Err((e.kind(), e.detail())),
    }
}

/// Whether the forge already refused this very merge, from the payload of the task's
/// last merge refusal, if it has one.
pub fn merge_was_refused_at(last_refusal: Option<&str>, observed: &ObservedPullRequest) -> (r: Result<bool, Error>)
    ensures
        match last_refusal {
            None => r == Ok::<bool, Error>(false),
            Some(payload) => bool_view(r) == refused_here_spec(payload@, *observed),
        },
{
    let payload = match last_refusal {
        None => return Ok(false),
        Some(p) => p,
    };
    let commit = match payload_field(payload, "commit") {
        Ok(c) => c,
        Err(e) => return Err(e),
    };
    if !str_eq(commit.as_str(), observed.commit.as_str()) {
        return Ok(false);
    }
    let base = match payload_field(payload, "base") {
        Ok(b) => b,
        Err(e) => return Err(e),
    };
    if !str_eq(base.as_str(), observed.base.as_str()) {
        return Ok(false);
    }
    let checks = match payload_field(payload, "checks") {
        Ok(c) => c,
        Err(e) => return Err(e),
    };
    Ok(str_eq(checks.as_str(), checks_name(observed.checks)))
}

/// The fact a merge attempt records: the merge at the observed head, or, when the forge
/// refused it for `refusal`, the refusal with the commit, base and checks it was tried at.
pub fn merge_result_fact(task: &str, observed: &ObservedPullRequest, refusal: Option<&str>) -> (r: FactKind)
    ensures
        match refusal {
            None => r matches FactKind::PullRequestMerged { task: t, commit } && t@ == task@
                && commit@ == observed.commit@,
            Some(reason) => r matches FactKind::PullRequestMergeRefused { task: t, commit, base, checks, reason: why }
                && t@ == task@ && commit@ == observed.commit@ && base@ == observed.base@
                && checks == observed.checks && why@ == reason@,
        },
{
    let mut id = String::new();
    push_str(&mut id, task);
    match refusal {
        None => FactKind::PullRequestMerged { task: id, commit: observed.commit.clone() },
        Some(reason) => {
            let mut why = String::new();
            push_str(&mut why, reason);
            FactKind::PullRequestMergeRefused {
                task: id,
                commit: observed.commit.clone(),
                base: observed.base.clone(),
                checks: observed.checks,
                reason: why,
            }
        },
    }
}

/// Whether a launch goes ahead.
#[derive(Debug, Clone, PartialEq, Eq)]
pub enum LaunchGate {
    /// Give the turn up as unresolved, for the reason given.
    Unresolved(String),
    /// Put the turn off, for the reason given.
    Defer(String),
    /// Launch in this worktree directory.
    Proceed(String),
}

pub open spec fn launch_pending_reason() -> Seq<char> {
    "a previous launch intent never completed"@
}

/// Whether task `task`'s worker is launched: a launch whose intent was recorded but never
/// completed makes the turn unresolved; a worktree that cannot be leased puts the turn
/// off; a task with no attempt is an error; otherwise it launches in the leased
/// worktree.
pub fn launch_gate(task: &str, launch_pending: bool, worktree: &Result<String, String>, attempts: usize) -> (r: Result<LaunchGate, Error>)
    ensures
        launch_pending ==> (r matches Ok(LaunchGate::Unresolved(why)) && why@ == launch_pending_reason()),
        !launch_pending ==> match *worktree {
            Err(reason) => r matches Ok(LaunchGate::Defer(why)) && why@ == reason@,
            Ok(path) => if attempts == 0 {
                r matches Err(Error::Project(m)) && m@ == "task `"@ + task@ + "` has no attempt"@
            } else {
                r matches Ok(LaunchGate::Proceed(dir)) && dir@ == path@
            },
        },
{
    if launch_pending {
        let mut why = String::new();
        push_str(&mut why, "a previous launch intent never completed");
        return Ok(LaunchGate::Unresolved(why));
    }
    match worktree {
        Err(reason) => Ok(LaunchGate::Defer(reason.clone())),
        Ok(path) => {
            if attempts == 0 {
                let mut m = String::new();
                push_str(&mut m, "task `");
                push_str(&mut m, task);
                push_str(&mut m, "` has no attempt");
                Err(Error::Project(m))
            } else {
                Ok(LaunchGate::Proceed(path.clone()))
            }
        },
    }
}

/// What a resume call came to.
#[derive(Debug, Clone, PartialEq, Eq)]
pub enum Resumed {
    /// The session tool refused the resume; the turn is left as it is.
    Failed(String),
    /// The resumed turn was reported under the parent session; the turn is left as it is.
    SameSession,
    /// The turn resumed as this child session, which is recorded.
    Child(String),
}

/// What a resume of `parent` that answered `child` comes to.
pub fn resumed(parent: &str, child: &Result<String, String>) -> (r: Resumed)
    ensures
        match *child {
            Err(reason) => r matches Resumed::Failed(why) && why@ == reason@,
            Ok(session) => if session@ == parent@ {
                r == Resumed::SameSession
            } else {
                r matches Resumed::Child(c) && c@ == session@
            },
        },
{
    match child {
        Err(reason) => Resumed::Failed(reason.clone()),
        Ok(session) => if str_eq(session.as_str(), parent) {
            Resumed::SameSession
        } else {
            Resumed::Child(session.clone())
        },
    }
}

/// The fact a push of `task`'s branch at the validated `commit` records: the pushed
/// branch, or the push's failure with its reason.
pub fn push_result_fact(task: &str, commit: &str, failure: Option<&str>) -> (r: FactKind)
    ensures
        match failure {
            None => r matches FactKind::BranchPushed { task: t, commit: c } && t@ == task@ && c@ == commit@,
            Some(reason) => r matches FactKind::PushFailed { task: t, commit: c, reason: why } && t@ == task@
                && c@ == commit@ && why@ == reason@,
        },
{
    let mut t = String::new();
    push_str(&mut t, task);
    let mut c = String::new();
    push_str(&mut c, commit);
    match failure {
        None => FactKind::BranchPushed { task: t, commit: c },
        Some(reason) => {
            let mut why = String::new();
            push_str(&mut why, reason);
            FactKind::PushFailed { task: t, commit: c, reason: why }
        },
    }
}

/// The merge policies hold what they promise: under the manual policy the daemon never
/// merges; under after-review it never merges before the review validated; and under
/// either automatic policy it never merges while a dependency pin is stale or the
/// checks do not pass.
pub proof fn lemma_merge_policies(task: Task, observed: ObservedPullRequest, policy: MergePolicy, pins_fresh: bool, review_validated: bool)
    ensures
        policy == MergePolicy::Manual ==> !merge_due(task, observed, policy, pins_fresh, review_validated),
        policy == MergePolicy::AfterReview && !review_validated ==> !merge_due(task, observed, policy, pins_fresh, review_validated),
        !pins_fresh ==> !merge_due(task, observed, policy, pins_fresh, review_validated),
        observed.checks != Checks::Passing ==> !merge_due(task, observed, policy, pins_fresh, review_validated),
{
}

/// A merge or a close is recorded once per pull request in a tick: of two tasks watching
/// the same pull request, the later one's observation is settled, and records no fact
/// when the pull request merged or closed.
pub proof fn lemma_settled_once(tasks: Seq<Task>, observed: Seq<(u64, Option<ObservedPullRequest>)>, i: int, j: int)
    requires
        0 <= i < j < tasks.len(),
        tracks(tasks[i]),
        tracks(tasks[j]),
        pr_number(tasks[i]) == pr_number(tasks[j]),
        observation_for(observed, pr_number(tasks[j])) matches Some(o) && o.state != PrState::Open,
    ensures
        watched_before(tasks, j, pr_number(tasks[j])),
        forge_facts_spec(
            tasks[j],
            tasks[j].pull_request->0.checks,
            observation_for(observed, pr_number(tasks[j]))->0,
            watched_before(tasks, j, pr_number(tasks[j])),
        ).len() == 0,
{
    assert(tracks(tasks[i]) && pr_number(tasks[i]) == pr_number(tasks[j]));
}

} // verus!
