use depotd::adapters::profiles::{ConfiguredProfiles, RoleEntry};
use depotd::config::DispatchRule;
use depotd::dispatch::{check_dispatch_rules, refusal_error, DispatchRefusal};
use depotd::error::Error;
use depotd::names::{Role, TaskState};
use depotd::records::Timestamp;
use depotd::settings::{ProfileSettings, ProfileSpec, Settings};
use depotd::supervisor::{free_slots, visit_order};
use depotd::tasks::{Attempt, ProjectState, Task};

fn task(id: &str, in_flight: bool, lease: Option<&str>) -> Task {
    Task {
        id: id.to_string(),
        title: "t".to_string(),
        intent: String::new(),
        role: Role::Build,
        state: TaskState::Running,
        in_flight,
        created_at: Timestamp::from_millis(0),
        attempts: vec![Attempt {
            open: true,
            started_at: Timestamp::from_millis(0),
            session: None,
            last_seen_at: None,
            worktree: lease.map(str::to_string),
        }],
        dependencies: Vec::new(),
        rework_of: None,
        pull_request: None,
        conflict_base: None,
        hold_pr: false,
        merge_refused: None,
        release_held: Vec::new(),
        failure: None,
        turn_deferral: None,
        redirect_text: None,
        redirect_delivered: false,
        questions: Vec::new(),
        artifacts: Vec::new(),
        validations: Vec::new(),
        retry_not_before: None,
        branch_head: None,
        validated_commit: None,
    }
}

fn project(slug: &str, tasks: Vec<Task>) -> ProjectState {
    ProjectState { project: slug.to_string(), slug: slug.to_string(), tasks }
}

#[test]
fn projects_take_turns_starting_one_further_each_tick() {
    assert_eq!(visit_order(0, 3), vec![0, 1, 2]);
    assert_eq!(visit_order(1, 3), vec![1, 2, 0]);
    assert_eq!(visit_order(5, 3), vec![2, 0, 1]);
    assert_eq!(visit_order(usize::MAX, 2), vec![1, 0]);
    assert!(visit_order(7, 0).is_empty());
}

#[test]
fn slots_held_by_leased_in_flight_tasks_are_not_free() {
    let states = vec![
        project("a", vec![task("t-1", true, Some("wt-1")), task("t-2", true, None)]),
        project("b", vec![task("t-1", false, Some("wt-2")), task("t-3", true, Some("wt-3"))]),
    ];
    assert_eq!(free_slots(4, &states), 2);
    assert_eq!(free_slots(1, &states), 0);
    assert_eq!(free_slots(3, &[]), 3);
}

fn settings() -> Settings {
    let mut s = Settings::default();
    s.profiles = vec![(
        "fast".to_string(),
        ProfileSettings { harness: "h".to_string(), model: "m".to_string(), effort: "e".to_string(), account: String::new() },
    )];
    s
}

fn rule(when: &str, role: Role, candidates: &[&str]) -> DispatchRule {
    DispatchRule { when: when.to_string(), role, candidates: candidates.iter().map(|c| c.to_string()).collect() }
}

#[test]
fn dispatch_rules_need_a_mapped_role_or_usable_profiles() {
    let profiles = ConfiguredProfiles::from_entries(vec![RoleEntry {
        role: Role::Build,
        profiles: vec![ProfileSpec {
            profile: "fast".to_string(),
            harness: "h".to_string(),
            model: "m".to_string(),
            effort: "e".to_string(),
            account: String::new(),
        }],
    }])
    .unwrap();
    assert!(check_dispatch_rules(&[rule("bugs", Role::Build, &[]), rule("docs", Role::Plan, &["fast"])], &profiles, &settings()).is_ok());
    let error = check_dispatch_rules(&[rule("plans", Role::Plan, &[])], &profiles, &settings()).unwrap_err();
    assert!(matches!(error, Error::Config(ref m) if m == "dispatch rule `plans` has no candidates and its role has no [profiles] mapping"));
    let error = check_dispatch_rules(&[rule("docs", Role::Plan, &["fast", "slow"])], &profiles, &settings()).unwrap_err();
    assert!(matches!(error, Error::Config(ref m) if m == "profile `slow` is not defined in machine-local settings"));
}

#[test]
fn refusals_name_what_to_do() {
    assert!(matches!(refusal_error(DispatchRefusal::NoMatchingRule), Error::Config(ref m) if m == "dispatch refused: no matching rule; supply --role to override"));
    assert!(matches!(refusal_error(DispatchRefusal::UnmappedRole(Role::Review)), Error::Config(ref m) if m == "dispatch refused: unmapped role Review; configure [profiles]"));
}
