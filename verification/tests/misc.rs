use depotd::build_info::version_line;
use depotd::checklist::{civil_from_days, format_age, format_timestamp, one_line};
use depotd::config::{
    config_path_in, validated_rules, DispatchRule, PullRequestConfig, QuestionsConfig,
    ValidationConfig,
};
use depotd::names::Role;
use depotd::documents::document_path;
use depotd::error::Error;
use depotd::home::DepotHome;
use depotd::paths::{join_path, path_file_name, path_parent};
use depotd::project::LocationKind;
use depotd::project_file::{choose_base, confirm_base, default_branch_from, missing_message, BaseChoice};
use depotd::records::Timestamp;

#[test]
fn paths_join_like_path_buf() {
    assert_eq!(join_path("/a", "b"), "/a/b");
    assert_eq!(join_path("/a/", "b"), "/a/b");
    assert_eq!(join_path("/a", "/b"), "/b");
    assert_eq!(join_path("", "b"), "b");
    assert_eq!(path_file_name("/a/b.txt"), Some("b.txt".to_string()));
    assert_eq!(path_file_name("/"), None);
    assert_eq!(path_parent("/a/b"), Some("/a".to_string()));
}

#[test]
fn location_kinds_read_back_from_their_names() {
    for kind in [LocationKind::Path, LocationKind::Url] {
        assert_eq!(LocationKind::from_name(kind.name()), Ok(kind));
    }
    assert_eq!(
        LocationKind::from_name("ftp"),
        Err(Error::Schema("unknown project location kind `ftp`".to_string()))
    );
}

#[test]
fn project_configuration_defaults() {
    assert_eq!(ValidationConfig::default().command, "");
    let pr = PullRequestConfig::default();
    assert_eq!(pr.base, "main");
    assert!(!pr.auto_merge);
    assert!(!QuestionsConfig::default().always_relay);
    assert_eq!(config_path_in("/repo"), "/repo/.depot.toml");
}

#[test]
fn the_base_branch_follows_the_project_file() {
    assert_eq!(default_branch_from(" origin/main\n"), Ok("main".to_string()));
    assert_eq!(
        default_branch_from("main"),
        Err(Error::Project("origin/HEAD points nowhere".to_string()))
    );
    assert_eq!(
        default_branch_from("origin/"),
        Err(Error::Project("origin/HEAD points nowhere".to_string()))
    );
    assert_eq!(choose_base("main", " main "), Ok(BaseChoice::Default));
    assert_eq!(choose_base("main", "dev"), Ok(BaseChoice::Follow("dev".to_string())));
    assert_eq!(
        choose_base("main", "  "),
        Err(Error::Config("`.agni/project.toml` at `origin/main` names no base_branch".to_string()))
    );
    assert_eq!(confirm_base("main", "dev", "dev"), Ok(()));
    assert_eq!(
        confirm_base("main", "dev", "other"),
        Err(Error::Config("`.agni/project.toml` names base_branch `other` on `origin/dev` but `dev` on `origin/main`; refusing to follow the disagreement".to_string()))
    );
    assert!(missing_message().starts_with("the base branch has no `.agni/project.toml`; commit it with `base_branch`"));
}

#[test]
fn ages_and_times_read_as_people_write_them() {
    assert_eq!(format_age(59_999), "59s");
    assert_eq!(format_age(60_000), "1m");
    assert_eq!(format_age(3_600_000 + 5 * 60_000), "1h05m");
    assert_eq!(format_timestamp(Timestamp::from_millis(0)), "1970-01-01T00:00:00Z");
    assert_eq!(
        format_timestamp(Timestamp::from_millis(1_709_251_199_000)),
        "2024-02-29T23:59:59Z"
    );
    assert_eq!(civil_from_days(0), (1970, 1, 1));
    assert_eq!(civil_from_days(-1), (1969, 12, 31));
    assert_eq!(civil_from_days(11_016), (2000, 2, 29));
    assert_eq!(one_line("  a\nb\tc  "), "a b c");
}

#[test]
fn documents_stay_inside_the_store() {
    let project = DepotHome::at("/h".to_string()).project_home("web");
    assert_eq!(document_path(&project, " notes/plan.md "), Ok("/h/projects/web/docs/notes/plan.md".to_string()));
    assert_eq!(
        document_path(&project, "  "),
        Err(Error::Project("a document needs a name".to_string()))
    );
    assert_eq!(
        document_path(&project, "../x"),
        Err(Error::Project("`../x` is not a document name inside the store: name a file under `/h/projects/web/docs`".to_string()))
    );
    assert!(document_path(&project, "/etc/passwd").is_err());
    assert!(document_path(&project, "./x").is_err());
}

#[test]
fn errors_carry_their_message() {
    assert_eq!(Error::Template("x".to_string()).message(), "template error: x");
    assert_eq!(Error::Schema("y".to_string()).message(), "store schema error: y");
    assert_eq!(
        Error::Database { message: "busy".to_string(), lock_contention: true }.message(),
        "database error: busy"
    );
    assert!(Error::Database { message: String::new(), lock_contention: true }.is_lock_contention());
    assert!(!Error::Io(String::new()).is_lock_contention());
    assert!(Error::Config(String::new()).is_task_fatal());
    assert!(Error::Template(String::new()).is_task_fatal());
    assert!(!Error::Project(String::new()).is_task_fatal());
    assert!(Error::Project(String::new()).is_project());
    assert_eq!(version_line("depotd", "0.1.0", "abc"), "depotd 0.1.0 (build abc)");
}

fn rule(when: &str, role: &str, candidates: &[&str]) -> depotd::config::DispatchRuleConfig {
    depotd::config::DispatchRuleConfig {
        when: when.to_string(),
        role: role.to_string(),
        candidates: candidates.iter().map(|c| c.to_string()).collect(),
    }
}

#[test]
fn dispatch_rules_are_validated_in_order() {
    assert_eq!(
        validated_rules(true, &vec![rule("touches docs", "build", &["fast"]), rule("a review", "review", &[])]),
        Ok(vec![
            DispatchRule { when: "touches docs".to_string(), role: Role::Build, candidates: vec!["fast".to_string()] },
            DispatchRule { when: "a review".to_string(), role: Role::Review, candidates: vec![] },
        ])
    );
    assert_eq!(
        validated_rules(false, &vec![]),
        Err(Error::Config(".depot.toml dispatch.confidence_floor must be between 0 and 1".to_string()))
    );
    assert_eq!(
        validated_rules(true, &vec![]),
        Err(Error::Config(".depot.toml dispatch.rules is empty; configure at least one rule or supply --role".to_string()))
    );
    let unique = Err(Error::Config(".depot.toml dispatch.rules requires unique, nonempty when strings distinct from the neutral option".to_string()));
    assert_eq!(validated_rules(true, &vec![rule("x", "build", &[]), rule("x", "fix", &[])]), unique);
    assert_eq!(validated_rules(true, &vec![rule("  ", "build", &[])]), unique);
    assert_eq!(
        validated_rules(true, &vec![rule(depotd::adapters::typesafe::NO_MATCH, "build", &[])]),
        unique
    );
    assert_eq!(
        validated_rules(true, &vec![rule("x", "deploy", &[])]),
        Err(Error::Config("unknown dispatch rule role `deploy` in .depot.toml".to_string()))
    );
    assert_eq!(
        validated_rules(true, &vec![rule("x", "plan", &["a", " "])]),
        Err(Error::Config(".depot.toml dispatch rule contains an empty candidate profile".to_string()))
    );
}
