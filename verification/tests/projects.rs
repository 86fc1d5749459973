use depotd::error::Error;
use depotd::projects::{
    build_mismatch_banner, is_url, no_project_matches, render_projects,
    unmatched_directory_message, ListedClone, ListedProfile, ListedProject, NO_DAEMON_NOTE,
};

#[test]
fn remotes_are_told_from_paths() {
    assert!(is_url("https://github.com/o/r"));
    assert!(is_url("git@github.com:o/r.git"));
    assert!(!is_url("/srv/repo"));
    assert!(!is_url("./a:b"));
    assert!(!is_url("git@host:"));
    assert!(!is_url("C:\\repo"));
}

#[test]
fn unmatched_names_and_directories_say_what_exists() {
    assert_eq!(
        no_project_matches("web"),
        Error::NotFound("no project matches `web`: list them with `depot status --all`".to_string())
    );
    assert_eq!(
        unmatched_directory_message(&vec![]),
        "no project matches this directory: no projects are registered; name one with `--project` after `depot project add`, or pass `--all`"
    );
    assert_eq!(
        unmatched_directory_message(&vec!["a".to_string(), "b".to_string()]),
        "no project matches this directory: registered projects are `a`, `b`; run from the project repository or its store, name one with `--project`, or pass `--all`"
    );
}

#[test]
fn the_build_banner_names_both_commits() {
    assert_eq!(
        build_mismatch_banner(12, "abc", "def"),
        "the running depotd (pid 12) was built from commit abc, but this depot is built from def: restart it with `depot daemon restart`\n\n"
    );
    assert_eq!(NO_DAEMON_NOTE, "no daemon is driving this project\n\n");
}

#[test]
fn projects_are_listed_in_blocks() {
    assert_eq!(render_projects(&vec![]), "No projects registered.\n");
    let projects = vec![
        ListedProject {
            slug: "web".to_string(),
            identity: "github.com/o/web".to_string(),
            clones: vec![
                ListedClone { path: "/w".to_string(), origin: Some("git@github.com:o/web".to_string()) },
                ListedClone { path: "/x".to_string(), origin: None },
            ],
            profiles: vec![
                ListedProfile { role: "worker".to_string(), profile: "fast".to_string(), defined: true },
                ListedProfile { role: "tester".to_string(), profile: "deep".to_string(), defined: false },
            ],
        },
        ListedProject {
            slug: "api".to_string(),
            identity: "/srv/api".to_string(),
            clones: vec![],
            profiles: vec![],
        },
    ];
    assert_eq!(
        render_projects(&projects),
        "web\n  identity: github.com/o/web\n  path: /w (git@github.com:o/web)\n  path: /x (local-only, no origin)\n  profiles: worker=fast tester=deep (not defined in machine-local settings)\n\
         \napi\n  identity: /srv/api\n  url: no local clone\n  profiles: none are mapped in .depot.toml\n"
    );
}
