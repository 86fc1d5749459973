use depotd::error::Error;
use depotd::home::{slug_for, DepotHome};

#[test]
fn slugs_come_from_the_last_path_component() {
    assert_eq!(slug_for("github.com/Acme/Web-App.git"), "web-app");
    assert_eq!(slug_for("git@github.com:acme/api.git"), "api");
    assert_eq!(slug_for("/srv/My Project//"), "my-project");
    assert_eq!(slug_for("/"), "project");
    assert_eq!(slug_for("--__--"), "project");
    assert_eq!(slug_for(&"a".repeat(80)).len(), 64);
}

#[test]
fn the_home_lays_out_its_files() {
    let home = DepotHome::at("/h/.agni".to_string());
    assert_eq!(home.root(), "/h/.agni");
    assert_eq!(home.config_path(), "/h/.agni/config.toml");
    assert_eq!(home.database_path(), "/h/.agni/agni.db");
    assert_eq!(home.run_path("depotd.lock"), "/h/.agni/run/depotd.lock");
    assert_eq!(home.project_root("web"), "/h/.agni/projects/web");
    let project = home.project_home("web");
    assert_eq!(project.checklist_path(), "/h/.agni/projects/web/checklist.md");
    assert_eq!(project.context_document_path(), "/h/.agni/projects/web/docs/context.md");
    assert_eq!(home.legacy_sibling().map(|h| h.root().to_string()), Some("/h/.depot".to_string()));
    assert!(DepotHome::at("/h/other".to_string()).legacy_sibling().is_none());
}

#[test]
fn the_home_is_named_by_the_environment() {
    let home = DepotHome::resolve_for_migrate(Some("/custom"), Some("/u")).unwrap();
    assert_eq!(home.root(), "/custom");
    let home = DepotHome::resolve_for_migrate(Some(""), Some("/u")).unwrap();
    assert_eq!(home.root(), "/u/.agni");
    assert_eq!(
        DepotHome::resolve_for_migrate(None, None).map(|h| h.root().to_string()),
        Err(Error::Home("cannot locate the agni home: set AGNI_HOME to the directory depot should use".to_string()))
    );
}

#[test]
fn an_unmoved_legacy_home_is_refused() {
    assert!(DepotHome::resolve(None, Some("/u"), true, true).is_ok());
    assert!(DepotHome::resolve(None, Some("/u"), false, false).is_ok());
    assert_eq!(
        DepotHome::resolve(None, Some("/u"), false, true).map(|h| h.root().to_string()),
        Err(Error::Home("the old depot home /u/.depot has not been moved into the agni home /u/.agni; run `depot store migrate` to move it".to_string()))
    );
}

#[test]
fn a_slug_is_a_safe_path_component() {
    for identity in ["..", ".", "/a/../", "a/b/.git", "x:..", "--A--b--", "日本", "", "github.com/o/r.git.git"] {
        let slug = slug_for(identity);
        assert!(!slug.is_empty() && slug.len() <= 64, "{identity:?} -> {slug:?}");
        assert!(slug.chars().all(|c| c.is_ascii_lowercase() || c.is_ascii_digit() || c == '-'), "{slug}");
        assert!(!slug.starts_with('-') && !slug.ends_with('-'), "{slug}");
    }
}

#[test]
fn an_unmoved_home_is_refused_with_the_command_that_moves_it() {
    match DepotHome::resolve(None, Some("/u"), false, true) {
        Err(depotd::error::Error::Home(message)) => assert_eq!(
            message,
            "the old depot home /u/.depot has not been moved into the agni home /u/.agni; run `depot store migrate` to move it"
        ),
        other => panic!("expected a home refusal, got {other:?}"),
    }
    assert!(matches!(
        DepotHome::resolve(None, None, false, false),
        Err(depotd::error::Error::Home(ref m)) if m.contains("to the directory depot should use")
    ));
}
