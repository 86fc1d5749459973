use depotd::identity::{canonical_target, identity_for};

#[test]
fn the_origin_identity_wins_then_the_canonical_directory() {
    assert_eq!(identity_for("/w", Some("github.com/o/r"), Some("/real/w")), "github.com/o/r");
    assert_eq!(identity_for("/w", None, Some("/real/w")), "/real/w");
    assert_eq!(identity_for("/w", None, None), "/w");
}

#[test]
fn a_file_url_names_its_path() {
    assert_eq!(canonical_target("file:///srv/repo"), "/srv/repo");
    assert_eq!(canonical_target("/srv/repo"), "/srv/repo");
    assert_eq!(canonical_target("file:/x"), "file:/x");
}
