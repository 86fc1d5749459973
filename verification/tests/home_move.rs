use depotd::error::Error;
use depotd::home_move::{
    destination_for, entry_exists_refusal, legacy_lock_refusal, scope_pid,
    second_database_refusal, settings_refusal,
};

#[test]
fn legacy_entries_go_to_their_new_places() {
    assert_eq!(destination_for("depot.db"), "agni.db");
    assert_eq!(destination_for("depot.db-wal"), "agni.db-wal");
    assert_eq!(destination_for("depot.db-shm"), "agni.db-shm");
    assert_eq!(destination_for("github-token"), "secrets/github-token");
    assert_eq!(destination_for("typesafe-key"), "secrets/typesafe-key");
    assert_eq!(destination_for("depotd.lock"), "run/depotd.lock");
    assert_eq!(destination_for("depotd.scope.json"), "run/depotd.scope.json");
    assert_eq!(destination_for("depotd.stop"), "run/depotd.stop");
    assert_eq!(destination_for("depotd.log.1"), "run/depotd.log.1");
    assert_eq!(destination_for("projects"), "projects");
}

#[test]
fn refusals_say_what_to_do() {
    assert_eq!(
        second_database_refusal("/old/depot.db", "/new/agni.db"),
        Error::Home("cannot move /old/depot.db: /new/agni.db already holds records; merge them by hand, then run `depot store migrate` again".to_string())
    );
    assert_eq!(
        settings_refusal("/old/config.toml", "/new/config.toml"),
        Error::Home("cannot move /old/config.toml: /new/config.toml already holds settings; move them by hand, then run `depot store migrate` again".to_string())
    );
    assert_eq!(
        entry_exists_refusal("/old/x", "/new/x"),
        Error::Home("cannot move /old/x: /new/x already exists".to_string())
    );
    assert_eq!(
        legacy_lock_refusal("/old/depotd.lock", Some(42)),
        Error::Home("another depot daemon already holds /old/depotd.lock: pid 42; stop it, then run `depot store migrate` to move the old depot home into agni".to_string())
    );
    assert_eq!(
        legacy_lock_refusal("/old/depotd.lock", None),
        Error::Home("another depot daemon already holds /old/depotd.lock: the lock record names no daemon; stop it by hand, then run `depot store migrate`".to_string())
    );
    assert_eq!(scope_pid(0), None);
    assert_eq!(scope_pid(7), Some(7));
}
