use depotd::store::{event_key, seed_number, task_id, task_id_number};

#[test]
fn event_keys_join_their_parts_with_colons() {
    assert_eq!(event_key(&["pr", "o/r", "12"]), "pr:o/r:12");
    assert_eq!(event_key(&["one"]), "one");
    assert_eq!(event_key(&[]), "");
}

#[test]
fn task_ids_read_back_their_numbers() {
    for n in [0, 1, 42, -5, i64::MAX, i64::MIN] {
        assert_eq!(task_id_number(&task_id(n)), Some(n));
    }
    assert_eq!(task_id(7), "t-7");
    assert_eq!(task_id_number("t-+3"), Some(3));
    assert_eq!(task_id_number("t-"), None);
    assert_eq!(task_id_number("x-3"), None);
    assert_eq!(task_id_number("t-9223372036854775808"), None);
}

#[test]
fn the_counter_starts_past_the_highest_task() {
    let ids = vec!["t-3".to_string(), "junk".to_string(), "t-11".to_string(), "t-2".to_string()];
    assert_eq!(seed_number(&ids), 12);
    assert_eq!(seed_number(&vec![]), 1);
    assert_eq!(seed_number(&vec!["t--4".to_string()]), -3);
}

use depotd::error::{database_failure, Error as StoreError};
use depotd::store::{retry_after, LOCK_RETRY_ATTEMPTS};

fn busy() -> StoreError {
    database_failure("database is locked".to_string(), 5)
}

#[test]
fn a_busy_error_is_lock_contention() {
    assert!(busy().is_lock_contention());
    assert!(!StoreError::NotFound("no".to_string()).is_lock_contention());
}

#[test]
fn locked_and_extended_busy_codes_are_contention_and_others_are_not() {
    assert!(database_failure("locked".to_string(), 6).is_lock_contention());
    assert!(database_failure("busy recovery".to_string(), 261).is_lock_contention());
    assert!(!database_failure("constraint".to_string(), 19).is_lock_contention());
}

#[test]
fn contention_is_retried_with_a_growing_backoff_until_the_last_try() {
    assert_eq!(retry_after(1, &busy()), Some(100));
    assert_eq!(retry_after(4, &busy()), Some(400));
    assert_eq!(retry_after(LOCK_RETRY_ATTEMPTS, &busy()), None);
    assert_eq!(retry_after(1, &StoreError::NotFound("no".to_string())), None);
}
