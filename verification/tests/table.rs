use quorum_lock::local_locker::LocalLocker;
use quorum_lock::lock_args::LockArgs;
use quorum_lock::quorum::{check_quorum, count_grants, majority};
use quorum_lock::text::to_decimal;

fn args(uid: &str, owner: &str, resources: &[&str]) -> LockArgs {
    LockArgs::new(
        uid.to_string(),
        resources.iter().map(|s| s.to_string()).collect(),
        owner.to_string(),
        String::new(),
        1,
    )
}

#[test]
fn write_lock_needs_the_resource_unlocked() {
    let mut t = LocalLocker::new();
    assert!(!t.is_locked("a"));
    assert!(t.lock("a", "u1", "n1", true));
    assert!(t.is_locked("a"));
    assert!(!t.lock("a", "u2", "n2", true));
    assert!(!t.lock("a", "u2", "n2", false));
    assert!(!t.lock("a", "u1", "n1", true));
    assert!(t.lock("b", "u2", "n2", true));
}

#[test]
fn read_locks_are_shared_and_counted() {
    let mut t = LocalLocker::new();
    assert!(t.lock("a", "u1", "n1", false));
    assert!(t.lock("a", "u2", "n2", false));
    assert!(t.lock("a", "u3", "n3", false));
    assert!(!t.lock("a", "u4", "n4", true));
    assert!(t.unlock("a", "u2", "n2", false));
    assert!(t.is_locked("a"));
    assert!(t.unlock("a", "u1", "n1", false));
    assert!(t.is_locked("a"));
    assert!(!t.lock("a", "u4", "n4", true));
    assert!(t.unlock("a", "u3", "n3", false));
    assert!(!t.is_locked("a"));
    assert!(t.lock("a", "u4", "n4", true));
}

#[test]
fn unlock_by_a_stranger_fails_and_changes_nothing() {
    let mut t = LocalLocker::new();
    assert!(t.lock("a", "u1", "n1", true));
    assert!(!t.unlock("a", "u2", "n2", true));
    assert!(!t.unlock("a", "u1", "n2", true));
    assert!(!t.unlock("a", "u1", "n1", false));
    assert!(!t.unlock("b", "u1", "n1", true));
    assert!(t.is_locked("a"));
    assert!(t.refresh("u1"));
    assert!(t.unlock("a", "u1", "n1", true));
    assert!(!t.is_locked("a"));
    assert!(!t.unlock("a", "u1", "n1", true));
}

#[test]
fn the_same_reader_twice_is_counted_twice() {
    let mut t = LocalLocker::new();
    assert!(t.lock("a", "u1", "n1", false));
    assert!(t.lock("a", "u1", "n1", false));
    assert!(t.unlock("a", "u1", "n1", false));
    assert!(t.is_locked("a"));
    assert!(t.unlock("a", "u1", "n1", false));
    assert!(!t.is_locked("a"));
}

#[test]
fn force_unlock_clears_whoever_holds() {
    let mut t = LocalLocker::new();
    assert!(!t.force_unlock("a"));
    assert!(t.lock("a", "u1", "n1", false));
    assert!(t.lock("a", "u2", "n2", false));
    assert!(t.force_unlock("a"));
    assert!(!t.is_locked("a"));
    assert!(!t.refresh("u1"));
    assert!(!t.refresh("u2"));
}

#[test]
fn refresh_finds_a_lock_by_its_request_id() {
    let mut t = LocalLocker::new();
    assert!(!t.refresh("u1"));
    assert!(t.lock("a", "u1", "n1", true));
    assert!(t.lock("b", "u2", "n1", false));
    assert!(t.refresh("u1"));
    assert!(t.refresh("u2"));
    assert!(!t.refresh("u3"));
    assert!(!t.refresh(""));
    assert!(t.unlock("a", "u1", "n1", true));
    assert!(!t.refresh("u1"));
}

#[test]
fn a_request_is_granted_as_a_whole_or_not_at_all() {
    let mut t = LocalLocker::new();
    assert!(t.lock("b", "other", "n9", true));
    assert!(!t.lock_all(&args("u1", "n1", &["a", "b", "c"]), true));
    assert!(!t.is_locked("a"));
    assert!(!t.is_locked("c"));
    assert!(t.lock_all(&args("u1", "n1", &["a", "c"]), true));
    assert!(t.is_locked("a"));
    assert!(t.is_locked("c"));
    assert!(t.unlock_all(&args("u1", "n1", &["a", "c"]), true));
    assert!(!t.is_locked("a"));
    assert!(!t.is_locked("c"));
    assert!(t.is_locked("b"));
}

#[test]
fn a_resource_named_twice_is_granted_once() {
    let mut t = LocalLocker::new();
    assert!(t.lock_all(&args("u1", "n1", &["a", "a"]), true));
    assert!(t.unlock_all(&args("u1", "n1", &["a", "a"]), true));
    assert!(!t.is_locked("a"));
    assert!(t.lock_all(&args("u1", "n1", &["a", "b", "a"]), false));
    assert!(t.unlock("a", "u1", "n1", false));
    assert!(!t.is_locked("a"));
    assert!(t.is_locked("b"));
}

#[test]
fn unlock_all_releases_what_is_held_and_says_whether_any_was() {
    let mut t = LocalLocker::new();
    assert!(!t.unlock_all(&args("u1", "n1", &["a", "b"]), true));
    assert!(t.lock("a", "u1", "n1", true));
    assert!(t.lock("b", "u2", "n2", true));
    assert!(t.unlock_all(&args("u1", "n1", &["a", "b"]), true));
    assert!(!t.is_locked("a"));
    assert!(t.is_locked("b"));
    assert!(!t.unlock_all(&args("u1", "n1", &["a", "b"]), true));
}

#[test]
fn force_unlock_all_clears_every_resource_of_the_request() {
    let mut t = LocalLocker::new();
    assert!(!t.force_unlock_all(&args("", "", &["a", "b"])));
    assert!(t.lock("a", "u1", "n1", true));
    assert!(t.lock("b", "u2", "n2", false));
    assert!(t.lock("c", "u3", "n3", true));
    assert!(t.force_unlock_all(&args("", "", &["a", "b", "a"])));
    assert!(!t.is_locked("a"));
    assert!(!t.is_locked("b"));
    assert!(t.is_locked("c"));
}

#[test]
fn an_empty_request_is_granted_and_changes_nothing() {
    let mut t = LocalLocker::new();
    assert!(t.lock_all(&args("u1", "n1", &[]), true));
    assert!(!t.unlock_all(&args("u1", "n1", &[]), true));
    assert!(!t.refresh("u1"));
}

#[test]
fn lock_args_validity() {
    let a = args("u", "o", &["r"]);
    assert!(a.is_valid_for(1));
    assert!(a.is_valid_for(7));
    assert!(!a.is_valid_for(0));
    assert!(!args("u", "o", &[]).is_valid_for(3));
}

#[test]
fn majority_is_more_than_half() {
    assert_eq!(majority(0), 1);
    assert_eq!(majority(1), 1);
    assert_eq!(majority(2), 2);
    assert_eq!(majority(3), 2);
    assert_eq!(majority(4), 3);
    assert_eq!(majority(5), 3);
    assert_eq!(majority(16), 9);
}

#[test]
fn grants_are_counted_against_the_quorum() {
    let answers = vec![true, false, true, true, false];
    assert_eq!(count_grants(&answers), 3);
    assert!(check_quorum(&answers, 3));
    assert!(!check_quorum(&answers, 4));
    assert!(check_quorum(&answers, 0));
    assert_eq!(count_grants(&Vec::new()), 0);
    assert!(check_quorum(&Vec::new(), 0));
    assert!(!check_quorum(&Vec::new(), 1));
}

#[test]
fn numbers_in_decimal() {
    assert_eq!(to_decimal(0), "0");
    assert_eq!(to_decimal(7), "7");
    assert_eq!(to_decimal(10), "10");
    assert_eq!(to_decimal(9000), "9000");
    assert_eq!(to_decimal(u64::MAX), "18446744073709551615");
}
