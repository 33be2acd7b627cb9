use quorum_lock::diagnostics::Level;
use quorum_lock::drwmutex::{DRWMutex, Options};
use quorum_lock::lock_api::{LockApi, RemoteClient};
use quorum_lock::lock_args::LockArgs;
use quorum_lock::lock_service::LockService;
use quorum_lock::namespace_lock::{
    join_names, new_nslock, next_wait, plan_attempt, AttemptPlan, NsLock, NsLockError, NsLockKey, NsLockMap,
};

fn cluster(n: usize) -> Vec<LockApi> {
    (0..n)
        .map(|i| {
            if i == 0 {
                LockApi::Local(LockService::new(n))
            } else {
                LockApi::Remote(RemoteClient::new(format!("http://node{}:9000", i), LockService::new(n)))
            }
        })
        .collect()
}

fn names(v: &[&str]) -> Vec<String> {
    v.iter().map(|s| s.to_string()).collect()
}

fn opts(timeout: u64, retry_interval: u64) -> Options {
    Options { timeout, retry_interval }
}

#[test]
fn waits_follow_the_interval_and_end_at_the_timeout() {
    let o = opts(5000, 1000);
    assert_eq!(next_wait(&o, 0), Some(1000));
    assert_eq!(next_wait(&o, 4000), Some(1000));
    assert_eq!(next_wait(&o, 4001), Some(999));
    assert_eq!(next_wait(&o, 4999), Some(1));
    assert_eq!(next_wait(&o, 5000), None);
    assert_eq!(next_wait(&o, 7000), None);
    assert_eq!(next_wait(&opts(0, 1000), 0), None);
    assert_eq!(next_wait(&opts(10, 0), 0), Some(1));
    assert_eq!(next_wait(&opts(u64::MAX, u64::MAX), 1), Some(u64::MAX - 1));
}

#[test]
fn get_lock_gives_up_at_the_timeout() {
    let mut c = cluster(3);
    let mut map = NsLockMap::new(true);
    let holder = new_nslock(&mut map, "a".to_string(), "vol".to_string(), names(&["obj"]), 3);
    let waiter = NsLockKey::new("vol".to_string(), names(&["obj", "other"]));
    let k2 = new_nslock(&mut map, "b".to_string(), "vol".to_string(), names(&["obj", "other"]), 3);
    assert_eq!(map.get_lock(&holder, &mut c, &opts(5000, 1000)), Ok(true));
    assert_eq!(map.last_run(&holder), Some((1, 0)));
    assert_eq!(map.get_lock(&waiter, &mut c, &opts(5000, 1000)), Ok(false));
    assert_eq!(map.last_run(&k2), Some((6, 5000)));
    assert!(c.iter().all(|l| !l.is_locked("vol/other")));
    assert!(c.iter().all(|l| l.is_locked("vol/obj")));
    let d = map.take_diagnostics(&waiter);
    assert_eq!(d.len(), 7);
    assert!(d[..6].iter().all(|r| r.source == "drwmutex" && r.level == Level::Warn));
    assert_eq!(d[6].source, "namespace_lock");
    assert_eq!(d[6].level, Level::Error);
    assert_eq!(d[6].message, "lock not obtained before the time-out");
    assert_eq!(d[6].resource_set, names(&["vol/obj", "vol/other"]));
    assert_eq!(map.get_rlock(&waiter, &mut c, &opts(2500, 1000)), Ok(false));
    assert_eq!(map.last_run(&waiter), Some((4, 2500)));
    assert_eq!(map.get_lock(&waiter, &mut c, &opts(0, 1000)), Ok(false));
    assert_eq!(map.last_run(&waiter), Some((1, 0)));
    assert_eq!(map.get_lock(&waiter, &mut c, &opts(3, 0)), Ok(false));
    assert_eq!(map.last_run(&waiter), Some((4, 3)));
    assert_eq!(map.un_lock(&holder, &mut c), Ok(()));
    assert_eq!(map.get_lock(&waiter, &mut c, &opts(5000, 1000)), Ok(true));
    assert_eq!(map.last_run(&waiter), Some((1, 0)));
}

#[test]
fn un_lock_twice_is_harmless() {
    let mut c = cluster(3);
    let mut map = NsLockMap::new(true);
    let k = new_nslock(&mut map, "a".to_string(), "vol".to_string(), names(&["obj"]), 3);
    assert_eq!(map.un_lock(&k, &mut c), Err(NsLockError::NotLocked));
    assert_eq!(map.get_lock(&k, &mut c, &opts(5000, 1000)), Ok(true));
    assert_eq!(map.un_rlock(&k, &mut c), Err(NsLockError::NotLocked));
    assert_eq!(map.un_lock(&k, &mut c), Ok(()));
    let other = new_nslock(&mut map, "b".to_string(), "vol".to_string(), names(&["obj", "x"]), 3);
    assert_eq!(map.get_lock(&other, &mut c, &opts(5000, 1000)), Ok(true));
    assert_eq!(map.un_lock(&k, &mut c), Err(NsLockError::NotLocked));
    assert!(c.iter().all(|l| l.is_locked("vol/obj") && l.is_locked("vol/x")));
    assert_eq!(map.un_lock(&other, &mut c), Ok(()));
    assert!(c.iter().all(|l| !l.is_locked("vol/obj") && !l.is_locked("vol/x")));
    assert!(map.take_diagnostics(&k).is_empty());
}

#[test]
fn read_locks_through_the_map() {
    let mut c = cluster(3);
    let mut map = NsLockMap::new(true);
    let r1 = new_nslock(&mut map, "a".to_string(), "vol".to_string(), names(&["obj"]), 3);
    let r2 = new_nslock(&mut map, "b".to_string(), "vol".to_string(), names(&["obj", "y"]), 3);
    let w = new_nslock(&mut map, "c".to_string(), "vol".to_string(), names(&["z", "obj"]), 3);
    assert_eq!(map.get_rlock(&r1, &mut c, &opts(100, 10)), Ok(true));
    assert_eq!(map.get_rlock(&r2, &mut c, &opts(100, 10)), Ok(true));
    assert_eq!(map.get_lock(&w, &mut c, &opts(100, 10)), Ok(false));
    assert_eq!(map.last_run(&w), Some((11, 100)));
    assert_eq!(map.un_rlock(&r1, &mut c), Ok(()));
    assert_eq!(map.try_lock(&w, &mut c, true), Ok(false));
    assert_eq!(map.un_rlock(&r2, &mut c), Ok(()));
    assert_eq!(map.try_lock(&w, &mut c, true), Ok(true));
    assert_eq!(map.get_rlock(&r1, &mut c, &opts(0, 0)), Ok(false));
}

#[test]
fn the_map_counts_the_callers_of_a_lock() {
    let mut map = NsLockMap::new(false);
    assert!(!map.is_dist_err());
    let k = NsLockKey::new("vol".to_string(), names(&["a", "b"]));
    assert_eq!(k.volume(), "vol");
    assert_eq!(k.paths(), &names(&["a", "b"]));
    assert!(!map.contains(&k));
    assert_eq!(map.reference(&k), 0);
    assert!(!map.drop_lock(&k));
    let k1 = new_nslock(&mut map, "n".to_string(), "vol".to_string(), names(&["a", "b"]), 3);
    assert_eq!(map.reference(&k), 1);
    let _k2 = new_nslock(&mut map, "m".to_string(), "vol".to_string(), names(&["a", "b"]), 3);
    assert_eq!(map.reference(&k1), 2);
    let other = new_nslock(&mut map, "n".to_string(), "vol".to_string(), names(&["b", "a"]), 3);
    assert_eq!(map.reference(&other), 1);
    assert_eq!(map.reference(&k), 2);
    assert!(map.drop_lock(&k));
    assert!(map.contains(&k));
    assert_eq!(map.reference(&k), 1);
    assert!(map.drop_lock(&k));
    assert!(!map.contains(&k));
    assert!(!map.drop_lock(&k));
    assert!(map.contains(&other));
    let mut c = cluster(3);
    assert_eq!(map.get_lock(&k, &mut c, &opts(10, 1)), Err(NsLockError::UnknownLock));
    assert_eq!(map.un_lock(&k, &mut c), Err(NsLockError::UnknownLock));
    assert_eq!(map.try_lock(&k, &mut c, false), Err(NsLockError::UnknownLock));
    assert_eq!(map.last_run(&k), None);
    assert!(!map.give_up(&k));
    assert!(map.take_diagnostics(&k).is_empty());
}

#[test]
fn a_shared_lock_keeps_its_state_between_callers() {
    let mut c = cluster(1);
    let mut map = NsLockMap::new(true);
    let k1 = new_nslock(&mut map, "n".to_string(), "vol".to_string(), names(&["a"]), 1);
    assert_eq!(map.get_lock(&k1, &mut c, &opts(10, 1)), Ok(true));
    let k2 = new_nslock(&mut map, "n".to_string(), "vol".to_string(), names(&["a"]), 1);
    assert_eq!(map.get_lock(&k2, &mut c, &opts(2, 1)), Ok(false));
    assert!(map.drop_lock(&k2));
    assert_eq!(map.un_lock(&k1, &mut c), Ok(()));
    assert!(map.drop_lock(&k1));
    assert!(!c[0].is_locked("vol/a"));
}

#[test]
fn locks_of_one_owner_are_told_apart() {
    let mut c = cluster(1);
    let mut map = NsLockMap::new(true);
    let k1 = new_nslock(&mut map, "n".to_string(), "vol".to_string(), names(&["a"]), 1);
    let k2 = new_nslock(&mut map, "n".to_string(), "vol".to_string(), names(&["b"]), 1);
    assert_eq!(map.get_lock(&k1, &mut c, &opts(10, 1)), Ok(true));
    assert_eq!(map.get_lock(&k2, &mut c, &opts(10, 1)), Ok(true));
    let first = LockArgs::new("n:0-0".to_string(), names(&["vol/a"]), "n".to_string(), String::new(), 1);
    let second = LockArgs::new("n:1-0".to_string(), names(&["vol/b"]), "n".to_string(), String::new(), 1);
    assert_eq!(c[0].refresh(&first), Ok(true));
    assert_eq!(c[0].refresh(&second), Ok(true));
    assert_eq!(map.un_lock(&k1, &mut c), Ok(()));
    assert_eq!(c[0].refresh(&first), Ok(false));
    assert_eq!(c[0].refresh(&second), Ok(true));
}

#[test]
fn unreachable_quorum_is_an_error_where_the_map_says_so() {
    let mut c = cluster(3);
    c[1].set_online(false);
    c[2].set_online(false);
    let mut map = NsLockMap::new(true);
    let k = new_nslock(&mut map, "n".to_string(), "vol".to_string(), names(&["a"]), 3);
    assert_eq!(map.get_lock(&k, &mut c, &opts(5000, 1000)), Err(NsLockError::QuorumUnreachable));
    assert_eq!(map.try_lock(&k, &mut c, false), Err(NsLockError::QuorumUnreachable));
    assert_eq!(map.last_run(&k), Some((0, 0)));
    assert!(!c[0].is_locked("vol/a"));
    assert!(map.take_diagnostics(&k).is_empty());
    c[1].set_online(true);
    assert_eq!(map.get_lock(&k, &mut c, &opts(5000, 1000)), Ok(true));
}

#[test]
fn unreachable_quorum_degrades_to_the_node_itself() {
    let mut c = cluster(3);
    c[1].set_online(false);
    c[2].set_online(false);
    let mut map = NsLockMap::new(false);
    let k = new_nslock(&mut map, "n".to_string(), "vol".to_string(), names(&["a"]), 3);
    let k2 = new_nslock(&mut map, "m".to_string(), "vol".to_string(), names(&["a", "b"]), 3);
    assert_eq!(map.get_lock(&k, &mut c, &opts(5000, 1000)), Ok(true));
    assert!(c[0].is_locked("vol/a"));
    assert!(!c[1].is_locked("vol/a"));
    assert_eq!(map.get_lock(&k2, &mut c, &opts(3000, 1000)), Ok(false));
    assert_eq!(map.last_run(&k2), Some((4, 3000)));
    assert!(!c[0].is_locked("vol/b"));
    assert_eq!(map.un_lock(&k, &mut c), Ok(()));
    assert!(!c[0].is_locked("vol/a"));
    assert_eq!(map.get_rlock(&k2, &mut c, &opts(3000, 1000)), Ok(true));
}

#[test]
fn a_lock_without_resources_is_refused() {
    let mut c = cluster(1);
    let mut map = NsLockMap::new(true);
    let k = new_nslock(&mut map, "n".to_string(), "vol".to_string(), Vec::new(), 1);
    assert_eq!(map.get_lock(&k, &mut c, &opts(10, 1)), Err(NsLockError::EmptyResources));
    assert_eq!(map.get_rlock(&k, &mut c, &opts(10, 1)), Err(NsLockError::EmptyResources));
    assert_eq!(map.un_lock(&k, &mut c), Err(NsLockError::NotLocked));
}

#[test]
fn a_namespace_lock_by_itself() {
    let mut c = cluster(3);
    let m = DRWMutex::new("n".to_string(), "n:7".to_string(), join_names(&"vol".to_string(), &names(&["a", "b"])), 3, 2);
    let mut l = NsLock::new(m, true);
    assert_eq!(l.mutex().names(), &names(&["vol/a", "vol/b"]));
    assert!(!l.is_held(true));
    assert_eq!(l.try_lock(&mut c, true), Ok(true));
    assert!(l.is_held(true));
    assert_eq!(l.get_lock(&mut c, &opts(2, 1)), Ok(false));
    assert_eq!((l.attempts(), l.waited()), (3, 2));
    let d = l.take_diagnostics();
    assert_eq!(d.len(), 1);
    assert_eq!(d[0].source, "namespace_lock");
    l.give_up();
    assert_eq!(l.take_diagnostics().len(), 1);
    assert_eq!(l.get_rlock(&mut c, &opts(2, 1)), Ok(false));
    assert_eq!(l.un_rlock(&mut c), Err(NsLockError::NotLocked));
    assert_eq!(l.un_lock(&mut c), Ok(()));
    assert_eq!(l.un_lock(&mut c), Err(NsLockError::NotLocked));
    assert_eq!(l.get_rlock(&mut c, &opts(2, 1)), Ok(true));
    assert_eq!(l.un_rlock(&mut c), Ok(()));
}

#[test]
fn names_are_joined_with_the_volume() {
    assert_eq!(join_names(&"dandan".to_string(), &names(&["foo"])), names(&["dandan/foo"]));
    assert_eq!(join_names(&"".to_string(), &names(&["", "a/b"])), names(&["/", "/a/b"]));
    assert!(join_names(&"v".to_string(), &Vec::new()).is_empty());
}

#[test]
fn whom_an_attempt_asks() {
    assert_eq!(plan_attempt(0, 5, 3, true), Err(NsLockError::EmptyResources));
    assert_eq!(plan_attempt(0, 0, 3, false), Err(NsLockError::EmptyResources));
    assert_eq!(plan_attempt(1, 3, 3, true), Ok(AttemptPlan::Cluster));
    assert_eq!(plan_attempt(1, 5, 3, false), Ok(AttemptPlan::Cluster));
    assert_eq!(plan_attempt(2, 2, 3, true), Err(NsLockError::QuorumUnreachable));
    assert_eq!(plan_attempt(2, 2, 3, false), Ok(AttemptPlan::LocalOnly));
    assert_eq!(plan_attempt(1, 0, 0, true), Ok(AttemptPlan::Cluster));
}
