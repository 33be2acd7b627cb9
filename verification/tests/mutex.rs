use quorum_lock::diagnostics::Level;
use quorum_lock::drwmutex::{grants_of, owed_releases, silent_of, DRWMutex};
use quorum_lock::lock_api::{LockApi, RemoteClient};
use quorum_lock::lock_args::LockArgs;
use quorum_lock::lock_service::{LockError, LockService};

fn cluster(n: usize) -> Vec<LockApi> {
    (0..n)
        .map(|i| {
            if i == 0 {
                LockApi::Local(LockService::new(n))
            } else {
                LockApi::Remote(RemoteClient::new(format!("http://node{}:9000", i), LockService::new(n)))
            }
        })
        .collect()
}

fn mutex(owner: &str, names: &[&str], lockers: usize, quorum: usize) -> DRWMutex {
    DRWMutex::new(
        owner.to_string(),
        format!("{}:0", owner),
        names.iter().map(|s| s.to_string()).collect(),
        lockers,
        quorum,
    )
}

fn locked_on(c: &Vec<LockApi>, resource: &str) -> Vec<bool> {
    c.iter().map(|l| l.is_locked(resource)).collect()
}

#[test]
fn quorum_boundary_three_of_five() {
    let mut c = cluster(5);
    c[3].set_online(false);
    c[4].set_online(false);
    let mut m = mutex("a", &["r"], 5, 3);
    assert!(m.try_acquire(&mut c, true));
    assert!(m.is_held(true));
    assert_eq!(m.held_lockers(true), vec![true, true, true, false, false]);
    assert_eq!(locked_on(&c, "r"), vec![true, true, true, false, false]);
    assert!(m.take_diagnostics().is_empty());
}

#[test]
fn quorum_boundary_two_of_five_fails_and_leaves_nothing() {
    let mut c = cluster(5);
    c[2].set_online(false);
    c[3].set_online(false);
    c[4].set_online(false);
    let mut m = mutex("a", &["r"], 5, 3);
    assert!(!m.try_acquire(&mut c, true));
    assert!(!m.is_held(true));
    assert!(m.held_lockers(true).is_empty());
    assert_eq!(locked_on(&c, "r"), vec![false; 5]);
    let d = m.take_diagnostics();
    assert_eq!(d.len(), 1);
    assert_eq!(d[0].level, Level::Warn);
    assert_eq!(d[0].source, "drwmutex");
    assert_eq!(d[0].message, "unable to acquire lock in quorum");
    assert_eq!(d[0].resource_set, vec!["r".to_string()]);
    assert_eq!(d[0].unanswered, 3);
    assert!(m.take_diagnostics().is_empty());
}

#[test]
fn contention_is_told_from_lockers_that_do_not_answer() {
    let mut c = cluster(3);
    let mut holder = mutex("a", &["r"], 3, 2);
    assert!(holder.try_acquire(&mut c, true));
    let mut m = mutex("b", &["r"], 3, 2);
    assert!(!m.try_acquire(&mut c, true));
    assert_eq!(m.take_diagnostics()[0].unanswered, 0);
    c[2].set_online(false);
    assert!(!m.try_acquire(&mut c, true));
    assert_eq!(m.take_diagnostics()[0].unanswered, 1);
    assert!(!m.try_acquire_local(&mut c, true));
    assert_eq!(m.take_diagnostics()[0].unanswered, 0);
}

#[test]
fn mutual_exclusion_until_release() {
    let mut c = cluster(3);
    let mut m1 = mutex("a", &["r", "s"], 3, 2);
    let mut m2 = mutex("b", &["s", "t"], 3, 2);
    assert!(m1.try_acquire(&mut c, true));
    assert!(!m2.try_acquire(&mut c, true));
    assert!(!m2.try_acquire(&mut c, false));
    assert_eq!(locked_on(&c, "t"), vec![false; 3]);
    assert!(!m1.try_acquire(&mut c, true));
    assert!(m1.release(&mut c, true));
    assert_eq!(locked_on(&c, "s"), vec![false; 3]);
    assert!(m2.try_acquire(&mut c, true));
    assert!(!m1.try_acquire(&mut c, true));
    assert_eq!(locked_on(&c, "r"), vec![false; 3]);
}

#[test]
fn readers_share_and_a_writer_waits_for_all_of_them() {
    let mut c = cluster(3);
    let mut readers: Vec<DRWMutex> = (0..4).map(|i| mutex(&format!("reader{}", i), &["r"], 3, 2)).collect();
    for m in readers.iter_mut() {
        assert!(m.try_acquire(&mut c, false));
    }
    let mut w = mutex("writer", &["r"], 3, 2);
    assert!(!w.try_acquire(&mut c, true));
    for m in readers.iter_mut().take(3) {
        assert!(m.release(&mut c, false));
        assert!(!w.try_acquire(&mut c, true));
    }
    assert!(readers[3].release(&mut c, false));
    assert!(w.try_acquire(&mut c, true));
    assert!(!readers[0].try_acquire(&mut c, false));
}

#[test]
fn a_failed_attempt_leaves_the_holds_of_others() {
    let mut c = cluster(3);
    let other = LockArgs::new("x-1".to_string(), vec!["r".to_string()], "x".to_string(), String::new(), 2);
    assert_eq!(c[1].lock(&other), Ok(true));
    assert_eq!(c[2].lock(&other), Ok(true));
    let reader = LockArgs::new("y-1".to_string(), vec!["r".to_string()], "y".to_string(), String::new(), 2);
    assert_eq!(c[2].rlock(&reader), Ok(false));
    let mut m = mutex("a", &["q", "r"], 3, 2);
    assert!(!m.try_acquire(&mut c, true));
    assert_eq!(locked_on(&c, "q"), vec![false; 3]);
    assert_eq!(locked_on(&c, "r"), vec![false, true, true]);
    assert_eq!(c[1].refresh(&other), Ok(true));
    assert_eq!(c[2].refresh(&other), Ok(true));
    assert_eq!(c[1].unlock(&other), Ok(true));
    assert!(m.try_acquire(&mut c, true));
    assert_eq!(locked_on(&c, "q"), vec![true, true, false]);
    assert_eq!(m.held_lockers(true), vec![true, true, false]);
}

#[test]
fn every_attempt_has_its_own_request_id() {
    let mut c = cluster(1);
    let mut m = mutex("a", &["r"], 1, 1);
    let a0 = m.attempt_args();
    assert_eq!(a0.uid, "a:0-0");
    assert_eq!(a0.owner, "a");
    assert_eq!(a0.resources, vec!["r".to_string()]);
    assert_eq!(a0.source, "");
    assert_eq!(a0.quorum, 1);
    assert!(m.release_args(true).is_none());
    assert!(m.try_acquire(&mut c, true));
    assert_eq!(m.release_args(true).unwrap().uid, "a:0-0");
    assert_eq!(m.attempt_args().uid, "a:0-1");
    assert_eq!(c[0].refresh(&a0), Ok(true));
    assert!(m.try_acquire(&mut c, false) == false);
    assert_eq!(m.attempt_args().uid, "a:0-2");
    assert!(m.release(&mut c, true));
    assert_eq!(c[0].refresh(&a0), Ok(false));
}

#[test]
fn release_is_idempotent() {
    let mut c = cluster(3);
    let mut m = mutex("a", &["r"], 3, 2);
    assert!(!m.release(&mut c, true));
    assert!(m.try_acquire(&mut c, true));
    assert!(!m.release(&mut c, false));
    assert!(m.release(&mut c, true));
    assert!(!m.is_held(true));
    let mut other = mutex("b", &["r"], 3, 2);
    assert!(other.try_acquire(&mut c, true));
    assert!(!m.release(&mut c, true));
    assert_eq!(locked_on(&c, "r"), vec![true; 3]);
    assert!(m.take_diagnostics().is_empty());
}

#[test]
fn release_goes_through_when_a_locker_is_gone() {
    let mut c = cluster(3);
    let mut m = mutex("a", &["r"], 3, 2);
    assert!(m.try_acquire(&mut c, true));
    c[2].set_online(false);
    assert!(m.release(&mut c, true));
    assert!(!m.is_held(true));
    assert_eq!(locked_on(&c, "r"), vec![false, false, true]);
    let d = m.take_diagnostics();
    assert_eq!(d.len(), 1);
    assert_eq!(d[0].message, "unable to release lock on every locker");
    assert_eq!(d[0].source, "drwmutex");
    assert_eq!(d[0].unanswered, 1);
}

#[test]
fn a_mutex_for_another_cluster_does_nothing() {
    let mut c = cluster(3);
    let mut m = mutex("a", &["r"], 5, 3);
    assert!(!m.try_acquire(&mut c, true));
    assert!(!m.release(&mut c, true));
    assert_eq!(locked_on(&c, "r"), vec![false; 3]);
    assert!(m.take_diagnostics().is_empty());
    assert_eq!(m.attempt_args().uid, "a:0-0");
    assert_eq!(m.lockers(), 5);
    assert_eq!(m.quorum(), 3);
    assert_eq!(m.names(), &vec!["r".to_string()]);
}

fn answers(v: &[u8]) -> Vec<Result<bool, LockError>> {
    v.iter()
        .map(|a| match *a {
            1 => Ok(true),
            0 => Ok(false),
            _ => Err(LockError::Timeout),
        })
        .collect()
}

#[test]
fn settling_from_answers() {
    let mut m = mutex("a", &["r"], 5, 3);
    assert!(!m.settle_acquire(true, &answers(&[1, 1, 0, 2, 2])));
    let d = m.take_diagnostics();
    assert_eq!(d.len(), 1);
    assert_eq!(d[0].unanswered, 2);
    assert!(!m.settle_acquire(true, &answers(&[1, 1, 1])));
    assert!(m.take_diagnostics().is_empty());
    assert!(m.settle_acquire(true, &answers(&[1, 2, 1, 0, 1])));
    assert!(m.take_diagnostics().is_empty());
    assert_eq!(m.held_lockers(true), vec![true, false, true, false, true]);
    assert_eq!(m.release_args(true).unwrap().uid, "a:0-1");
    assert!(!m.settle_acquire(true, &answers(&[1; 5])));
    assert!(m.settle_acquire(false, &answers(&[1; 5])));
    assert!(!m.settle_release(true, &answers(&[1; 4])));
    assert!(m.settle_release(true, &answers(&[1, 2, 0, 2, 2])));
    assert!(!m.is_held(true));
    let d = m.take_diagnostics();
    assert_eq!(d.len(), 1);
    assert_eq!(d[0].message, "unable to release lock on every locker");
    assert_eq!(d[0].unanswered, 1);
    assert!(m.settle_release(false, &answers(&[1; 5])));
    assert!(m.take_diagnostics().is_empty());
    assert!(!m.settle_release(false, &answers(&[1; 5])));
}

#[test]
fn settling_without_the_cluster() {
    let mut m = mutex("a", &["r"], 3, 2);
    let locals = vec![true, false, false];
    assert!(!m.settle_acquire_local(true, &answers(&[0, 1, 1]), &locals));
    assert_eq!(m.take_diagnostics()[0].unanswered, 0);
    assert!(!m.settle_acquire_local(true, &answers(&[2, 2, 2]), &locals));
    assert_eq!(m.take_diagnostics()[0].unanswered, 1);
    assert!(!m.settle_acquire_local(true, &answers(&[1, 1, 1]), &vec![false; 3]));
    assert!(!m.settle_acquire_local(true, &answers(&[1, 1, 1]), &vec![true; 2]));
    assert!(!m.settle_acquire_local(true, &answers(&[1, 0, 1]), &vec![true; 3]));
    assert_eq!(m.take_diagnostics().len(), 2);
    assert!(m.settle_acquire_local(true, &answers(&[1, 2, 0]), &locals));
    assert_eq!(m.held_lockers(true), vec![true, false, false]);
    assert!(m.take_diagnostics().is_empty());
}

#[test]
fn answers_as_grants_and_as_time_outs() {
    let a = answers(&[1, 0, 2, 1]);
    assert_eq!(grants_of(&a), vec![true, false, false, true]);
    assert_eq!(silent_of(&a), vec![false, false, true, false]);
    let other = vec![Err(LockError::QuorumUnreachable), Err(LockError::EmptyResources)];
    assert_eq!(grants_of(&other), vec![false, false]);
    assert_eq!(silent_of(&other), vec![false, false]);
    assert_eq!(owed_releases(&vec![true, false, false, true]), vec![0, 3]);
    assert!(owed_releases(&vec![false, false]).is_empty());
    assert!(owed_releases(&Vec::new()).is_empty());
    assert_eq!(owed_releases(&vec![true; 3]), vec![0, 1, 2]);
}

#[test]
fn local_only_attempt_asks_the_node_itself() {
    let mut c = cluster(3);
    c[1].set_online(false);
    c[2].set_online(false);
    let mut m = mutex("a", &["r"], 3, 2);
    assert!(!m.try_acquire(&mut c, true));
    assert!(m.try_acquire_local(&mut c, true));
    assert_eq!(m.held_lockers(true), vec![true, false, false]);
    assert_eq!(locked_on(&c, "r"), vec![true, false, false]);
    let mut other = mutex("b", &["r"], 3, 2);
    assert!(!other.try_acquire_local(&mut c, true));
    assert!(m.release(&mut c, true));
    assert!(other.try_acquire_local(&mut c, false));
    let mut peers: Vec<LockApi> = cluster(3).into_iter().skip(1).collect();
    let mut nobody = mutex("c", &["r"], 2, 2);
    assert!(!nobody.try_acquire_local(&mut peers, true));
    assert_eq!(locked_on(&peers, "r"), vec![false, false]);
}

#[test]
fn a_quorum_of_zero_is_always_reached() {
    let mut c = cluster(2);
    c[1].set_online(false);
    let holder = LockArgs::new("x".to_string(), vec!["r".to_string()], "x".to_string(), String::new(), 1);
    assert_eq!(c[0].lock(&holder), Ok(true));
    let mut m = mutex("a", &["r"], 2, 0);
    assert!(m.try_acquire(&mut c, true));
    assert_eq!(m.held_lockers(true), vec![false, false]);
    assert!(m.release(&mut c, true));
    assert_eq!(c[0].refresh(&holder), Ok(true));
}
