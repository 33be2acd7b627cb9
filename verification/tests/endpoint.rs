use quorum_lock::lock_api::{new_lock_api, peer_address, LockApi, RemoteClient};
use quorum_lock::lock_args::LockArgs;
use quorum_lock::lock_service::{refusal_message, GenerallyLockResponse, LockError, LockOp, LockService};

fn args(uid: &str, resources: &[&str], quorum: usize) -> LockArgs {
    LockArgs {
        uid: uid.to_string(),
        resources: resources.iter().map(|s| s.to_string()).collect(),
        owner: "node".to_string(),
        source: String::new(),
        quorum,
    }
}

#[test]
fn endpoint_rejects_a_request_without_resources() {
    let mut s = LockService::new(3);
    for op in [LockOp::Lock, LockOp::Unlock, LockOp::RLock, LockOp::RUnlock, LockOp::ForceUnlock, LockOp::Refresh] {
        assert_eq!(s.handle(op, &args("u", &[], 2)), Err(LockError::EmptyResources));
    }
    let resp = s.lock(&args("u", &[], 2));
    assert_eq!(resp.error_info.as_deref(), Some("invalid lock request: no resource named"));
}

#[test]
fn endpoint_rejects_a_quorum_beyond_the_cluster() {
    let mut s = LockService::new(2);
    assert_eq!(s.lockers(), 2);
    assert_eq!(s.handle(LockOp::Lock, &args("u", &["a"], 3)), Err(LockError::QuorumUnreachable));
    assert!(!s.is_locked("a"));
    assert_eq!(s.handle(LockOp::Lock, &args("u", &["a"], 2)), Ok(true));
    assert!(s.is_locked("a"));
    let resp = s.r_lock(&args("u", &["b"], 3));
    assert_eq!(
        resp.error_info.as_deref(),
        Some("quorum not reachable: the request asks for more grants than the cluster has lockers")
    );
}

#[test]
fn endpoint_answers_success_with_no_error_info() {
    let mut s = LockService::new(1);
    let a = args("u1", &["a"], 1);
    assert!(s.lock(&a).is_ok());
    assert!(s.refresh(&a).is_ok());
    assert!(s.un_lock(&a).is_ok());
    assert!(s.r_lock(&a).is_ok());
    assert!(s.r_un_lock(&a).is_ok());
    assert!(s.force_un_lock(&a).is_ok());
    assert!(!s.is_locked("a"));
}

#[test]
fn endpoint_gives_the_reason_of_a_refusal() {
    let mut s = LockService::new(1);
    let a = args("u1", &["a"], 1);
    let b = args("u2", &["a"], 1);
    assert_eq!(s.un_lock(&a).error_info.as_deref(), Some("can not unlock: no such write lock is held"));
    assert_eq!(s.r_un_lock(&a).error_info.as_deref(), Some("can not unlock: no such read lock is held"));
    assert_eq!(s.refresh(&a).error_info.as_deref(), Some("lock not found"));
    assert!(s.lock(&a).is_ok());
    assert_eq!(s.lock(&b).error_info.as_deref(), Some("can not get lock: resource is held"));
    assert_eq!(
        s.r_lock(&b).error_info.as_deref(),
        Some("can not get read lock: resource is held for writing")
    );
    assert!(s.is_locked("a"));
    assert!(s.refresh(&a).is_ok());
    assert!(!s.refresh(&b).is_ok());
}

#[test]
fn force_unlock_succeeds_whether_or_not_anything_was_locked() {
    let mut s = LockService::new(1);
    let a = args("", &["a", "b"], 1);
    assert_eq!(s.handle(LockOp::ForceUnlock, &a), Ok(true));
    assert_eq!(s.handle(LockOp::Lock, &args("u1", &["a"], 1)), Ok(true));
    assert_eq!(s.handle(LockOp::ForceUnlock, &a), Ok(true));
    assert!(!s.is_locked("a"));
}

#[test]
fn responses_from_answers() {
    assert!(GenerallyLockResponse::from_answer(LockOp::Lock, Ok(true)).error_info.is_none());
    assert_eq!(
        GenerallyLockResponse::from_answer(LockOp::Refresh, Ok(false)).error_info.as_deref(),
        Some("lock not found")
    );
    assert_eq!(
        GenerallyLockResponse::from_answer(LockOp::Lock, Err(LockError::Timeout)).error_info.as_deref(),
        Some("locker did not answer in time")
    );
    assert_eq!(refusal_message(LockOp::ForceUnlock), "can not force unlock");
    assert_eq!(LockError::EmptyResources.message(), "invalid lock request: no resource named");
}

#[test]
fn local_locker_always_answers() {
    let mut l = new_lock_api(true, None, 1).unwrap();
    assert!(l.is_local());
    assert!(l.is_online());
    l.set_online(false);
    assert!(l.is_online());
    let a = args("u1", &["a"], 1);
    assert_eq!(l.lock(&a), Ok(true));
    assert!(l.is_locked("a"));
    assert_eq!(l.refresh(&a), Ok(true));
    assert_eq!(l.rlock(&a), Ok(false));
    assert_eq!(l.unlock(&a), Ok(true));
    assert_eq!(l.rlock(&a), Ok(true));
    assert_eq!(l.runlock(&a), Ok(true));
    assert_eq!(l.runlock(&a), Ok(false));
    assert_eq!(l.force_unlock(&a), Ok(true));
}

#[test]
fn unreachable_peer_times_out_and_keeps_its_table() {
    let url = url::Url::parse("http://10.0.0.2:9000/data").unwrap();
    let mut l = new_lock_api(false, Some(url), 1).unwrap();
    assert!(!l.is_local());
    assert!(l.is_online());
    let a = args("u1", &["a"], 1);
    assert_eq!(l.lock(&a), Ok(true));
    l.set_online(false);
    assert!(!l.is_online());
    assert_eq!(l.unlock(&a), Err(LockError::Timeout));
    assert_eq!(l.lock(&a), Err(LockError::Timeout));
    assert_eq!(l.refresh(&a), Err(LockError::Timeout));
    assert_eq!(l.call(LockOp::ForceUnlock, &a), Err(LockError::Timeout));
    assert!(l.is_locked("a"));
    l.set_online(true);
    assert_eq!(l.unlock(&a), Ok(true));
    assert!(!l.is_locked("a"));
}

#[test]
fn peer_address_is_scheme_host_and_port() {
    assert_eq!(peer_address("http", "127.0.0.1", 9000), "http://127.0.0.1:9000");
    assert_eq!(peer_address("https", "node-3.example", 443), "https://node-3.example:443");
    assert_eq!(peer_address("", "", 0), "://:0");
    let url = url::Url::parse("HTTP://Node1.Example:9000/data?x=1").unwrap();
    match new_lock_api(false, Some(url), 4).unwrap() {
        LockApi::Remote(c) => assert_eq!(c.addr(), "http://node1.example:9000"),
        LockApi::Local(_) => panic!("a peer was asked for"),
    }
}

#[test]
fn a_peer_needs_a_url_with_host_and_port() {
    assert!(new_lock_api(false, None, 1).is_none());
    let no_port = url::Url::parse("http://127.0.0.1/data").unwrap();
    assert!(new_lock_api(false, Some(no_port), 1).is_none());
    let no_host = url::Url::parse("data:text/plain,x").unwrap();
    assert!(new_lock_api(false, Some(no_host), 1).is_none());
    let ignored = url::Url::parse("data:text/plain,x").unwrap();
    assert!(new_lock_api(true, Some(ignored), 1).unwrap().is_local());
}

#[test]
fn remote_client_by_hand() {
    let c = RemoteClient::new("http://peer:1".to_string(), LockService::new(2));
    assert_eq!(c.addr(), "http://peer:1");
    let mut l = LockApi::Remote(c);
    assert_eq!(l.lock(&args("u", &["a"], 2)), Ok(true));
    assert_eq!(l.lock(&args("u", &["b"], 3)), Err(LockError::QuorumUnreachable));
}
