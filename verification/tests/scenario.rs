use quorum_lock::drwmutex::Options;
use quorum_lock::lock_api::{new_lock_api, LockApi};
use quorum_lock::lock_args::LockArgs;
use quorum_lock::lock_service::LockService;
use quorum_lock::namespace_lock::{new_nslock, NsLockMap};

fn names(v: &[&str]) -> Vec<String> {
    v.iter().map(|s| s.to_string()).collect()
}

#[test]
fn test_lock_unlock_ns_lock() {
    let url = url::Url::parse("http://127.0.0.1:9000/data").unwrap();
    let locker: LockApi = new_lock_api(false, Some(url), 1).unwrap();
    let mut lockers = vec![locker];
    let mut ns_map = NsLockMap::new(true);
    let ns = new_nslock(&mut ns_map, "local".to_string(), "dandan".to_string(), names(&["foo"]), lockers.len());
    assert!(ns_map
        .get_lock(&ns, &mut lockers, &Options { timeout: 5000, retry_interval: 1000 })
        .unwrap());
    assert!(lockers[0].is_locked("dandan/foo"));
    ns_map.un_lock(&ns, &mut lockers).unwrap();
    assert!(!lockers[0].is_locked("dandan/foo"));
}

#[test]
fn test_lock_unlock_rpc() {
    let args = LockArgs {
        uid: "1111".to_string(),
        resources: names(&["dandan"]),
        owner: "dd".to_string(),
        source: "".to_string(),
        quorum: 3,
    };
    let mut service = LockService::new(1);
    let response = service.lock(&args);
    let info = response.error_info.expect("a quorum of three cannot form on one locker");
    assert!(info.contains("quorum"));
    assert!(!service.is_locked("dandan"));
}
