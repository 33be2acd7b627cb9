//! A quorum-based lock manager for a cluster of storage nodes.
//!
//! Every node keeps a table of the resources that are locked on it
//! ([`local_locker`]) behind an endpoint that checks and answers requests
//! ([`lock_service`]). A locker ([`lock_api`]) is such an endpoint as a
//! caller reaches it. A distributed mutex ([`drwmutex`]) asks every locker
//! for a grant, holds the lock once a quorum of them agreed ([`quorum`]),
//! and gives back what it was granted otherwise. A namespace lock
//! ([`namespace_lock`]) drives a mutex with a retry policy, and a map
//! shares the namespace locks of a process among their callers. What
//! holds of all of this together is stated and proved in [`laws`].
//!
//! The lock manager leaves records for the operator ([`diagnostics`]);
//! [`logger`] puts entries on the queue of the log pipeline.

pub mod diagnostics;
pub mod drwmutex;
pub mod laws;
pub mod local_locker;
pub mod lock_api;
pub mod lock_args;
pub mod lock_service;
pub mod logger;
pub mod namespace_lock;
pub mod quorum;
pub mod text;
