//! The namespace lock: a distributed mutex over the resources of one
//! volume, with the policy that turns a lost attempt into a retry or into
//! giving up when the time is over.
//!
//! Nothing here sleeps. The policy says how long to wait after a failed
//! attempt; whoever drives real lockers waits that long before the next
//! call of `try_lock`. `get_lock` and `get_rlock` run the policy to its end
//! on lockers of this process, which nothing else changes meanwhile, and
//! account the waits without letting time pass.

use crate::diagnostics::{retry_exhausted, Diagnostic};
use crate::drwmutex::{
    acquires, acquires_locally, cluster_after_acquire, cluster_after_local_acquire, cluster_after_release,
    lock_op, may_release, mutex_after_acquire, mutex_after_local_acquire, mutex_after_release_on, replies,
    local_silent, silent,
    local_replies, DRWMutex, MutexView, Options,
};
use crate::drwmutex::next_seq;
use crate::lock_api::{cluster_of, cluster_wf, LockApi, LockerView};
use crate::lock_args::{clone_names, names_of};
use crate::quorum::{count_grants, count_true, majority, majority_of};
use crate::text::{decimal, to_decimal};
use vstd::prelude::*;
use vstd::string::StringExecFns;

verus! {

/// Why a namespace lock could not do what was asked.
#[derive(Clone, Copy, Debug, PartialEq, Eq, Structural)]
pub enum NsLockError {
    /// The lock names no resource.
    EmptyResources,
    /// Fewer lockers than the quorum can be reached, and the map was told
    /// to treat that as an error.
    QuorumUnreachable,
    /// An unlock without a lock to give back.
    NotLocked,
    /// The map holds no lock for the key.
    UnknownLock,
}

/// The wait between two attempts: the retry interval, and one millisecond
/// where none is given.
pub open spec fn step_of(opts: Options) -> nat {
    if opts.retry_interval == 0 {
        1
    } else {
        opts.retry_interval as nat
    }
}

/// How long to wait after a failed attempt when `waited` milliseconds have
/// been waited so far: the step, cut at the time-out; `None` when the time
/// is over.
pub open spec fn wait_after(opts: Options, waited: nat) -> Option<nat> {
    if waited >= opts.timeout {
        None
    } else if step_of(opts) <= opts.timeout - waited {
        Some(step_of(opts))
    } else {
        Some((opts.timeout - waited) as nat)
    }
}

/// The number of attempts that are made, from `waited` milliseconds on,
/// when every attempt fails.
pub open spec fn attempts_from(opts: Options, waited: nat) -> nat
    decreases opts.timeout - waited,
{
    match wait_after(opts, waited) {
        None => 1,
        Some(w) => 1 + attempts_from(opts, waited + w),
    }
}

/// Says how long to wait after a failed attempt, or that the time is over.
pub fn next_wait(opts: &Options, waited: u64) -> (wait: Option<u64>)
    ensures
        match wait {
            Some(w) => wait_after(*opts, waited as nat) == Some(w as nat) && w > 0 && waited + w
                <= opts.timeout,
            None => wait_after(*opts, waited as nat) is None,
        },
{
    if waited >= opts.timeout {
        None
    } else {
        let step = if opts.retry_interval == 0 {
            1
        } else {
            opts.retry_interval
        };
        let left = opts.timeout - waited;
        if step <= left {
            Some(step)
        } else {
            Some(left)
        }
    }
}

/// The retry contract. Against lockers that never grant, the waits end
/// exactly at the time-out, and the retries made before giving up, taken
/// together, span at least the time-out.
pub proof fn law_retry_until_timeout(opts: Options, waited: nat)
    requires
        waited <= opts.timeout,
    ensures
        attempts_from(opts, waited) >= 1,
        (attempts_from(opts, waited) - 1) * step_of(opts) >= opts.timeout - waited,
        opts.timeout > waited ==> (attempts_from(opts, waited) - 2) * step_of(opts) < opts.timeout
            - waited,
    decreases opts.timeout - waited,
{
    let s = step_of(opts);
    match wait_after(opts, waited) {
        None => {},
        Some(w) => {
            law_retry_until_timeout(opts, waited + w);
            let k = attempts_from(opts, waited + w);
            assert(attempts_from(opts, waited) == 1 + k);
            assert((1 + k - 1) * s == (k - 1) * s + s) by (nonlinear_arith);
            assert((1 + k - 2) * s == (k - 2) * s + s) by (nonlinear_arith);
            if waited + w >= opts.timeout {
                assert(k == 1);
                assert((1 + k - 2) * s == 0) by (nonlinear_arith)
                    requires
                        k == 1,
                ;
            }
        },
    }
}

/// For each locker, whether it can be reached.
pub open spec fn online_mask(c: Seq<LockerView>) -> Seq<bool> {
    Seq::new(c.len(), |i: int| c[i].online)
}

/// Whom an attempt asks.
#[derive(Clone, Copy, Debug, PartialEq, Eq, Structural)]
pub enum AttemptPlan {
    /// Every locker of the cluster.
    Cluster,
    /// The node's own lockers only.
    LocalOnly,
}

/// Whom an attempt asks, for a lock over `resources` resources that needs
/// `quorum` grants while `online` lockers can be reached. Without a
/// resource it is an error. Where the quorum cannot be reached it is an
/// error if the map was told so, and else the node's own lockers are
/// asked.
pub open spec fn plan_of(resources: nat, online: nat, quorum: nat, is_dist_err: bool) -> Result<
    AttemptPlan,
    NsLockError,
> {
    if resources == 0 {
        Err(NsLockError::EmptyResources)
    } else if online < quorum {
        if is_dist_err {
            Err(NsLockError::QuorumUnreachable)
        } else {
            Ok(AttemptPlan::LocalOnly)
        }
    } else {
        Ok(AttemptPlan::Cluster)
    }
}

/// Decides whom an attempt asks.
pub fn plan_attempt(resources: usize, online: usize, quorum: usize, is_dist_err: bool) -> (plan: Result<
    AttemptPlan,
    NsLockError,
>)
    ensures
        plan == plan_of(resources as nat, online as nat, quorum as nat, is_dist_err),
{
    if resources == 0 {
        Err(NsLockError::EmptyResources)
    } else if online < quorum {
        if is_dist_err {
            Err(NsLockError::QuorumUnreachable)
        } else {
            Ok(AttemptPlan::LocalOnly)
        }
    } else {
        Ok(AttemptPlan::Cluster)
    }
}

/// The plan of an attempt of the mutex on the cluster.
pub open spec fn plan_on(m: MutexView, c: Seq<LockerView>, is_dist_err: bool) -> Result<
    AttemptPlan,
    NsLockError,
> {
    plan_of(m.names.len(), count_true(online_mask(c)), m.quorum, is_dist_err)
}

/// What one attempt of a namespace lock comes to. Without a resource it is
/// an error. Where the quorum cannot be reached it is an error if the map
/// was told so, and else an attempt on the node's own lockers. Otherwise
/// it is an attempt on the cluster.
pub open spec fn attempt_result(m: MutexView, c: Seq<LockerView>, exclusive: bool, is_dist_err: bool) -> Result<
    bool,
    NsLockError,
> {
    match plan_on(m, c, is_dist_err) {
        Err(e) => Err(e),
        Ok(AttemptPlan::LocalOnly) => Ok(acquires_locally(m, c, exclusive)),
        Ok(AttemptPlan::Cluster) => Ok(acquires(m, c, exclusive)),
    }
}

/// The cluster after one attempt of a namespace lock.
pub open spec fn cluster_after_attempt(
    m: MutexView,
    c: Seq<LockerView>,
    exclusive: bool,
    is_dist_err: bool,
) -> Seq<LockerView> {
    match plan_on(m, c, is_dist_err) {
        Err(_) => c,
        Ok(AttemptPlan::LocalOnly) => cluster_after_local_acquire(m, c, exclusive),
        Ok(AttemptPlan::Cluster) => cluster_after_acquire(m, c, exclusive),
    }
}

/// The mutex after one attempt of a namespace lock.
pub open spec fn mutex_after_attempt(
    m: MutexView,
    c: Seq<LockerView>,
    exclusive: bool,
    is_dist_err: bool,
) -> MutexView {
    match plan_on(m, c, is_dist_err) {
        Err(_) => m,
        Ok(AttemptPlan::LocalOnly) => mutex_after_local_acquire(m, c, exclusive),
        Ok(AttemptPlan::Cluster) => mutex_after_acquire(m, c, exclusive),
    }
}

/// The mutex after `k` attempts in a row.
pub open spec fn mutex_after_attempts(
    m: MutexView,
    c: Seq<LockerView>,
    exclusive: bool,
    is_dist_err: bool,
    k: nat,
) -> MutexView
    decreases k,
{
    if k == 0 {
        m
    } else {
        mutex_after_attempt(
            mutex_after_attempts(m, c, exclusive, is_dist_err, (k - 1) as nat),
            c,
            exclusive,
            is_dist_err,
        )
    }
}

/// A failed attempt changes nothing that the next attempt depends on: on
/// the same cluster it fails again.
pub proof fn lemma_attempt_stable(m: MutexView, c: Seq<LockerView>, exclusive: bool, is_dist_err: bool)
    requires
        attempt_result(m, c, exclusive, is_dist_err) == Ok::<bool, NsLockError>(false),
    ensures
        cluster_after_attempt(m, c, exclusive, is_dist_err) == c,
        ({
            let m1 = mutex_after_attempt(m, c, exclusive, is_dist_err);
            &&& attempt_result(m1, c, exclusive, is_dist_err) == Ok::<bool, NsLockError>(false)
            &&& m1.names == m.names
            &&& m1.quorum == m.quorum
            &&& m1.lockers == m.lockers
        }),
{
    let m1 = mutex_after_attempt(m, c, exclusive, is_dist_err);
    let op = lock_op(exclusive);
    assert(replies(c, op, m1.attempt_args()) =~= replies(c, op, m.attempt_args()));
    assert(local_replies(c, op, m1.attempt_args()) =~= local_replies(c, op, m.attempt_args()));
    assert(silent(c, op, m1.attempt_args()) =~= silent(c, op, m.attempt_args()));
    assert(local_silent(c, op, m1.attempt_args()) =~= local_silent(c, op, m.attempt_args()));
}

/// The number as far as sixty-four bits hold it.
pub open spec fn saturated(n: nat) -> u64 {
    if n > u64::MAX {
        u64::MAX
    } else {
        n as u64
    }
}

/// A namespace lock as the mathematics sees it.
pub struct NsLockView {
    pub mutex: MutexView,
    pub is_dist_err: bool,
    /// The attempts that the last `get_lock` or `get_rlock` made.
    pub attempts: u64,
    /// The milliseconds that it accounted as waited.
    pub waited: u64,
}

/// What `get_lock` and `get_rlock` return: the result of the first
/// attempt, since on lockers that nothing else changes every later attempt
/// ends as the first did.
pub open spec fn get_result(l: NsLockView, c: Seq<LockerView>, exclusive: bool) -> Result<bool, NsLockError> {
    attempt_result(l.mutex, c, exclusive, l.is_dist_err)
}

/// The namespace lock after `get_lock` or `get_rlock`. An error changes
/// nothing. A lock that is obtained is obtained at the first attempt. A
/// lock that is not obtained was tried for until the time was over; that
/// is recorded.
pub open spec fn lock_after_get(l: NsLockView, c: Seq<LockerView>, exclusive: bool, opts: Options) -> NsLockView {
    match get_result(l, c, exclusive) {
        Err(_) => l,
        Ok(true) => NsLockView {
            mutex: mutex_after_attempt(l.mutex, c, exclusive, l.is_dist_err),
            attempts: 1,
            waited: 0,
            ..l
        },
        Ok(false) => {
            let k = attempts_from(opts, 0);
            let m = mutex_after_attempts(l.mutex, c, exclusive, l.is_dist_err, k);
            NsLockView {
                mutex: MutexView { events: m.events.push(retry_exhausted(m.names)), ..m },
                attempts: saturated(k),
                waited: opts.timeout,
                ..l
            }
        },
    }
}

/// The cluster after `get_lock` or `get_rlock`: with the grants where the
/// lock was obtained, and else as it was.
pub open spec fn cluster_after_get(l: NsLockView, c: Seq<LockerView>, exclusive: bool) -> Seq<LockerView> {
    if get_result(l, c, exclusive) == Ok::<bool, NsLockError>(true) {
        cluster_after_attempt(l.mutex, c, exclusive, l.is_dist_err)
    } else {
        c
    }
}

/// What an unlock returns: an error without a lock to give back.
pub open spec fn unlock_result(l: NsLockView, c: Seq<LockerView>, exclusive: bool) -> Result<(), NsLockError> {
    if may_release(l.mutex, exclusive, c.len()) {
        Ok(())
    } else {
        Err(NsLockError::NotLocked)
    }
}

/// The namespace lock after an unlock.
pub open spec fn lock_after_unlock(l: NsLockView, c: Seq<LockerView>, exclusive: bool) -> NsLockView {
    NsLockView { mutex: mutex_after_release_on(l.mutex, c, exclusive), ..l }
}

/// A lock over the resources of one volume.
pub struct NsLock {
    mutex: DRWMutex,
    is_dist_err: bool,
    attempts: u64,
    waited: u64,
}

impl View for NsLock {
    type V = NsLockView;

    closed spec fn view(&self) -> NsLockView {
        NsLockView {
            mutex: self.mutex@,
            is_dist_err: self.is_dist_err,
            attempts: self.attempts,
            waited: self.waited,
        }
    }
}

fn count_online(lockers: &Vec<LockApi>) -> (n: usize)
    ensures
        n == count_true(online_mask(cluster_of(lockers@))),
{
    let mut mask: Vec<bool> = Vec::new();
    let mut i: usize = 0;
    while i < lockers.len()
        invariant
            i <= lockers.len(),
            mask.len() == i,
            forall|j: int| 0 <= j < i ==> #[trigger] mask@[j] == lockers@[j]@.online,
        decreases lockers.len() - i,
    {
        mask.push(lockers[i].is_online());
        i += 1;
    }
    assert(mask@ =~= online_mask(cluster_of(lockers@)));
    count_grants(&mask)
}

impl NsLock {
    pub closed spec fn wf(&self) -> bool {
        self.mutex.wf()
    }

    /// A namespace lock that drives `mutex`.
    pub fn new(mutex: DRWMutex, is_dist_err: bool) -> (l: NsLock)
        requires
            mutex.wf(),
        ensures
            l.wf(),
            l@ == (NsLockView { mutex: mutex@, is_dist_err, attempts: 0, waited: 0 }),
    {
        NsLock { mutex, is_dist_err, attempts: 0, waited: 0 }
    }

    /// The mutex that the lock drives.
    pub fn mutex(&self) -> (m: &DRWMutex)
        ensures
            m@ == self@.mutex,
            self.wf() ==> m.wf(),
    {
        &self.mutex
    }

    /// The attempts that the last `get_lock` or `get_rlock` made.
    pub fn attempts(&self) -> (n: u64)
        ensures
            n == self@.attempts,
    {
        self.attempts
    }

    /// The milliseconds that the last `get_lock` or `get_rlock` accounted
    /// as waited.
    pub fn waited(&self) -> (ms: u64)
        ensures
            ms == self@.waited,
    {
        self.waited
    }

    /// Whether the lock is held in the given mode.
    pub fn is_held(&self, exclusive: bool) -> (held: bool)
        ensures
            held == (self@.mutex.held(exclusive) is Some),
    {
        self.mutex.is_held(exclusive)
    }

    /// One attempt to take the lock, without waiting.
    pub fn try_lock(&mut self, lockers: &mut Vec<LockApi>, exclusive: bool) -> (r: Result<bool, NsLockError>)
        requires
            old(self).wf(),
            cluster_wf(old(lockers)@),
        ensures
            final(self).wf(),
            cluster_wf(final(lockers)@),
            r == attempt_result(old(self)@.mutex, cluster_of(old(lockers)@), exclusive, old(self)@.is_dist_err),
            cluster_of(final(lockers)@) == cluster_after_attempt(
                old(self)@.mutex,
                cluster_of(old(lockers)@),
                exclusive,
                old(self)@.is_dist_err,
            ),
            final(self)@ == (NsLockView {
                mutex: mutex_after_attempt(
                    old(self)@.mutex,
                    cluster_of(old(lockers)@),
                    exclusive,
                    old(self)@.is_dist_err,
                ),
                ..old(self)@
            }),
    {
        let online = count_online(lockers);
        match plan_attempt(self.mutex.names().len(), online, self.mutex.quorum(), self.is_dist_err) {
            Err(e) => Err(e),
            Ok(AttemptPlan::LocalOnly) => Ok(self.mutex.try_acquire_local(lockers, exclusive)),
            Ok(AttemptPlan::Cluster) => Ok(self.mutex.try_acquire(lockers, exclusive)),
        }
    }

    /// Records that the lock was given up for: the time was over.
    pub fn give_up(&mut self)
        requires
            old(self).wf(),
        ensures
            final(self).wf(),
            final(self)@ == (NsLockView {
                mutex: MutexView {
                    events: old(self)@.mutex.events.push(retry_exhausted(old(self)@.mutex.names)),
                    ..old(self)@.mutex
                },
                ..old(self)@
            }),
    {
        let d = Diagnostic::retry_exhausted(self.mutex.names());
        self.mutex.record(d);
    }

    fn get(&mut self, lockers: &mut Vec<LockApi>, exclusive: bool, opts: &Options) -> (r: Result<
        bool,
        NsLockError,
    >)
        requires
            old(self).wf(),
            cluster_wf(old(lockers)@),
        ensures
            final(self).wf(),
            cluster_wf(final(lockers)@),
            r == get_result(old(self)@, cluster_of(old(lockers)@), exclusive),
            cluster_of(final(lockers)@) == cluster_after_get(old(self)@, cluster_of(old(lockers)@), exclusive),
            final(self)@ == lock_after_get(old(self)@, cluster_of(old(lockers)@), exclusive, *opts),
    {
        let ghost l = self@;
        let ghost c = cluster_of(lockers@);
        let flag = self.is_dist_err;
        let first = self.try_lock(lockers, exclusive);
        match first {
            Err(e) => {
                return Err(e);
            },
            Ok(true) => {
                self.attempts = 1;
                self.waited = 0;
                return Ok(true);
            },
            Ok(false) => {},
        }
        let mut attempts: u64 = 1;
        let mut waited: u64 = 0;
        let ghost mut made: nat = 1;
        proof {
            lemma_attempt_stable(l.mutex, c, exclusive, flag);
            assert(mutex_after_attempts(l.mutex, c, exclusive, flag, 0) == l.mutex);
        }
        loop
            invariant
                self.wf(),
                cluster_wf(lockers@),
                l == old(self)@,
                c == cluster_of(old(lockers)@),
                cluster_of(lockers@) == c,
                waited <= opts.timeout,
                made >= 1,
                attempts == saturated(made),
                flag == l.is_dist_err,
                self@ == (NsLockView {
                    mutex: mutex_after_attempts(l.mutex, c, exclusive, flag, made),
                    ..l
                }),
                attempt_result(l.mutex, c, exclusive, flag) == Ok::<bool, NsLockError>(false),
                attempt_result(self@.mutex, c, exclusive, flag) == Ok::<bool, NsLockError>(false),
                self@.mutex.names == l.mutex.names,
                made - 1 + attempts_from(*opts, waited as nat) == attempts_from(*opts, 0),
            decreases opts.timeout - waited,
        {
            match next_wait(opts, waited) {
                None => {
                    self.give_up();
                    self.attempts = attempts;
                    self.waited = waited;
                    return Ok(false);
                },
                Some(w) => {
                    waited = waited + w;
                },
            }
            let ghost before = self@.mutex;
            let _ = self.try_lock(lockers, exclusive);
            proof {
                lemma_attempt_stable(before, c, exclusive, flag);
                made = made + 1;
            }
            attempts = if attempts == u64::MAX {
                u64::MAX
            } else {
                attempts + 1
            };
        }
    }

    /// Tries for the write lock until it is obtained or the time is over.
    /// `Ok(false)` says that it was not obtained.
    pub fn get_lock(&mut self, lockers: &mut Vec<LockApi>, opts: &Options) -> (r: Result<bool, NsLockError>)
        requires
            old(self).wf(),
            cluster_wf(old(lockers)@),
        ensures
            final(self).wf(),
            cluster_wf(final(lockers)@),
            r == get_result(old(self)@, cluster_of(old(lockers)@), true),
            cluster_of(final(lockers)@) == cluster_after_get(old(self)@, cluster_of(old(lockers)@), true),
            final(self)@ == lock_after_get(old(self)@, cluster_of(old(lockers)@), true, *opts),
    {
        self.get(lockers, true, opts)
    }

    /// Tries for the read lock until it is obtained or the time is over.
    /// `Ok(false)` says that it was not obtained.
    pub fn get_rlock(&mut self, lockers: &mut Vec<LockApi>, opts: &Options) -> (r: Result<bool, NsLockError>)
        requires
            old(self).wf(),
            cluster_wf(old(lockers)@),
        ensures
            final(self).wf(),
            cluster_wf(final(lockers)@),
            r == get_result(old(self)@, cluster_of(old(lockers)@), false),
            cluster_of(final(lockers)@) == cluster_after_get(old(self)@, cluster_of(old(lockers)@), false),
            final(self)@ == lock_after_get(old(self)@, cluster_of(old(lockers)@), false, *opts),
    {
        self.get(lockers, false, opts)
    }

    fn unlock(&mut self, lockers: &mut Vec<LockApi>, exclusive: bool) -> (r: Result<(), NsLockError>)
        requires
            old(self).wf(),
            cluster_wf(old(lockers)@),
        ensures
            final(self).wf(),
            cluster_wf(final(lockers)@),
            r == unlock_result(old(self)@, cluster_of(old(lockers)@), exclusive),
            cluster_of(final(lockers)@) == cluster_after_release(
                old(self)@.mutex,
                cluster_of(old(lockers)@),
                exclusive,
            ),
            final(self)@ == lock_after_unlock(old(self)@, cluster_of(old(lockers)@), exclusive),
    {
        if self.mutex.release(lockers, exclusive) {
            Ok(())
        } else {
            Err(NsLockError::NotLocked)
        }
    }

    /// Gives the write lock back. Without one to give back it reports
    /// `NotLocked` and changes nothing.
    pub fn un_lock(&mut self, lockers: &mut Vec<LockApi>) -> (r: Result<(), NsLockError>)
        requires
            old(self).wf(),
            cluster_wf(old(lockers)@),
        ensures
            final(self).wf(),
            cluster_wf(final(lockers)@),
            r == unlock_result(old(self)@, cluster_of(old(lockers)@), true),
            cluster_of(final(lockers)@) == cluster_after_release(
                old(self)@.mutex,
                cluster_of(old(lockers)@),
                true,
            ),
            final(self)@ == lock_after_unlock(old(self)@, cluster_of(old(lockers)@), true),
    {
        self.unlock(lockers, true)
    }

    /// Gives the read lock back. Without one to give back it reports
    /// `NotLocked` and changes nothing.
    pub fn un_rlock(&mut self, lockers: &mut Vec<LockApi>) -> (r: Result<(), NsLockError>)
        requires
            old(self).wf(),
            cluster_wf(old(lockers)@),
        ensures
            final(self).wf(),
            cluster_wf(final(lockers)@),
            r == unlock_result(old(self)@, cluster_of(old(lockers)@), false),
            cluster_of(final(lockers)@) == cluster_after_release(
                old(self)@.mutex,
                cluster_of(old(lockers)@),
                false,
            ),
            final(self)@ == lock_after_unlock(old(self)@, cluster_of(old(lockers)@), false),
    {
        self.unlock(lockers, false)
    }

    /// Hands out the records made since they were last taken.
    pub fn take_diagnostics(&mut self) -> (records: Vec<Diagnostic>)
        requires
            old(self).wf(),
        ensures
            final(self).wf(),
            crate::diagnostics::records_of(records@) == old(self)@.mutex.events,
            final(self)@ == (NsLockView {
                mutex: MutexView { events: Seq::empty(), ..old(self)@.mutex },
                ..old(self)@
            }),
    {
        self.mutex.take_diagnostics()
    }
}

/// What names a namespace lock: the volume and the paths in it.
pub struct NsKeyView {
    pub volume: Seq<char>,
    pub paths: Seq<Seq<char>>,
}

/// The key under which a caller finds its namespace lock in the map.
#[derive(Debug)]
pub struct NsLockKey {
    volume: String,
    paths: Vec<String>,
}

impl View for NsLockKey {
    type V = NsKeyView;

    closed spec fn view(&self) -> NsKeyView {
        NsKeyView { volume: self.volume@, paths: names_of(self.paths@) }
    }
}

impl NsLockKey {
    /// The key of the lock over `paths` in `volume`.
    pub fn new(volume: String, paths: Vec<String>) -> (key: NsLockKey)
        ensures
            key@ == (NsKeyView { volume: volume@, paths: names_of(paths@) }),
    {
        NsLockKey { volume, paths }
    }

    pub fn volume(&self) -> (v: &String)
        ensures
            v@ == self@.volume,
    {
        &self.volume
    }

    pub fn paths(&self) -> (p: &Vec<String>)
        ensures
            names_of(p@) == self@.paths,
    {
        &self.paths
    }
}

/// An entry of the map: the lock and the number of callers that share it.
pub struct NsEntryView {
    pub reference: usize,
    pub lock: NsLockView,
}

/// The map as the mathematics sees it.
pub struct NsMapView {
    pub is_dist_err: bool,
    pub next_id: u64,
    pub locks: Map<NsKeyView, NsEntryView>,
}

/// The names under which the lockers know the paths of a volume.
pub open spec fn resource_names(volume: Seq<char>, paths: Seq<Seq<char>>) -> Seq<Seq<char>> {
    Seq::new(paths.len(), |i: int| volume + "/"@ + paths[i])
}

/// What tells the mutexes of one owner apart: the owner and the number
/// that the map gave the lock.
pub open spec fn ops_id_text(owner: Seq<char>, id: u64) -> Seq<char> {
    owner + ":"@ + decimal(id as nat)
}

/// One more caller, as far as the count goes.
pub open spec fn bump(reference: usize) -> usize {
    if reference == usize::MAX {
        reference
    } else {
        (reference + 1) as usize
    }
}

/// The lock that the map makes for a key that it does not hold yet: over
/// the paths of the volume, for a majority of `lockers` lockers.
pub open spec fn fresh_lock(map: NsMapView, owner: Seq<char>, key: NsKeyView, lockers: nat) -> NsLockView {
    NsLockView {
        mutex: MutexView {
            owner,
            ops_id: ops_id_text(owner, map.next_id),
            names: resource_names(key.volume, key.paths),
            quorum: majority_of(lockers),
            lockers,
            seq: 0,
            write: None,
            read: None,
            events: Seq::empty(),
        },
        is_dist_err: map.is_dist_err,
        attempts: 0,
        waited: 0,
    }
}

/// The map after a caller asked for the lock of `key`: the lock that is
/// there is shared by one more caller, and a lock that is not there is
/// made.
pub open spec fn map_after_new(map: NsMapView, owner: Seq<char>, key: NsKeyView, lockers: nat) -> NsMapView {
    if map.locks.contains_key(key) {
        NsMapView {
            locks: map.locks.insert(
                key,
                NsEntryView { reference: bump(map.locks[key].reference), ..map.locks[key] },
            ),
            ..map
        }
    } else {
        NsMapView {
            locks: map.locks.insert(
                key,
                NsEntryView { reference: 1, lock: fresh_lock(map, owner, key, lockers) },
            ),
            next_id: next_seq(map.next_id),
            ..map
        }
    }
}

/// The map after a caller let go of the lock of `key`: the lock leaves
/// the map with its last caller.
pub open spec fn map_after_drop(map: NsMapView, key: NsKeyView) -> NsMapView {
    if !map.locks.contains_key(key) {
        map
    } else if map.locks[key].reference <= 1 {
        NsMapView { locks: map.locks.remove(key), ..map }
    } else {
        NsMapView {
            locks: map.locks.insert(
                key,
                NsEntryView { reference: (map.locks[key].reference - 1) as usize, ..map.locks[key] },
            ),
            ..map
        }
    }
}

/// The map with another lock under `key`.
pub open spec fn map_with_lock(map: NsMapView, key: NsKeyView, lock: NsLockView) -> NsMapView {
    NsMapView { locks: map.locks.insert(key, NsEntryView { lock, ..map.locks[key] }), ..map }
}

struct NsEntry {
    volume: String,
    paths: Vec<String>,
    reference: usize,
    lock: NsLock,
}

spec fn key_of(e: NsEntry) -> NsKeyView {
    NsKeyView { volume: e.volume@, paths: names_of(e.paths@) }
}

spec fn entry_view(e: NsEntry) -> NsEntryView {
    NsEntryView { reference: e.reference, lock: e.lock@ }
}

spec fn entry_wf(e: NsEntry) -> bool {
    e.reference > 0 && e.lock.wf()
}

/// Whether two lists hold the same names in the same order.
fn same_names(a: &Vec<String>, b: &Vec<String>) -> (same: bool)
    ensures
        same == (names_of(a@) == names_of(b@)),
{
    if a.len() != b.len() {
        assert(names_of(a@).len() != names_of(b@).len());
        return false;
    }
    let mut i: usize = 0;
    while i < a.len()
        invariant
            i <= a.len(),
            a.len() == b.len(),
            forall|j: int| 0 <= j < i ==> a@[j]@ == b@[j]@,
        decreases a.len() - i,
    {
        if a[i] != b[i] {
            assert(names_of(a@)[i as int] != names_of(b@)[i as int]);
            return false;
        }
        i += 1;
    }
    assert(names_of(a@) =~= names_of(b@));
    true
}

/// The names under which the lockers know the paths of a volume.
pub fn join_names(volume: &String, paths: &Vec<String>) -> (names: Vec<String>)
    ensures
        names_of(names@) == resource_names(volume@, names_of(paths@)),
{
    let mut names: Vec<String> = Vec::new();
    let mut i: usize = 0;
    while i < paths.len()
        invariant
            i <= paths.len(),
            names.len() == i,
            forall|j: int| 0 <= j < i ==> (#[trigger] names@[j])@ == volume@ + "/"@ + paths@[j]@,
        decreases paths.len() - i,
    {
        let name = volume.clone().concat("/").concat(paths[i].as_str());
        names.push(name);
        i += 1;
    }
    assert(names_of(names@) =~= resource_names(volume@, names_of(paths@)));
    names
}

/// The registry of the namespace locks of a process.
pub struct NsLockMap {
    is_dist_err: bool,
    next_id: u64,
    entries: Vec<NsEntry>,
}

impl View for NsLockMap {
    type V = NsMapView;

    closed spec fn view(&self) -> NsMapView {
        NsMapView {
            is_dist_err: self.is_dist_err,
            next_id: self.next_id,
            locks: Map::new(
                |k: NsKeyView| self.has(k),
                |k: NsKeyView| entry_view(self.entries[self.index_of(k)]),
            ),
        }
    }
}

impl NsLockMap {
    spec fn has(&self, k: NsKeyView) -> bool {
        exists|i: int| 0 <= i < self.entries.len() && key_of(#[trigger] self.entries[i]) == k
    }

    spec fn index_of(&self, k: NsKeyView) -> int {
        choose|i: int| 0 <= i < self.entries.len() && key_of(#[trigger] self.entries[i]) == k
    }

    /// No key has two entries, every lock is shared by at least one
    /// caller, and every lock is well formed.
    pub closed spec fn wf(&self) -> bool {
        &&& forall|i: int, j: int|
            0 <= i < j < self.entries.len() ==> key_of(#[trigger] self.entries[i]) != key_of(
                #[trigger] self.entries[j],
            )
        &&& forall|i: int| 0 <= i < self.entries.len() ==> entry_wf(#[trigger] self.entries[i])
    }

    proof fn lemma_at(&self, i: int)
        requires
            self.wf(),
            0 <= i < self.entries.len(),
        ensures
            self@.locks.contains_key(key_of(self.entries[i])),
            self@.locks[key_of(self.entries[i])] == entry_view(self.entries[i]),
    {
        let k = key_of(self.entries[i]);
        assert(self.has(k));
        let j = self.index_of(k);
        assert(j == i) by {
            if j < i {
                assert(key_of(self.entries[j]) != key_of(self.entries[i]));
            } else if i < j {
                assert(key_of(self.entries[i]) != key_of(self.entries[j]));
            }
        }
    }

    /// An empty map. `is_dist_err` says whether a quorum that cannot be
    /// reached is an error (`true`) or a reason to lock on this node only.
    pub fn new(is_dist_err: bool) -> (map: NsLockMap)
        ensures
            map.wf(),
            map@ == (NsMapView { is_dist_err, next_id: 0, locks: Map::empty() }),
    {
        let map = NsLockMap { is_dist_err, next_id: 0, entries: Vec::new() };
        assert(map@.locks =~= Map::<NsKeyView, NsEntryView>::empty());
        map
    }

    /// Whether a quorum that cannot be reached is an error.
    pub fn is_dist_err(&self) -> (flag: bool)
        ensures
            flag == self@.is_dist_err,
    {
        self.is_dist_err
    }

    fn find(&self, key: &NsLockKey) -> (at: Option<usize>)
        requires
            self.wf(),
        ensures
            match at {
                Some(i) => i < self.entries.len() && key_of(self.entries[i as int]) == key@,
                None => !self@.locks.contains_key(key@),
            },
            at is Some == self@.locks.contains_key(key@),
    {
        let mut i: usize = 0;
        while i < self.entries.len()
            invariant
                self.wf(),
                i <= self.entries.len(),
                forall|j: int| 0 <= j < i ==> key_of(#[trigger] self.entries[j]) != key@,
            decreases self.entries.len() - i,
        {
            if self.entries[i].volume == key.volume && same_names(&self.entries[i].paths, &key.paths) {
                proof {
                    self.lemma_at(i as int);
                }
                return Some(i);
            }
            i += 1;
        }
        None
    }

    fn take(&mut self, i: usize) -> (e: NsEntry)
        requires
            old(self).wf(),
            i < old(self).entries.len(),
        ensures
            final(self).wf(),
            e == old(self).entries[i as int],
            entry_wf(e),
            old(self)@.locks.contains_key(key_of(e)),
            old(self)@.locks[key_of(e)] == entry_view(e),
            final(self)@ == (NsMapView { locks: old(self)@.locks.remove(key_of(e)), ..old(self)@ }),
    {
        proof {
            self.lemma_at(i as int);
        }
        let ghost before = *self;
        let e = self.entries.remove(i);
        proof {
            assert(entry_wf(before.entries[i as int]));
            assert forall|a: int, b: int| 0 <= a < b < self.entries.len() implies key_of(
                #[trigger] self.entries[a],
            ) != key_of(#[trigger] self.entries[b]) by {
                let a0 = if a < i { a } else { a + 1 };
                let b0 = if b < i { b } else { b + 1 };
                assert(self.entries[a] == before.entries[a0]);
                assert(self.entries[b] == before.entries[b0]);
            }
            assert forall|a: int| 0 <= a < self.entries.len() implies entry_wf(#[trigger] self.entries[a]) by {
                let a0 = if a < i { a } else { a + 1 };
                assert(self.entries[a] == before.entries[a0]);
            }
            let target = before@.locks.remove(key_of(e));
            assert forall|k: NsKeyView| #[trigger] self@.locks.dom().contains(k) == target.dom().contains(k) by {
                if self.has(k) {
                    let a = self.index_of(k);
                    let a0 = if a < i { a } else { a + 1 };
                    assert(self.entries[a] == before.entries[a0]);
                    assert(before.has(k));
                    if a0 < i {
                        assert(key_of(before.entries[a0]) != key_of(before.entries[i as int]));
                    } else {
                        assert(key_of(before.entries[i as int]) != key_of(before.entries[a0]));
                    }
                }
                if before.has(k) && k != key_of(e) {
                    let b0 = before.index_of(k);
                    let b = if b0 < i { b0 } else { b0 - 1 };
                    assert(self.entries[b] == before.entries[b0]);
                    assert(self.has(k));
                }
            }
            assert forall|k: NsKeyView| self@.locks.dom().contains(k) implies #[trigger] self@.locks[k]
                == target[k] by {
                let a = self.index_of(k);
                let a0 = if a < i { a } else { a + 1 };
                assert(self.entries[a] == before.entries[a0]);
                before.lemma_at(a0);
                self.lemma_at(a);
            }
            assert(self@.locks =~= target);
        }
        e
    }

    fn put(&mut self, e: NsEntry)
        requires
            old(self).wf(),
            entry_wf(e),
            !old(self)@.locks.contains_key(key_of(e)),
        ensures
            final(self).wf(),
            final(self)@ == (NsMapView {
                locks: old(self)@.locks.insert(key_of(e), entry_view(e)),
                ..old(self)@
            }),
    {
        let ghost before = *self;
        self.entries.push(e);
        proof {
            let n = before.entries.len() as int;
            assert(self.entries[n] == e);
            assert forall|a: int, b: int| 0 <= a < b < self.entries.len() implies key_of(
                #[trigger] self.entries[a],
            ) != key_of(#[trigger] self.entries[b]) by {
                assert(self.entries[a] == before.entries[a]);
                if b == n {
                    assert(before.has(key_of(before.entries[a])));
                } else {
                    assert(self.entries[b] == before.entries[b]);
                }
            }
            assert forall|a: int| 0 <= a < self.entries.len() implies entry_wf(#[trigger] self.entries[a]) by {
                if a < n {
                    assert(self.entries[a] == before.entries[a]);
                }
            }
            let target = before@.locks.insert(key_of(e), entry_view(e));
            assert forall|k: NsKeyView| #[trigger] self@.locks.dom().contains(k) == target.dom().contains(k) by {
                if self.has(k) {
                    let a = self.index_of(k);
                    if a < n {
                        assert(self.entries[a] == before.entries[a]);
                        assert(before.has(k));
                    }
                }
                if before.has(k) {
                    let b = before.index_of(k);
                    assert(self.entries[b] == before.entries[b]);
                    assert(self.has(k));
                }
                if k == key_of(e) {
                    assert(self.has(k));
                }
            }
            assert forall|k: NsKeyView| self@.locks.dom().contains(k) implies #[trigger] self@.locks[k]
                == target[k] by {
                let a = self.index_of(k);
                self.lemma_at(a);
                if a < n {
                    assert(self.entries[a] == before.entries[a]);
                    before.lemma_at(a);
                }
            }
            assert(self@.locks =~= target);
        }
    }

    fn checkout(&mut self, key: &NsLockKey) -> (e: Option<NsEntry>)
        requires
            old(self).wf(),
        ensures
            final(self).wf(),
            match e {
                Some(e) => {
                    &&& key_of(e) == key@
                    &&& entry_wf(e)
                    &&& old(self)@.locks.contains_key(key@)
                    &&& old(self)@.locks[key@] == entry_view(e)
                    &&& final(self)@ == (NsMapView { locks: old(self)@.locks.remove(key@), ..old(self)@ })
                },
                None => !old(self)@.locks.contains_key(key@) && final(self)@ == old(self)@,
            },
    {
        match self.find(key) {
            None => None,
            Some(i) => Some(self.take(i)),
        }
    }

    /// Whether the map holds a lock for the key.
    pub fn contains(&self, key: &NsLockKey) -> (held: bool)
        requires
            self.wf(),
        ensures
            held == self@.locks.contains_key(key@),
    {
        self.find(key).is_some()
    }

    /// The number of callers that share the lock of the key; zero where
    /// the map holds none.
    pub fn reference(&self, key: &NsLockKey) -> (n: usize)
        requires
            self.wf(),
        ensures
            n == if self@.locks.contains_key(key@) {
                self@.locks[key@].reference
            } else {
                0
            },
    {
        match self.find(key) {
            None => 0,
            Some(i) => {
                proof {
                    self.lemma_at(i as int);
                }
                self.entries[i].reference
            },
        }
    }

    /// Lets go of the lock of `key` for one caller. The lock leaves the
    /// map with its last caller. Says whether the map held the lock.
    pub fn drop_lock(&mut self, key: &NsLockKey) -> (known: bool)
        requires
            old(self).wf(),
        ensures
            final(self).wf(),
            known == old(self)@.locks.contains_key(key@),
            final(self)@ == map_after_drop(old(self)@, key@),
    {
        let ghost m = self@;
        match self.checkout(key) {
            None => false,
            Some(e) => {
                if e.reference > 1 {
                    let e2 = NsEntry { reference: e.reference - 1, ..e };
                    self.put(e2);
                    assert(m.locks.remove(key@).insert(key@, entry_view(e2)) =~= m.locks.insert(
                        key@,
                        entry_view(e2),
                    ));
                }
                true
            },
        }
    }

    /// One attempt to take the lock of `key`, without waiting.
    pub fn try_lock(&mut self, key: &NsLockKey, lockers: &mut Vec<LockApi>, exclusive: bool) -> (r: Result<
        bool,
        NsLockError,
    >)
        requires
            old(self).wf(),
            cluster_wf(old(lockers)@),
        ensures
            final(self).wf(),
            cluster_wf(final(lockers)@),
            ({
                let m = old(self)@;
                let c = cluster_of(old(lockers)@);
                if m.locks.contains_key(key@) {
                    let l = m.locks[key@].lock;
                    &&& r == attempt_result(l.mutex, c, exclusive, l.is_dist_err)
                    &&& cluster_of(final(lockers)@) == cluster_after_attempt(
                        l.mutex,
                        c,
                        exclusive,
                        l.is_dist_err,
                    )
                    &&& final(self)@ == map_with_lock(
                        m,
                        key@,
                        NsLockView { mutex: mutex_after_attempt(l.mutex, c, exclusive, l.is_dist_err), ..l },
                    )
                } else {
                    &&& r == Err::<bool, NsLockError>(NsLockError::UnknownLock)
                    &&& cluster_of(final(lockers)@) == c
                    &&& final(self)@ == m
                }
            }),
    {
        let ghost m = self@;
        match self.checkout(key) {
            None => Err(NsLockError::UnknownLock),
            Some(e) => {
                let mut e = e;
                let r = e.lock.try_lock(lockers, exclusive);
                self.put(e);
                assert(m.locks.remove(key@).insert(key@, entry_view(e)) =~= m.locks.insert(
                    key@,
                    entry_view(e),
                ));
                r
            },
        }
    }

    /// Records that the lock of `key` was given up for. Says whether the
    /// map held the lock.
    pub fn give_up(&mut self, key: &NsLockKey) -> (known: bool)
        requires
            old(self).wf(),
        ensures
            final(self).wf(),
            known == old(self)@.locks.contains_key(key@),
            final(self)@ == if known {
                let l = old(self)@.locks[key@].lock;
                map_with_lock(
                    old(self)@,
                    key@,
                    NsLockView {
                        mutex: MutexView {
                            events: l.mutex.events.push(retry_exhausted(l.mutex.names)),
                            ..l.mutex
                        },
                        ..l
                    },
                )
            } else {
                old(self)@
            },
    {
        let ghost m = self@;
        match self.checkout(key) {
            None => false,
            Some(e) => {
                let mut e = e;
                e.lock.give_up();
                self.put(e);
                assert(m.locks.remove(key@).insert(key@, entry_view(e)) =~= m.locks.insert(
                    key@,
                    entry_view(e),
                ));
                true
            },
        }
    }

    fn get(&mut self, key: &NsLockKey, lockers: &mut Vec<LockApi>, exclusive: bool, opts: &Options) -> (r:
        Result<bool, NsLockError>)
        requires
            old(self).wf(),
            cluster_wf(old(lockers)@),
        ensures
            final(self).wf(),
            cluster_wf(final(lockers)@),
            r == map_get_result(old(self)@, key@, cluster_of(old(lockers)@), exclusive),
            cluster_of(final(lockers)@) == cluster_after_map_get(
                old(self)@,
                key@,
                cluster_of(old(lockers)@),
                exclusive,
            ),
            final(self)@ == map_after_get(old(self)@, key@, cluster_of(old(lockers)@), exclusive, *opts),
    {
        let ghost m = self@;
        match self.checkout(key) {
            None => Err(NsLockError::UnknownLock),
            Some(e) => {
                let mut e = e;
                let r = e.lock.get(lockers, exclusive, opts);
                self.put(e);
                assert(m.locks.remove(key@).insert(key@, entry_view(e)) =~= m.locks.insert(
                    key@,
                    entry_view(e),
                ));
                r
            },
        }
    }

    /// Tries for the write lock of `key` until it is obtained or the time
    /// is over. `Ok(false)` says that it was not obtained.
    pub fn get_lock(&mut self, key: &NsLockKey, lockers: &mut Vec<LockApi>, opts: &Options) -> (r: Result<
        bool,
        NsLockError,
    >)
        requires
            old(self).wf(),
            cluster_wf(old(lockers)@),
        ensures
            final(self).wf(),
            cluster_wf(final(lockers)@),
            r == map_get_result(old(self)@, key@, cluster_of(old(lockers)@), true),
            cluster_of(final(lockers)@) == cluster_after_map_get(
                old(self)@,
                key@,
                cluster_of(old(lockers)@),
                true,
            ),
            final(self)@ == map_after_get(old(self)@, key@, cluster_of(old(lockers)@), true, *opts),
    {
        self.get(key, lockers, true, opts)
    }

    /// Tries for the read lock of `key` until it is obtained or the time
    /// is over. `Ok(false)` says that it was not obtained.
    pub fn get_rlock(&mut self, key: &NsLockKey, lockers: &mut Vec<LockApi>, opts: &Options) -> (r: Result<
        bool,
        NsLockError,
    >)
        requires
            old(self).wf(),
            cluster_wf(old(lockers)@),
        ensures
            final(self).wf(),
            cluster_wf(final(lockers)@),
            r == map_get_result(old(self)@, key@, cluster_of(old(lockers)@), false),
            cluster_of(final(lockers)@) == cluster_after_map_get(
                old(self)@,
                key@,
                cluster_of(old(lockers)@),
                false,
            ),
            final(self)@ == map_after_get(old(self)@, key@, cluster_of(old(lockers)@), false, *opts),
    {
        self.get(key, lockers, false, opts)
    }

    fn unlock(&mut self, key: &NsLockKey, lockers: &mut Vec<LockApi>, exclusive: bool) -> (r: Result<
        (),
        NsLockError,
    >)
        requires
            old(self).wf(),
            cluster_wf(old(lockers)@),
        ensures
            final(self).wf(),
            cluster_wf(final(lockers)@),
            r == map_unlock_result(old(self)@, key@, cluster_of(old(lockers)@), exclusive),
            cluster_of(final(lockers)@) == cluster_after_map_unlock(
                old(self)@,
                key@,
                cluster_of(old(lockers)@),
                exclusive,
            ),
            final(self)@ == map_after_unlock(old(self)@, key@, cluster_of(old(lockers)@), exclusive),
    {
        let ghost m = self@;
        match self.checkout(key) {
            None => Err(NsLockError::UnknownLock),
            Some(e) => {
                let mut e = e;
                let r = e.lock.unlock(lockers, exclusive);
                self.put(e);
                assert(m.locks.remove(key@).insert(key@, entry_view(e)) =~= m.locks.insert(
                    key@,
                    entry_view(e),
                ));
                r
            },
        }
    }

    /// Gives the write lock of `key` back. Without one to give back it
    /// reports `NotLocked` and changes nothing.
    pub fn un_lock(&mut self, key: &NsLockKey, lockers: &mut Vec<LockApi>) -> (r: Result<(), NsLockError>)
        requires
            old(self).wf(),
            cluster_wf(old(lockers)@),
        ensures
            final(self).wf(),
            cluster_wf(final(lockers)@),
            r == map_unlock_result(old(self)@, key@, cluster_of(old(lockers)@), true),
            cluster_of(final(lockers)@) == cluster_after_map_unlock(
                old(self)@,
                key@,
                cluster_of(old(lockers)@),
                true,
            ),
            final(self)@ == map_after_unlock(old(self)@, key@, cluster_of(old(lockers)@), true),
    {
        self.unlock(key, lockers, true)
    }

    /// Gives the read lock of `key` back. Without one to give back it
    /// reports `NotLocked` and changes nothing.
    pub fn un_rlock(&mut self, key: &NsLockKey, lockers: &mut Vec<LockApi>) -> (r: Result<(), NsLockError>)
        requires
            old(self).wf(),
            cluster_wf(old(lockers)@),
        ensures
            final(self).wf(),
            cluster_wf(final(lockers)@),
            r == map_unlock_result(old(self)@, key@, cluster_of(old(lockers)@), false),
            cluster_of(final(lockers)@) == cluster_after_map_unlock(
                old(self)@,
                key@,
                cluster_of(old(lockers)@),
                false,
            ),
            final(self)@ == map_after_unlock(old(self)@, key@, cluster_of(old(lockers)@), false),
    {
        self.unlock(key, lockers, false)
    }

    /// The attempts and the milliseconds accounted as waited of the last
    /// `get_lock` or `get_rlock` on the lock of `key`.
    pub fn last_run(&self, key: &NsLockKey) -> (run: Option<(u64, u64)>)
        requires
            self.wf(),
        ensures
            match run {
                Some((attempts, waited)) => self@.locks.contains_key(key@) && attempts
                    == self@.locks[key@].lock.attempts && waited == self@.locks[key@].lock.waited,
                None => !self@.locks.contains_key(key@),
            },
    {
        match self.find(key) {
            None => None,
            Some(i) => {
                proof {
                    self.lemma_at(i as int);
                }
                Some((self.entries[i].lock.attempts(), self.entries[i].lock.waited()))
            },
        }
    }

    /// Hands out the records that the lock of `key` has made since they
    /// were last taken; none where the map holds no such lock.
    pub fn take_diagnostics(&mut self, key: &NsLockKey) -> (records: Vec<Diagnostic>)
        requires
            old(self).wf(),
        ensures
            final(self).wf(),
            ({
                let m = old(self)@;
                if m.locks.contains_key(key@) {
                    let l = m.locks[key@].lock;
                    &&& crate::diagnostics::records_of(records@) == l.mutex.events
                    &&& final(self)@ == map_with_lock(
                        m,
                        key@,
                        NsLockView { mutex: MutexView { events: Seq::empty(), ..l.mutex }, ..l },
                    )
                } else {
                    records@.len() == 0 && final(self)@ == m
                }
            }),
    {
        let ghost m = self@;
        match self.checkout(key) {
            None => Vec::new(),
            Some(e) => {
                let mut e = e;
                let records = e.lock.take_diagnostics();
                self.put(e);
                assert(m.locks.remove(key@).insert(key@, entry_view(e)) =~= m.locks.insert(
                    key@,
                    entry_view(e),
                ));
                records
            },
        }
    }
}

/// What `get_lock` and `get_rlock` of the map return.
pub open spec fn map_get_result(m: NsMapView, key: NsKeyView, c: Seq<LockerView>, exclusive: bool) -> Result<
    bool,
    NsLockError,
> {
    if m.locks.contains_key(key) {
        get_result(m.locks[key].lock, c, exclusive)
    } else {
        Err(NsLockError::UnknownLock)
    }
}

/// The cluster after `get_lock` or `get_rlock` of the map.
pub open spec fn cluster_after_map_get(
    m: NsMapView,
    key: NsKeyView,
    c: Seq<LockerView>,
    exclusive: bool,
) -> Seq<LockerView> {
    if m.locks.contains_key(key) {
        cluster_after_get(m.locks[key].lock, c, exclusive)
    } else {
        c
    }
}

/// The map after `get_lock` or `get_rlock`.
pub open spec fn map_after_get(
    m: NsMapView,
    key: NsKeyView,
    c: Seq<LockerView>,
    exclusive: bool,
    opts: Options,
) -> NsMapView {
    if m.locks.contains_key(key) {
        map_with_lock(m, key, lock_after_get(m.locks[key].lock, c, exclusive, opts))
    } else {
        m
    }
}

/// What `un_lock` and `un_rlock` of the map return.
pub open spec fn map_unlock_result(m: NsMapView, key: NsKeyView, c: Seq<LockerView>, exclusive: bool) -> Result<
    (),
    NsLockError,
> {
    if m.locks.contains_key(key) {
        unlock_result(m.locks[key].lock, c, exclusive)
    } else {
        Err(NsLockError::UnknownLock)
    }
}

/// The cluster after `un_lock` or `un_rlock` of the map.
pub open spec fn cluster_after_map_unlock(
    m: NsMapView,
    key: NsKeyView,
    c: Seq<LockerView>,
    exclusive: bool,
) -> Seq<LockerView> {
    if m.locks.contains_key(key) {
        cluster_after_release(m.locks[key].lock.mutex, c, exclusive)
    } else {
        c
    }
}

/// The map after `un_lock` or `un_rlock`.
pub open spec fn map_after_unlock(m: NsMapView, key: NsKeyView, c: Seq<LockerView>, exclusive: bool) -> NsMapView {
    if m.locks.contains_key(key) {
        map_with_lock(m, key, lock_after_unlock(m.locks[key].lock, c, exclusive))
    } else {
        m
    }
}

/// Looks up the namespace lock over `paths` in `volume`, or makes it for a
/// cluster of `lockers` lockers, and counts one more caller for it. The
/// key that is returned finds the lock in the map.
pub fn new_nslock(map: &mut NsLockMap, owner: String, volume: String, paths: Vec<String>, lockers: usize) -> (key:
    NsLockKey)
    requires
        old(map).wf(),
    ensures
        final(map).wf(),
        key@ == (NsKeyView { volume: volume@, paths: names_of(paths@) }),
        final(map)@ == map_after_new(old(map)@, owner@, key@, lockers as nat),
{
    let ghost m = map@;
    let key = NsLockKey { volume, paths };
    match map.checkout(&key) {
        Some(e) => {
            let reference = if e.reference == usize::MAX {
                e.reference
            } else {
                e.reference + 1
            };
            let e2 = NsEntry { reference, ..e };
            map.put(e2);
            assert(m.locks.remove(key@).insert(key@, entry_view(e2)) =~= m.locks.insert(
                key@,
                entry_view(e2),
            ));
        },
        None => {
            let ops_id = owner.clone().concat(":").concat(to_decimal(map.next_id).as_str());
            let names = join_names(&key.volume, &key.paths);
            let mutex = DRWMutex::new(owner, ops_id, names, lockers, majority(lockers));
            let lock = NsLock::new(mutex, map.is_dist_err);
            let e = NsEntry {
                volume: key.volume.clone(),
                paths: clone_names(&key.paths),
                reference: 1,
                lock,
            };
            map.put(e);
            let ghost mid = map@;
            map.next_id = if map.next_id == u64::MAX {
                0
            } else {
                map.next_id + 1
            };
            assert(map@.locks =~= mid.locks);
        },
    }
    key
}

} // verus!
