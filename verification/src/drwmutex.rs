//! The distributed read-write mutex: it asks every locker of the cluster
//! for a grant, holds the lock once a quorum of them agreed, and gives
//! back what it was granted when the quorum is missed.

use crate::diagnostics::{quorum_failure, records_of, release_failure, Diagnostic, DiagnosticView};
use crate::local_locker::{lemma_unlock_all_undoes_lock_all, table_wf};
use crate::lock_api::{cluster_of, cluster_wf, grants, locker_after, times_out, LockApi, LockerView};
use crate::lock_args::{clone_names, names_of, LockArgs, LockArgsView};
use crate::lock_service::{LockError, LockOp};
use crate::quorum::{check_quorum, count_grants, count_true};
use crate::text::{decimal, to_decimal};
use vstd::prelude::*;
use vstd::string::StringExecFns;

verus! {

/// How long to try for a lock, and how long to wait between two attempts,
/// both in milliseconds.
#[derive(Clone, Copy, Debug, PartialEq, Eq, Structural)]
pub struct Options {
    pub timeout: u64,
    pub retry_interval: u64,
}

/// The operation that asks for a lock in the given mode.
pub open spec fn lock_op(exclusive: bool) -> LockOp {
    if exclusive {
        LockOp::Lock
    } else {
        LockOp::RLock
    }
}

/// The operation that gives back a lock of the given mode.
pub open spec fn unlock_op(exclusive: bool) -> LockOp {
    if exclusive {
        LockOp::Unlock
    } else {
        LockOp::RUnlock
    }
}

/// The request id of the attempt number `seq` of the mutex `ops_id`.
pub open spec fn uid_text(ops_id: Seq<char>, seq: u64) -> Seq<char> {
    ops_id + "-"@ + decimal(seq as nat)
}

/// The number of the attempt after `seq`.
pub open spec fn next_seq(seq: u64) -> u64 {
    if seq == u64::MAX {
        0
    } else {
        (seq + 1) as u64
    }
}

/// A lock that the mutex holds: the request id it was granted under and,
/// for each locker, whether that locker granted it.
pub struct HeldView {
    pub uid: Seq<char>,
    pub granted: Seq<bool>,
}

/// The mutex as the mathematics sees it.
pub struct MutexView {
    pub owner: Seq<char>,
    pub ops_id: Seq<char>,
    pub names: Seq<Seq<char>>,
    pub quorum: nat,
    pub lockers: nat,
    pub seq: u64,
    pub write: Option<HeldView>,
    pub read: Option<HeldView>,
    pub events: Seq<DiagnosticView>,
}

impl MutexView {
    /// The lock held in the given mode, if any.
    pub open spec fn held(self, exclusive: bool) -> Option<HeldView> {
        if exclusive {
            self.write
        } else {
            self.read
        }
    }

    pub open spec fn with_held(self, exclusive: bool, h: Option<HeldView>) -> MutexView {
        if exclusive {
            MutexView { write: h, ..self }
        } else {
            MutexView { read: h, ..self }
        }
    }

    /// The request that the mutex sends under the request id `uid`.
    pub open spec fn args(self, uid: Seq<char>) -> LockArgsView {
        LockArgsView {
            uid,
            resources: self.names,
            owner: self.owner,
            source: Seq::empty(),
            quorum: self.quorum,
        }
    }

    /// The request of the next attempt.
    pub open spec fn attempt_args(self) -> LockArgsView {
        self.args(uid_text(self.ops_id, self.seq))
    }
}

/// For each locker, whether it grants the request.
pub open spec fn replies(c: Seq<LockerView>, op: LockOp, a: LockArgsView) -> Seq<bool> {
    Seq::new(c.len(), |i: int| grants(c[i], op, a))
}

/// The cluster after every locker was sent the request.
pub open spec fn cluster_after(c: Seq<LockerView>, op: LockOp, a: LockArgsView) -> Seq<LockerView> {
    Seq::new(c.len(), |i: int| locker_after(c[i], op, a))
}

/// The cluster after the lockers marked in `chosen` were sent the request.
pub open spec fn cluster_after_some(
    c: Seq<LockerView>,
    chosen: Seq<bool>,
    op: LockOp,
    a: LockArgsView,
) -> Seq<LockerView> {
    Seq::new(
        c.len(),
        |i: int|
            if chosen[i] {
                locker_after(c[i], op, a)
            } else {
                c[i]
            },
    )
}

/// An attempt is made with one answer from each locker, by a mutex that
/// does not hold the lock in that mode yet.
pub open spec fn may_settle(m: MutexView, exclusive: bool, answers: Seq<bool>) -> bool {
    answers.len() == m.lockers && m.held(exclusive) is None
}

/// The attempt succeeds if the grants among the answers are at least
/// `needed`.
pub open spec fn settles_with(m: MutexView, exclusive: bool, answers: Seq<bool>, needed: nat) -> bool {
    may_settle(m, exclusive, answers) && count_true(answers) >= needed
}

/// The mutex after an attempt with the given grants: it holds the lock,
/// or it has recorded that too few lockers granted it and how many of
/// them did not answer.
pub open spec fn mutex_after_settle_with(
    m: MutexView,
    exclusive: bool,
    answers: Seq<bool>,
    needed: nat,
    unanswered: nat,
) -> MutexView {
    if !may_settle(m, exclusive, answers) {
        m
    } else if settles_with(m, exclusive, answers, needed) {
        MutexView { seq: next_seq(m.seq), ..m }.with_held(
            exclusive,
            Some(HeldView { uid: uid_text(m.ops_id, m.seq), granted: answers }),
        )
    } else {
        MutexView {
            seq: next_seq(m.seq),
            events: m.events.push(quorum_failure(m.names, unanswered)),
            ..m
        }
    }
}

/// For each answer, whether it is a grant.
pub open spec fn grants_in(answers: Seq<Result<bool, LockError>>) -> Seq<bool> {
    Seq::new(answers.len(), |i: int| answers[i] == Ok::<bool, LockError>(true))
}

/// For each answer, whether it is a time-out.
pub open spec fn silent_in(answers: Seq<Result<bool, LockError>>) -> Seq<bool> {
    Seq::new(answers.len(), |i: int| answers[i] == Err::<bool, LockError>(LockError::Timeout))
}

/// The attempt succeeds if the grants among the answers reach the quorum.
pub open spec fn settles(m: MutexView, exclusive: bool, answers: Seq<bool>) -> bool {
    settles_with(m, exclusive, answers, m.quorum)
}

/// The mutex after an attempt that needs the quorum, with the answers that
/// the lockers gave.
pub open spec fn mutex_after_settle(
    m: MutexView,
    exclusive: bool,
    answers: Seq<Result<bool, LockError>>,
) -> MutexView {
    mutex_after_settle_with(m, exclusive, grants_in(answers), m.quorum, count_true(silent_in(answers)))
}

/// For each locker, whether it does not answer the request in time.
pub open spec fn silent(c: Seq<LockerView>, op: LockOp, a: LockArgsView) -> Seq<bool> {
    Seq::new(c.len(), |i: int| times_out(c[i], op, a))
}

/// For each locker, whether it is the node's own and does not answer the
/// request in time.
pub open spec fn local_silent(c: Seq<LockerView>, op: LockOp, a: LockArgsView) -> Seq<bool> {
    Seq::new(c.len(), |i: int| c[i].local && times_out(c[i], op, a))
}

/// For each locker, whether it is marked in `chosen` and does not answer
/// the request in time.
pub open spec fn chosen_silent(
    c: Seq<LockerView>,
    chosen: Seq<bool>,
    op: LockOp,
    a: LockArgsView,
) -> Seq<bool> {
    Seq::new(c.len(), |i: int| chosen[i] && times_out(c[i], op, a))
}

/// The answers of the lockers marked in `mask`, and `false` for the
/// others.
pub open spec fn masked(mask: Seq<bool>, answers: Seq<bool>) -> Seq<bool> {
    Seq::new(answers.len(), |i: int| mask[i] && answers[i])
}

/// What a lock without the cluster needs where `locals` marks the node's
/// own lockers: every one of them, and at least one.
pub open spec fn quorum_of_locals(locals: Seq<bool>) -> nat {
    if count_true(locals) == 0 {
        1
    } else {
        count_true(locals)
    }
}

/// Whether an attempt without the cluster succeeds with the given answers.
/// It needs one mark and one answer for each locker.
pub open spec fn settles_locally(
    m: MutexView,
    exclusive: bool,
    answers: Seq<Result<bool, LockError>>,
    locals: Seq<bool>,
) -> bool {
    locals.len() == answers.len() && settles_with(
        m,
        exclusive,
        masked(locals, grants_in(answers)),
        quorum_of_locals(locals),
    )
}

/// The mutex after an attempt without the cluster with the given answers.
pub open spec fn mutex_after_local_settle(
    m: MutexView,
    exclusive: bool,
    answers: Seq<Result<bool, LockError>>,
    locals: Seq<bool>,
) -> MutexView {
    if locals.len() == answers.len() {
        mutex_after_settle_with(
            m,
            exclusive,
            masked(locals, grants_in(answers)),
            quorum_of_locals(locals),
            count_true(masked(locals, silent_in(answers))),
        )
    } else {
        m
    }
}

/// For each locker, whether it is the node's own.
pub open spec fn local_mask(c: Seq<LockerView>) -> Seq<bool> {
    Seq::new(c.len(), |i: int| c[i].local)
}

/// For each locker, whether it is the node's own and grants the request.
pub open spec fn local_replies(c: Seq<LockerView>, op: LockOp, a: LockArgsView) -> Seq<bool> {
    Seq::new(c.len(), |i: int| c[i].local && grants(c[i], op, a))
}

/// What a lock without the cluster needs: every locker of this node, and
/// at least one.
pub open spec fn local_quorum(c: Seq<LockerView>) -> nat {
    if count_true(local_mask(c)) == 0 {
        1
    } else {
        count_true(local_mask(c))
    }
}

/// Whether an attempt that asks the node's own lockers only succeeds.
pub open spec fn acquires_locally(m: MutexView, c: Seq<LockerView>, exclusive: bool) -> bool {
    settles_with(m, exclusive, local_replies(c, lock_op(exclusive), m.attempt_args()), local_quorum(c))
}

/// The cluster after an attempt that asks the node's own lockers only.
pub open spec fn cluster_after_local_acquire(m: MutexView, c: Seq<LockerView>, exclusive: bool) -> Seq<
    LockerView,
> {
    if acquires_locally(m, c, exclusive) {
        cluster_after_some(c, local_mask(c), lock_op(exclusive), m.attempt_args())
    } else {
        c
    }
}

/// The mutex after an attempt that asks the node's own lockers only.
pub open spec fn mutex_after_local_acquire(m: MutexView, c: Seq<LockerView>, exclusive: bool) -> MutexView {
    mutex_after_settle_with(
        m,
        exclusive,
        local_replies(c, lock_op(exclusive), m.attempt_args()),
        local_quorum(c),
        count_true(local_silent(c, lock_op(exclusive), m.attempt_args())),
    )
}

/// The mutex after an attempt on the whole cluster.
pub open spec fn mutex_after_acquire(m: MutexView, c: Seq<LockerView>, exclusive: bool) -> MutexView {
    mutex_after_settle_with(
        m,
        exclusive,
        replies(c, lock_op(exclusive), m.attempt_args()),
        m.quorum,
        count_true(silent(c, lock_op(exclusive), m.attempt_args())),
    )
}

/// Whether an attempt of the mutex on the cluster succeeds.
pub open spec fn acquires(m: MutexView, c: Seq<LockerView>, exclusive: bool) -> bool {
    settles(m, exclusive, replies(c, lock_op(exclusive), m.attempt_args()))
}

/// The cluster after an attempt: with the grants where it succeeded, and
/// as it was before where it did not.
pub open spec fn cluster_after_acquire(m: MutexView, c: Seq<LockerView>, exclusive: bool) -> Seq<
    LockerView,
> {
    if acquires(m, c, exclusive) {
        cluster_after(c, lock_op(exclusive), m.attempt_args())
    } else {
        c
    }
}

/// A release is made by a mutex that holds the lock in that mode, with
/// one confirmation from each locker.
pub open spec fn may_release(m: MutexView, exclusive: bool, lockers: nat) -> bool {
    lockers == m.lockers && m.held(exclusive) is Some
}

/// Some locker that had granted the lock did not confirm the release.
pub open spec fn release_incomplete(granted: Seq<bool>, confirmed: Seq<bool>) -> bool {
    exists|i: int| 0 <= i < granted.len() && #[trigger] granted[i] && !confirmed[i]
}

/// The mutex after a release with the given confirmations: it holds the
/// lock no longer, whatever the lockers said. Where a locker that had
/// granted did not confirm, that is recorded, with the number of lockers
/// that did not answer.
pub open spec fn mutex_after_release_with(
    m: MutexView,
    exclusive: bool,
    confirmed: Seq<bool>,
    unanswered: nat,
) -> MutexView {
    if !may_release(m, exclusive, confirmed.len()) {
        m
    } else if release_incomplete(m.held(exclusive)->0.granted, confirmed) {
        MutexView { events: m.events.push(release_failure(m.names, unanswered)), ..m }.with_held(
            exclusive,
            None,
        )
    } else {
        m.with_held(exclusive, None)
    }
}

/// For each locker, whether it had granted the lock and its answer to the
/// release is a time-out.
pub open spec fn held_silent_in(granted: Seq<bool>, answers: Seq<Result<bool, LockError>>) -> Seq<bool> {
    Seq::new(
        answers.len(),
        |i: int| granted[i] && answers[i] == Err::<bool, LockError>(LockError::Timeout),
    )
}

/// The mutex after a release with the answers that the lockers gave. The
/// answers of lockers that had not granted the lock count for nothing.
pub open spec fn mutex_after_release(
    m: MutexView,
    exclusive: bool,
    answers: Seq<Result<bool, LockError>>,
) -> MutexView {
    if may_release(m, exclusive, answers.len()) {
        mutex_after_release_with(
            m,
            exclusive,
            grants_in(answers),
            count_true(held_silent_in(m.held(exclusive)->0.granted, answers)),
        )
    } else {
        m
    }
}

/// The mutex after it released its lock on the cluster.
pub open spec fn mutex_after_release_on(m: MutexView, c: Seq<LockerView>, exclusive: bool) -> MutexView {
    if may_release(m, exclusive, c.len()) {
        let h = m.held(exclusive)->0;
        mutex_after_release_with(
            m,
            exclusive,
            replies(c, unlock_op(exclusive), m.args(h.uid)),
            count_true(chosen_silent(c, h.granted, unlock_op(exclusive), m.args(h.uid))),
        )
    } else {
        m
    }
}

/// The cluster after the mutex released its lock.
pub open spec fn cluster_after_release(m: MutexView, c: Seq<LockerView>, exclusive: bool) -> Seq<
    LockerView,
> {
    if may_release(m, exclusive, c.len()) {
        let h = m.held(exclusive)->0;
        cluster_after_some(c, h.granted, unlock_op(exclusive), m.args(h.uid))
    } else {
        c
    }
}

/// A locker that granted a request is, after the matching release, as it
/// was before; a locker that did not grant it was not changed by it.
pub proof fn lemma_rollback(l: LockerView, exclusive: bool, a: LockArgsView)
    requires
        table_wf(l.service.table),
    ensures
        grants(l, lock_op(exclusive), a) ==> grants(
            locker_after(l, lock_op(exclusive), a),
            unlock_op(exclusive),
            a,
        ) && locker_after(locker_after(l, lock_op(exclusive), a), unlock_op(exclusive), a) == l,
        !grants(l, lock_op(exclusive), a) ==> locker_after(l, lock_op(exclusive), a) == l,
{
    if grants(l, lock_op(exclusive), a) {
        lemma_unlock_all_undoes_lock_all(
            l.service.table,
            a.resources,
            crate::local_locker::holder_of(a),
            exclusive,
        );
    }
}

struct Held {
    uid: String,
    granted: Vec<bool>,
}

impl View for Held {
    type V = HeldView;

    closed spec fn view(&self) -> HeldView {
        HeldView { uid: self.uid@, granted: self.granted@ }
    }
}

spec fn held_view(h: Option<Held>) -> Option<HeldView> {
    match h {
        Some(h) => Some(h@),
        None => None,
    }
}

/// The distributed read-write mutex over one set of resources.
pub struct DRWMutex {
    owner: String,
    ops_id: String,
    names: Vec<String>,
    quorum: usize,
    lockers: usize,
    seq: u64,
    write: Option<Held>,
    read: Option<Held>,
    events: Vec<Diagnostic>,
}

impl View for DRWMutex {
    type V = MutexView;

    closed spec fn view(&self) -> MutexView {
        MutexView {
            owner: self.owner@,
            ops_id: self.ops_id@,
            names: names_of(self.names@),
            quorum: self.quorum as nat,
            lockers: self.lockers as nat,
            seq: self.seq,
            write: held_view(self.write),
            read: held_view(self.read),
            events: records_of(self.events@),
        }
    }
}

fn copy_answers(v: &Vec<bool>) -> (out: Vec<bool>)
    ensures
        out@ == v@,
{
    let mut out: Vec<bool> = Vec::new();
    let mut i: usize = 0;
    while i < v.len()
        invariant
            i <= v.len(),
            out@ == v@.take(i as int),
        decreases v.len() - i,
    {
        out.push(v[i]);
        assert(v@.take(i as int).push(v@[i as int]) =~= v@.take(i as int + 1));
        i += 1;
    }
    assert(v@.take(v.len() as int) =~= v@);
    out
}

/// For each answer, whether it is a grant.
pub fn grants_of(answers: &Vec<Result<bool, LockError>>) -> (out: Vec<bool>)
    ensures
        out@ == grants_in(answers@),
{
    let mut out: Vec<bool> = Vec::new();
    let mut i: usize = 0;
    while i < answers.len()
        invariant
            i <= answers.len(),
            out.len() == i,
            forall|j: int| 0 <= j < i ==> #[trigger] out@[j] == grants_in(answers@)[j],
        decreases answers.len() - i,
    {
        let g = match answers[i] {
            Ok(b) => b,
            Err(_) => false,
        };
        out.push(g);
        i += 1;
    }
    assert(out@ =~= grants_in(answers@));
    out
}

/// For each answer, whether it is a time-out.
pub fn silent_of(answers: &Vec<Result<bool, LockError>>) -> (out: Vec<bool>)
    ensures
        out@ == silent_in(answers@),
{
    let mut out: Vec<bool> = Vec::new();
    let mut i: usize = 0;
    while i < answers.len()
        invariant
            i <= answers.len(),
            out.len() == i,
            forall|j: int| 0 <= j < i ==> #[trigger] out@[j] == silent_in(answers@)[j],
        decreases answers.len() - i,
    {
        let t = match answers[i] {
            Err(LockError::Timeout) => true,
            _ => false,
        };
        out.push(t);
        i += 1;
    }
    assert(out@ =~= silent_in(answers@));
    out
}

/// The lockers that are owed a release: those marked in `granted`, in
/// their order.
pub fn owed_releases(granted: &Vec<bool>) -> (targets: Vec<usize>)
    ensures
        forall|k: int| 0 <= k < targets.len() ==> (#[trigger] targets@[k]) < granted.len() && granted@[targets@[k] as int],
        forall|k: int, l: int| 0 <= k < l < targets.len() ==> targets@[k] < targets@[l],
        forall|i: int| 0 <= i < granted.len() && granted@[i] ==> targets@.contains(i as usize),
{
    let mut targets: Vec<usize> = Vec::new();
    let mut i: usize = 0;
    while i < granted.len()
        invariant
            i <= granted.len(),
            forall|k: int| 0 <= k < targets.len() ==> (#[trigger] targets@[k]) < i && granted@[targets@[k] as int],
            forall|k: int, l: int| 0 <= k < l < targets.len() ==> targets@[k] < targets@[l],
            forall|j: int| 0 <= j < i && granted@[j] ==> targets@.contains(j as usize),
        decreases granted.len() - i,
    {
        if granted[i] {
            let ghost before = targets@;
            targets.push(i);
            proof {
                assert(targets@[targets.len() - 1] == i);
                assert forall|j: int| 0 <= j < i + 1 && granted@[j] implies targets@.contains(j as usize) by {
                    if j < i {
                        let k = choose|k: int| 0 <= k < before.len() && before[k] == j as usize;
                        assert(targets@[k] == j as usize);
                    }
                }
            }
        }
        i += 1;
    }
    targets
}

impl DRWMutex {
    /// A lock that is held has one answer from each locker.
    pub closed spec fn wf(&self) -> bool {
        &&& self.write matches Some(h) ==> h.granted.len() == self.lockers
        &&& self.read matches Some(h) ==> h.granted.len() == self.lockers
    }

    /// What the invariant says of the view.
    pub proof fn lemma_view_wf(&self)
        requires
            self.wf(),
        ensures
            self@.write matches Some(h) ==> h.granted.len() == self@.lockers,
            self@.read matches Some(h) ==> h.granted.len() == self@.lockers,
    {
    }

    /// A mutex of `owner` over the resources `names`, for a cluster of
    /// `lockers` lockers of which `quorum` have to agree. `ops_id` tells
    /// this mutex from the others of the same owner. It holds nothing.
    pub fn new(owner: String, ops_id: String, names: Vec<String>, lockers: usize, quorum: usize) -> (m:
        DRWMutex)
        ensures
            m.wf(),
            m@ == (MutexView {
                owner: owner@,
                ops_id: ops_id@,
                names: names_of(names@),
                quorum: quorum as nat,
                lockers: lockers as nat,
                seq: 0,
                write: None,
                read: None,
                events: Seq::empty(),
            }),
    {
        let m = DRWMutex {
            owner,
            ops_id,
            names,
            quorum,
            lockers,
            seq: 0,
            write: None,
            read: None,
            events: Vec::new(),
        };
        assert(m@.events =~= Seq::empty());
        m
    }

    /// The number of grants that the mutex needs.
    pub fn quorum(&self) -> (q: usize)
        ensures
            q == self@.quorum,
    {
        self.quorum
    }

    /// The number of lockers of the cluster.
    pub fn lockers(&self) -> (n: usize)
        ensures
            n == self@.lockers,
    {
        self.lockers
    }

    /// The resources that the mutex locks.
    pub fn names(&self) -> (names: &Vec<String>)
        ensures
            names_of(names@) == self@.names,
    {
        &self.names
    }

    /// Whether the mutex holds the lock in the given mode.
    pub fn is_held(&self, exclusive: bool) -> (held: bool)
        ensures
            held == (self@.held(exclusive) is Some),
    {
        if exclusive {
            self.write.is_some()
        } else {
            self.read.is_some()
        }
    }

    /// For each locker, whether the lock held in the given mode was
    /// granted by it; empty where none is held.
    pub fn held_lockers(&self, exclusive: bool) -> (granted: Vec<bool>)
        ensures
            granted@ == match self@.held(exclusive) {
                Some(h) => h.granted,
                None => Seq::empty(),
            },
    {
        let held = if exclusive {
            &self.write
        } else {
            &self.read
        };
        match held {
            Some(h) => copy_answers(&h.granted),
            None => Vec::new(),
        }
    }

    fn request(&self, uid: String) -> (args: LockArgs)
        ensures
            args@ == self@.args(uid@),
    {
        LockArgs {
            uid,
            resources: clone_names(&self.names),
            owner: self.owner.clone(),
            source: String::new(),
            quorum: self.quorum,
        }
    }

    /// The request of the next attempt: the same for every locker, under
    /// the request id of that attempt.
    pub fn attempt_args(&self) -> (args: LockArgs)
        ensures
            args@ == self@.attempt_args(),
    {
        let uid = self.ops_id.clone().concat("-").concat(to_decimal(self.seq).as_str());
        self.request(uid)
    }

    /// The request that gives back the lock held in the given mode, if one
    /// is held.
    pub fn release_args(&self, exclusive: bool) -> (args: Option<LockArgs>)
        ensures
            match self@.held(exclusive) {
                Some(h) => args matches Some(a) && a@ == self@.args(h.uid),
                None => args is None,
            },
    {
        let held = if exclusive {
            &self.write
        } else {
            &self.read
        };
        match held {
            Some(h) => Some(self.request(h.uid.clone())),
            None => None,
        }
    }

    fn settle(&mut self, exclusive: bool, answers: &Vec<bool>, needed: usize, unanswered: usize) -> (acquired:
        bool)
        requires
            old(self).wf(),
        ensures
            final(self).wf(),
            acquired == settles_with(old(self)@, exclusive, answers@, needed as nat),
            final(self)@ == mutex_after_settle_with(
                old(self)@,
                exclusive,
                answers@,
                needed as nat,
                unanswered as nat,
            ),
    {
        if answers.len() != self.lockers || self.is_held(exclusive) {
            return false;
        }
        let uid = self.ops_id.clone().concat("-").concat(to_decimal(self.seq).as_str());
        let acquired = check_quorum(answers, needed);
        self.seq = if self.seq == u64::MAX {
            0
        } else {
            self.seq + 1
        };
        if acquired {
            let held = Some(Held { uid, granted: copy_answers(answers) });
            if exclusive {
                self.write = held;
            } else {
                self.read = held;
            }
        } else {
            let ghost before = records_of(self.events@);
            let d = Diagnostic::quorum_failure(&self.names, unanswered);
            self.events.push(d);
            assert(records_of(self.events@) =~= before.push(
                quorum_failure(names_of(self.names@), unanswered as nat),
            ));
        }
        acquired
    }

    /// Decides an attempt from the answers of the lockers to the request of
    /// `attempt_args`: with a quorum of grants the mutex holds the lock,
    /// else it records the failure and how many lockers did not answer, and
    /// whoever sent the requests owes a release to each locker that
    /// granted.
    pub fn settle_acquire(&mut self, exclusive: bool, answers: &Vec<Result<bool, LockError>>) -> (acquired:
        bool)
        requires
            old(self).wf(),
        ensures
            final(self).wf(),
            acquired == settles(old(self)@, exclusive, grants_in(answers@)),
            final(self)@ == mutex_after_settle(old(self)@, exclusive, answers@),
    {
        let needed = self.quorum;
        let granted = grants_of(answers);
        let unanswered = count_grants(&silent_of(answers));
        self.settle(exclusive, &granted, needed, unanswered)
    }

    /// Decides an attempt without the cluster from the answers of the
    /// lockers: only those of the node's own lockers, which `locals`
    /// marks, are read. The mutex holds the lock if each of them, and at
    /// least one, granted it.
    pub fn settle_acquire_local(
        &mut self,
        exclusive: bool,
        answers: &Vec<Result<bool, LockError>>,
        locals: &Vec<bool>,
    ) -> (acquired: bool)
        requires
            old(self).wf(),
        ensures
            final(self).wf(),
            acquired == settles_locally(old(self)@, exclusive, answers@, locals@),
            final(self)@ == mutex_after_local_settle(old(self)@, exclusive, answers@, locals@),
    {
        if locals.len() != answers.len() {
            return false;
        }
        let all = grants_of(answers);
        let quiet_all = silent_of(answers);
        let mut granted: Vec<bool> = Vec::new();
        let mut quiet: Vec<bool> = Vec::new();
        let mut i: usize = 0;
        while i < answers.len()
            invariant
                i <= answers.len(),
                locals.len() == answers.len(),
                all@ == grants_in(answers@),
                quiet_all@ == silent_in(answers@),
                granted.len() == i,
                quiet.len() == i,
                forall|j: int| 0 <= j < i ==> #[trigger] granted@[j] == (locals@[j] && all@[j]),
                forall|j: int| 0 <= j < i ==> #[trigger] quiet@[j] == (locals@[j] && quiet_all@[j]),
            decreases answers.len() - i,
        {
            granted.push(locals[i] && all[i]);
            quiet.push(locals[i] && quiet_all[i]);
            i += 1;
        }
        assert(granted@ =~= masked(locals@, grants_in(answers@)));
        assert(quiet@ =~= masked(locals@, silent_in(answers@)));
        let k = count_grants(locals);
        let needed = if k == 0 {
            1
        } else {
            k
        };
        let unanswered = count_grants(&quiet);
        self.settle(exclusive, &granted, needed, unanswered)
    }

    /// Adds a record to those that the mutex keeps for the operator.
    pub fn record(&mut self, d: Diagnostic)
        requires
            old(self).wf(),
        ensures
            final(self).wf(),
            final(self)@ == (MutexView { events: old(self)@.events.push(d@), ..old(self)@ }),
    {
        let ghost before = records_of(self.events@);
        self.events.push(d);
        assert(records_of(self.events@) =~= before.push(d@));
    }

    fn finish_release(&mut self, exclusive: bool, confirmed: &Vec<bool>, unanswered: usize) -> (released:
        bool)
        requires
            old(self).wf(),
        ensures
            final(self).wf(),
            released == may_release(old(self)@, exclusive, confirmed@.len()),
            final(self)@ == mutex_after_release_with(old(self)@, exclusive, confirmed@, unanswered as nat),
    {
        if confirmed.len() != self.lockers || !self.is_held(exclusive) {
            return false;
        }
        let held = if exclusive {
            self.write.take()
        } else {
            self.read.take()
        };
        match held {
            None => false,
            Some(h) => {
                let mut incomplete = false;
                let mut i: usize = 0;
                while i < confirmed.len()
                    invariant
                        i <= confirmed.len(),
                        h.granted.len() == confirmed.len(),
                        incomplete == exists|j: int|
                            0 <= j < i && #[trigger] h.granted@[j] && !confirmed@[j],
                    decreases confirmed.len() - i,
                {
                    if h.granted[i] && !confirmed[i] {
                        incomplete = true;
                    }
                    i += 1;
                }
                if incomplete {
                    let ghost before = records_of(self.events@);
                    let d = Diagnostic::release_failure(&self.names, unanswered);
                    self.events.push(d);
                    assert(records_of(self.events@) =~= before.push(
                        release_failure(names_of(self.names@), unanswered as nat),
                    ));
                }
                true
            },
        }
    }

    /// Ends the hold of the given mode from the answers of the lockers to
    /// the request of `release_args`. The lock is given up whatever they
    /// said; where a locker that had granted did not confirm, that is
    /// recorded with the number of those that did not answer. The answers
    /// of lockers that had not granted are not read.
    pub fn settle_release(&mut self, exclusive: bool, answers: &Vec<Result<bool, LockError>>) -> (released:
        bool)
        requires
            old(self).wf(),
        ensures
            final(self).wf(),
            released == may_release(old(self)@, exclusive, answers@.len()),
            final(self)@ == mutex_after_release(old(self)@, exclusive, answers@),
    {
        if answers.len() != self.lockers || !self.is_held(exclusive) {
            return false;
        }
        proof {
            self.lemma_view_wf();
        }
        let granted = self.held_lockers(exclusive);
        let confirmed = grants_of(answers);
        let mut mask: Vec<bool> = Vec::new();
        let mut i: usize = 0;
        while i < answers.len()
            invariant
                i <= answers.len(),
                granted.len() == answers.len(),
                mask.len() == i,
                forall|j: int| 0 <= j < i ==> #[trigger] mask@[j] == held_silent_in(granted@, answers@)[j],
            decreases answers.len() - i,
        {
            let t = match answers[i] {
                Err(LockError::Timeout) => granted[i],
                _ => false,
            };
            mask.push(t);
            i += 1;
        }
        assert(mask@ =~= held_silent_in(granted@, answers@));
        let unanswered = count_grants(&mask);
        self.finish_release(exclusive, &confirmed, unanswered)
    }

    fn attempt(&mut self, lockers: &mut Vec<LockApi>, exclusive: bool, local_only: bool) -> (granted: bool)
        requires
            old(self).wf(),
            cluster_wf(old(lockers)@),
        ensures
            final(self).wf(),
            cluster_wf(final(lockers)@),
            ({
                let m = old(self)@;
                let c = cluster_of(old(lockers)@);
                let op = lock_op(exclusive);
                let a = m.attempt_args();
                if local_only {
                    &&& granted == acquires_locally(m, c, exclusive)
                    &&& cluster_of(final(lockers)@) == cluster_after_local_acquire(m, c, exclusive)
                    &&& final(self)@ == mutex_after_local_acquire(m, c, exclusive)
                } else {
                    &&& granted == acquires(m, c, exclusive)
                    &&& cluster_of(final(lockers)@) == cluster_after_acquire(m, c, exclusive)
                    &&& final(self)@ == mutex_after_acquire(m, c, exclusive)
                }
            }),
    {
        let n = lockers.len();
        let ghost c = cluster_of(lockers@);
        if n != self.lockers || self.is_held(exclusive) {
            assert(cluster_of(lockers@) =~= c);
            return false;
        }
        let args = self.attempt_args();
        let ghost a = args@;
        let op = if exclusive {
            LockOp::Lock
        } else {
            LockOp::RLock
        };
        proof {
            assert forall|j: int| 0 <= j < n implies table_wf(#[trigger] c[j].service.table) by {
                lockers@[j].lemma_view_wf();
            }
        }
        let mut answers: Vec<bool> = Vec::new();
        let mut quiet: Vec<bool> = Vec::new();
        let mut locals: Vec<bool> = Vec::new();
        let mut i: usize = 0;
        while i < n
            invariant
                i <= n,
                lockers.len() == n,
                c.len() == n,
                cluster_wf(lockers@),
                a == args@,
                answers.len() == i,
                quiet.len() == i,
                locals.len() == i,
                forall|j: int| 0 <= j < i ==> #[trigger] locals@[j] == c[j].local,
                forall|j: int|
                    0 <= j < i ==> #[trigger] quiet@[j] == ((!local_only || c[j].local) && times_out(
                        c[j],
                        op,
                        a,
                    )),
                forall|j: int|
                    0 <= j < i ==> #[trigger] answers@[j] == ((!local_only || c[j].local) && grants(
                        c[j],
                        op,
                        a,
                    )),
                forall|j: int|
                    0 <= j < i ==> (#[trigger] lockers@[j])@ == if !local_only || c[j].local {
                        locker_after(c[j], op, a)
                    } else {
                        c[j]
                    },
                forall|j: int| i <= j < n ==> (#[trigger] lockers@[j])@ == c[j],
            decreases n - i,
        {
            assert(lockers@[i as int]@ == c[i as int]);
            let local = lockers[i].is_local();
            locals.push(local);
            if !local_only || local {
                let r = lockers[i].call(op, &args);
                let g = match r {
                    Ok(b) => b,
                    Err(_) => false,
                };
                let t = match r {
                    Err(LockError::Timeout) => true,
                    _ => false,
                };
                answers.push(g);
                quiet.push(t);
            } else {
                answers.push(false);
                quiet.push(false);
            }
            i += 1;
        }
        assert(locals@ =~= local_mask(c));
        let needed = if local_only {
            let k = crate::quorum::count_grants(&locals);
            if k == 0 {
                1
            } else {
                k
            }
        } else {
            self.quorum
        };
        proof {
            if local_only {
                assert(answers@ =~= local_replies(c, op, a));
                assert(quiet@ =~= local_silent(c, op, a));
            } else {
                assert(answers@ =~= replies(c, op, a));
                assert(quiet@ =~= silent(c, op, a));
            }
        }
        let unanswered = count_grants(&quiet);
        let acquired = self.settle(exclusive, &answers, needed, unanswered);
        if acquired {
            proof {
                if local_only {
                    assert(cluster_of(lockers@) =~= cluster_after_some(c, local_mask(c), op, a));
                } else {
                    assert(cluster_of(lockers@) =~= cluster_after(c, op, a));
                }
            }
            return true;
        }
        let undo = if exclusive {
            LockOp::Unlock
        } else {
            LockOp::RUnlock
        };
        i = 0;
        while i < n
            invariant
                i <= n,
                lockers.len() == n,
                c.len() == n,
                answers.len() == n,
                cluster_wf(lockers@),
                a == args@,
                op == lock_op(exclusive),
                undo == unlock_op(exclusive),
                forall|j: int|
                    0 <= j < n ==> #[trigger] answers@[j] == ((!local_only || c[j].local) && grants(
                        c[j],
                        op,
                        a,
                    )),
                forall|j: int| 0 <= j < n ==> table_wf(#[trigger] c[j].service.table),
                forall|j: int| 0 <= j < i ==> (#[trigger] lockers@[j])@ == c[j],
                forall|j: int|
                    i <= j < n ==> (#[trigger] lockers@[j])@ == if !local_only || c[j].local {
                        locker_after(c[j], op, a)
                    } else {
                        c[j]
                    },
            decreases n - i,
        {
            proof {
                assert(table_wf(c[i as int].service.table));
                lemma_rollback(c[i as int], exclusive, a);
                assert(answers@[i as int] == ((!local_only || c[i as int].local) && grants(
                    c[i as int],
                    op,
                    a,
                )));
            }
            if answers[i] {
                let _ = lockers[i].call(undo, &args);
            }
            i += 1;
        }
        assert(cluster_of(lockers@) =~= c);
        false
    }

    /// One attempt to take the lock: sends the request of the attempt to
    /// every locker, holds the lock if a quorum granted it, and else gives
    /// back every grant, so that a failed attempt leaves every locker as it
    /// was.
    pub fn try_acquire(&mut self, lockers: &mut Vec<LockApi>, exclusive: bool) -> (granted: bool)
        requires
            old(self).wf(),
            cluster_wf(old(lockers)@),
        ensures
            final(self).wf(),
            cluster_wf(final(lockers)@),
            granted == acquires(old(self)@, cluster_of(old(lockers)@), exclusive),
            cluster_of(final(lockers)@) == cluster_after_acquire(
                old(self)@,
                cluster_of(old(lockers)@),
                exclusive,
            ),
            final(self)@ == mutex_after_acquire(old(self)@, cluster_of(old(lockers)@), exclusive),
    {
        self.attempt(lockers, exclusive, false)
    }

    /// One attempt to take the lock without the cluster: asks the node's
    /// own lockers only and holds the lock if each of them, and at least
    /// one, granted it. A failed attempt leaves every locker as it was.
    pub fn try_acquire_local(&mut self, lockers: &mut Vec<LockApi>, exclusive: bool) -> (granted: bool)
        requires
            old(self).wf(),
            cluster_wf(old(lockers)@),
        ensures
            final(self).wf(),
            cluster_wf(final(lockers)@),
            granted == acquires_locally(old(self)@, cluster_of(old(lockers)@), exclusive),
            cluster_of(final(lockers)@) == cluster_after_local_acquire(
                old(self)@,
                cluster_of(old(lockers)@),
                exclusive,
            ),
            final(self)@ == mutex_after_local_acquire(old(self)@, cluster_of(old(lockers)@), exclusive),
    {
        self.attempt(lockers, exclusive, true)
    }

    /// Gives the lock of the given mode back: sends the release to every
    /// locker that had granted it. The mutex holds the lock no longer even
    /// where a locker does not confirm. Without a lock to give back nothing
    /// is sent and `false` is returned.
    pub fn release(&mut self, lockers: &mut Vec<LockApi>, exclusive: bool) -> (released: bool)
        requires
            old(self).wf(),
            cluster_wf(old(lockers)@),
        ensures
            final(self).wf(),
            cluster_wf(final(lockers)@),
            released == may_release(old(self)@, exclusive, old(lockers)@.len() as nat),
            cluster_of(final(lockers)@) == cluster_after_release(
                old(self)@,
                cluster_of(old(lockers)@),
                exclusive,
            ),
            final(self)@ == mutex_after_release_on(old(self)@, cluster_of(old(lockers)@), exclusive),
    {
        let n = lockers.len();
        let ghost c = cluster_of(lockers@);
        let ghost m = self@;
        if n != self.lockers {
            assert(cluster_of(lockers@) =~= c);
            return false;
        }
        let args = match self.release_args(exclusive) {
            Some(args) => args,
            None => {
                assert(cluster_of(lockers@) =~= c);
                return false;
            },
        };
        let granted = self.held_lockers(exclusive);
        let ghost a = args@;
        let undo = if exclusive {
            LockOp::Unlock
        } else {
            LockOp::RUnlock
        };
        let mut confirmed: Vec<bool> = Vec::new();
        let mut quiet: Vec<bool> = Vec::new();
        let mut i: usize = 0;
        while i < n
            invariant
                i <= n,
                lockers.len() == n,
                c.len() == n,
                granted.len() == n,
                cluster_wf(lockers@),
                a == args@,
                confirmed.len() == i,
                quiet.len() == i,
                forall|j: int|
                    0 <= j < i ==> #[trigger] quiet@[j] == (granted@[j] && times_out(c[j], undo, a)),
                forall|j: int|
                    0 <= j < i ==> (#[trigger] lockers@[j])@ == if granted@[j] {
                        locker_after(c[j], undo, a)
                    } else {
                        c[j]
                    },
                forall|j: int| 0 <= j < i ==> #[trigger] confirmed@[j] == grants(c[j], undo, a) || !granted@[j],
                forall|j: int| i <= j < n ==> (#[trigger] lockers@[j])@ == c[j],
            decreases n - i,
        {
            assert(lockers@[i as int]@ == c[i as int]);
            if granted[i] {
                let r = lockers[i].call(undo, &args);
                let g = match r {
                    Ok(b) => b,
                    Err(_) => false,
                };
                let t = match r {
                    Err(LockError::Timeout) => true,
                    _ => false,
                };
                confirmed.push(g);
                quiet.push(t);
            } else {
                confirmed.push(true);
                quiet.push(false);
            }
            i += 1;
        }
        proof {
            let full = replies(c, undo, a);
            assert(release_incomplete(granted@, confirmed@) == release_incomplete(granted@, full)) by {
                if release_incomplete(granted@, confirmed@) {
                    let j = choose|j: int| 0 <= j < granted@.len() && #[trigger] granted@[j] && !confirmed@[j];
                    assert(granted@[j] && !full[j]);
                }
                if release_incomplete(granted@, full) {
                    let j = choose|j: int| 0 <= j < granted@.len() && #[trigger] granted@[j] && !full[j];
                    assert(granted@[j] && !confirmed@[j]);
                }
            }
            assert(cluster_of(lockers@) =~= cluster_after_some(c, granted@, undo, a));
            assert(quiet@ =~= chosen_silent(c, granted@, undo, a));
            self.lemma_view_wf();
        }
        let unanswered = count_grants(&quiet);
        self.finish_release(exclusive, &confirmed, unanswered)
    }

    /// Hands out the records that the mutex has made since they were last
    /// taken.
    pub fn take_diagnostics(&mut self) -> (records: Vec<Diagnostic>)
        requires
            old(self).wf(),
        ensures
            final(self).wf(),
            records_of(records@) == old(self)@.events,
            final(self)@ == (MutexView { events: Seq::empty(), ..old(self)@ }),
    {
        let mut out: Vec<Diagnostic> = Vec::new();
        std::mem::swap(&mut self.events, &mut out);
        assert(records_of(self.events@) =~= Seq::empty());
        out
    }
}

} // verus!
