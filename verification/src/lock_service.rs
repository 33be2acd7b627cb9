//! The endpoint through which a node's lock table is reached: it checks a
//! request, applies it to the table and answers with success or a reason.

use crate::local_locker::{
    can_lock_all, force_unlock_all, held_by_uid, holder_of, holds_any, lock_all, table_wf, unlock_all,
    LocalLocker, TableView,
};
use crate::lock_args::{LockArgs, LockArgsView};
use vstd::prelude::*;
use vstd::string::StringExecFns;

verus! {

/// The operations of the endpoint.
#[derive(Clone, Copy, Debug, PartialEq, Eq, Structural)]
pub enum LockOp {
    Lock,
    Unlock,
    RLock,
    RUnlock,
    ForceUnlock,
    Refresh,
}

/// Why a call did not reach a table.
#[derive(Clone, Copy, Debug, PartialEq, Eq, Structural)]
pub enum LockError {
    /// The request names no resource.
    EmptyResources,
    /// The request asks for more grants than the cluster has lockers.
    QuorumUnreachable,
    /// The locker did not answer in time.
    Timeout,
}

/// What the endpoint shows: its table and the number of lockers in its
/// cluster.
pub struct ServiceView {
    pub table: TableView,
    pub lockers: nat,
}

/// What the endpoint answers: an error for a malformed request, else
/// whether the table did what was asked.
pub open spec fn answer(s: ServiceView, op: LockOp, a: LockArgsView) -> Result<bool, LockError> {
    if a.resources.len() == 0 {
        Err(LockError::EmptyResources)
    } else if a.quorum > s.lockers {
        Err(LockError::QuorumUnreachable)
    } else {
        Ok(
            match op {
                LockOp::Lock => can_lock_all(s.table, a.resources, true),
                LockOp::RLock => can_lock_all(s.table, a.resources, false),
                LockOp::Unlock => holds_any(s.table, a.resources, holder_of(a), true),
                LockOp::RUnlock => holds_any(s.table, a.resources, holder_of(a), false),
                LockOp::ForceUnlock => true,
                LockOp::Refresh => held_by_uid(s.table, a.uid),
            },
        )
    }
}

/// The table after the endpoint handled the request. A request that is
/// answered with an error or a refusal leaves the table as it was.
pub open spec fn table_after(s: ServiceView, op: LockOp, a: LockArgsView) -> TableView {
    if !a.valid_for(s.lockers) {
        s.table
    } else {
        match op {
            LockOp::Lock => if can_lock_all(s.table, a.resources, true) {
                lock_all(s.table, a.resources, holder_of(a), true)
            } else {
                s.table
            },
            LockOp::RLock => if can_lock_all(s.table, a.resources, false) {
                lock_all(s.table, a.resources, holder_of(a), false)
            } else {
                s.table
            },
            LockOp::Unlock => unlock_all(s.table, a.resources, holder_of(a), true),
            LockOp::RUnlock => unlock_all(s.table, a.resources, holder_of(a), false),
            LockOp::ForceUnlock => force_unlock_all(s.table, a.resources),
            LockOp::Refresh => s.table,
        }
    }
}

/// The reason given for an error.
pub open spec fn error_text(e: LockError) -> Seq<char> {
    match e {
        LockError::EmptyResources => "invalid lock request: no resource named"@,
        LockError::QuorumUnreachable => "quorum not reachable: the request asks for more grants than the cluster has lockers"@,
        LockError::Timeout => "locker did not answer in time"@,
    }
}

/// The reason given when the table refuses.
pub open spec fn refusal_text(op: LockOp) -> Seq<char> {
    match op {
        LockOp::Lock => "can not get lock: resource is held"@,
        LockOp::RLock => "can not get read lock: resource is held for writing"@,
        LockOp::Unlock => "can not unlock: no such write lock is held"@,
        LockOp::RUnlock => "can not unlock: no such read lock is held"@,
        LockOp::ForceUnlock => "can not force unlock"@,
        LockOp::Refresh => "lock not found"@,
    }
}

/// What goes over the wire for an answer: nothing for success, else the
/// reason.
pub open spec fn error_info_of(op: LockOp, r: Result<bool, LockError>) -> Option<Seq<char>> {
    match r {
        Ok(true) => None,
        Ok(false) => Some(refusal_text(op)),
        Err(e) => Some(error_text(e)),
    }
}

impl LockError {
    /// The reason as text.
    pub fn message(&self) -> (text: String)
        ensures
            text@ == error_text(*self),
    {
        match self {
            LockError::EmptyResources => String::from_str("invalid lock request: no resource named"),
            LockError::QuorumUnreachable => String::from_str(
                "quorum not reachable: the request asks for more grants than the cluster has lockers",
            ),
            LockError::Timeout => String::from_str("locker did not answer in time"),
        }
    }
}

/// The reason that the endpoint gives when the table refuses `op`.
pub fn refusal_message(op: LockOp) -> (text: String)
    ensures
        text@ == refusal_text(op),
{
    match op {
        LockOp::Lock => String::from_str("can not get lock: resource is held"),
        LockOp::RLock => String::from_str("can not get read lock: resource is held for writing"),
        LockOp::Unlock => String::from_str("can not unlock: no such write lock is held"),
        LockOp::RUnlock => String::from_str("can not unlock: no such read lock is held"),
        LockOp::ForceUnlock => String::from_str("can not force unlock"),
        LockOp::Refresh => String::from_str("lock not found"),
    }
}

/// The answer to a request as it goes over the wire: `error_info` is `None`
/// for success and the reason for anything else.
#[derive(Debug)]
pub struct GenerallyLockResponse {
    pub error_info: Option<String>,
}

impl GenerallyLockResponse {
    /// What the response says, as plain text.
    pub open spec fn text(self) -> Option<Seq<char>> {
        match self.error_info {
            Some(s) => Some(s@),
            None => None,
        }
    }

    /// The response for an answer of the endpoint.
    pub fn from_answer(op: LockOp, r: Result<bool, LockError>) -> (resp: GenerallyLockResponse)
        ensures
            resp.text() == error_info_of(op, r),
    {
        match r {
            Ok(true) => GenerallyLockResponse { error_info: None },
            Ok(false) => GenerallyLockResponse { error_info: Some(refusal_message(op)) },
            Err(e) => GenerallyLockResponse { error_info: Some(e.message()) },
        }
    }

    /// Whether the response reports success.
    pub fn is_ok(&self) -> (ok: bool)
        ensures
            ok == (self.text() is None),
    {
        self.error_info.is_none()
    }
}

/// The lock endpoint of one node.
pub struct LockService {
    table: LocalLocker,
    lockers: usize,
}

impl View for LockService {
    type V = ServiceView;

    closed spec fn view(&self) -> ServiceView {
        ServiceView { table: self.table@, lockers: self.lockers as nat }
    }
}

impl LockService {
    /// The table behind the endpoint is well formed.
    pub closed spec fn wf(&self) -> bool {
        self.table.wf()
    }

    /// A well-formed endpoint shows a well-formed table.
    pub proof fn lemma_view_wf(&self)
        requires
            self.wf(),
        ensures
            table_wf(self@.table),
    {
        self.table.lemma_view_wf();
    }

    /// The endpoint of a node in a cluster of `lockers` lockers, with
    /// nothing locked.
    pub fn new(lockers: usize) -> (s: LockService)
        ensures
            s.wf(),
            s@ == (ServiceView { table: Map::empty(), lockers: lockers as nat }),
    {
        LockService { table: LocalLocker::new(), lockers }
    }

    /// The number of lockers in the cluster, as the endpoint was told.
    pub fn lockers(&self) -> (n: usize)
        ensures
            n == self@.lockers,
    {
        self.lockers
    }

    /// Whether `resource` is locked on this node.
    pub fn is_locked(&self, resource: &str) -> (locked: bool)
        requires
            self.wf(),
        ensures
            locked == self@.table.contains_key(resource@),
    {
        self.table.is_locked(resource)
    }

    /// Checks the request, applies it to the table and says what came of
    /// it.
    pub fn handle(&mut self, op: LockOp, args: &LockArgs) -> (r: Result<bool, LockError>)
        requires
            old(self).wf(),
        ensures
            final(self).wf(),
            r == answer(old(self)@, op, args@),
            final(self)@.table == table_after(old(self)@, op, args@),
            final(self)@.lockers == old(self)@.lockers,
    {
        if args.resources.len() == 0 {
            return Err(LockError::EmptyResources);
        }
        if args.quorum > self.lockers {
            return Err(LockError::QuorumUnreachable);
        }
        match op {
            LockOp::Lock => Ok(self.table.lock_all(args, true)),
            LockOp::RLock => Ok(self.table.lock_all(args, false)),
            LockOp::Unlock => Ok(self.table.unlock_all(args, true)),
            LockOp::RUnlock => Ok(self.table.unlock_all(args, false)),
            LockOp::ForceUnlock => {
                let _ = self.table.force_unlock_all(args);
                Ok(true)
            },
            LockOp::Refresh => Ok(self.table.refresh(args.uid.as_str())),
        }
    }

    /// Handles a request and answers as over the wire.
    pub fn serve(&mut self, op: LockOp, args: &LockArgs) -> (resp: GenerallyLockResponse)
        requires
            old(self).wf(),
        ensures
            final(self).wf(),
            resp.text() == error_info_of(op, answer(old(self)@, op, args@)),
            final(self)@.table == table_after(old(self)@, op, args@),
            final(self)@.lockers == old(self)@.lockers,
    {
        let r = self.handle(op, args);
        GenerallyLockResponse::from_answer(op, r)
    }

    /// Asks for a write lock on every resource of the request.
    pub fn lock(&mut self, args: &LockArgs) -> (resp: GenerallyLockResponse)
        requires
            old(self).wf(),
        ensures
            final(self).wf(),
            resp.text() == error_info_of(LockOp::Lock, answer(old(self)@, LockOp::Lock, args@)),
            final(self)@.table == table_after(old(self)@, LockOp::Lock, args@),
            final(self)@.lockers == old(self)@.lockers,
    {
        self.serve(LockOp::Lock, args)
    }

    /// Gives back the write locks of the request.
    pub fn un_lock(&mut self, args: &LockArgs) -> (resp: GenerallyLockResponse)
        requires
            old(self).wf(),
        ensures
            final(self).wf(),
            resp.text() == error_info_of(LockOp::Unlock, answer(old(self)@, LockOp::Unlock, args@)),
            final(self)@.table == table_after(old(self)@, LockOp::Unlock, args@),
            final(self)@.lockers == old(self)@.lockers,
    {
        self.serve(LockOp::Unlock, args)
    }

    /// Asks for a read lock on every resource of the request.
    pub fn r_lock(&mut self, args: &LockArgs) -> (resp: GenerallyLockResponse)
        requires
            old(self).wf(),
        ensures
            final(self).wf(),
            resp.text() == error_info_of(LockOp::RLock, answer(old(self)@, LockOp::RLock, args@)),
            final(self)@.table == table_after(old(self)@, LockOp::RLock, args@),
            final(self)@.lockers == old(self)@.lockers,
    {
        self.serve(LockOp::RLock, args)
    }

    /// Gives back the read locks of the request.
    pub fn r_un_lock(&mut self, args: &LockArgs) -> (resp: GenerallyLockResponse)
        requires
            old(self).wf(),
        ensures
            final(self).wf(),
            resp.text() == error_info_of(LockOp::RUnlock, answer(old(self)@, LockOp::RUnlock, args@)),
            final(self)@.table == table_after(old(self)@, LockOp::RUnlock, args@),
            final(self)@.lockers == old(self)@.lockers,
    {
        self.serve(LockOp::RUnlock, args)
    }

    /// Clears the resources of the request, whoever holds them.
    pub fn force_un_lock(&mut self, args: &LockArgs) -> (resp: GenerallyLockResponse)
        requires
            old(self).wf(),
        ensures
            final(self).wf(),
            resp.text() == error_info_of(
                LockOp::ForceUnlock,
                answer(old(self)@, LockOp::ForceUnlock, args@),
            ),
            final(self)@.table == table_after(old(self)@, LockOp::ForceUnlock, args@),
            final(self)@.lockers == old(self)@.lockers,
    {
        self.serve(LockOp::ForceUnlock, args)
    }

    /// Says whether a lock granted under the request's id is still held; a
    /// lock that is not found was reclaimed and is lost.
    pub fn refresh(&mut self, args: &LockArgs) -> (resp: GenerallyLockResponse)
        requires
            old(self).wf(),
        ensures
            final(self).wf(),
            resp.text() == error_info_of(LockOp::Refresh, answer(old(self)@, LockOp::Refresh, args@)),
            final(self)@ == old(self)@,
    {
        self.serve(LockOp::Refresh, args)
    }
}

} // verus!
