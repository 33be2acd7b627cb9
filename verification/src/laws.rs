//! What holds of the lock manager as a whole: the laws that relate the
//! acquisitions and releases of several mutexes on one cluster.

use crate::drwmutex::{
    acquires, cluster_after, cluster_after_acquire, cluster_after_release, lemma_rollback, lock_op,
    may_release, mutex_after_acquire, mutex_after_release, replies, MutexView,
};
use crate::local_locker::{
    can_lock, can_lock_all, holder_of, holds, lemma_without_last_keeps, table_wf, HolderView,
};
use crate::lock_args::LockArgsView;
use crate::lock_service::{LockError, LockOp};
use crate::lock_api::{locker_after, LockerView};
use crate::drwmutex::uid_text;
use crate::drwmutex::Options;
use crate::namespace_lock::{
    attempts_from, cluster_after_get, get_result, law_retry_until_timeout, lock_after_get,
    lock_after_unlock, ops_id_text, saturated, step_of, unlock_result, NsLockError, NsLockView,
};
use crate::text::{decimal, lemma_decimal_injective, lemma_same_prefix};
use crate::quorum::{count_true, lemma_count_all, lemma_count_disjoint, lemma_count_monotone};
use vstd::prelude::*;

verus! {

/// Fresh request ids. Two attempts of one mutex with different numbers
/// send their requests under different request ids.
pub proof fn law_attempt_ids_differ(ops_id: Seq<char>, seq1: u64, seq2: u64)
    requires
        seq1 != seq2,
    ensures
        uid_text(ops_id, seq1) != uid_text(ops_id, seq2),
{
    if uid_text(ops_id, seq1) == uid_text(ops_id, seq2) {
        lemma_same_prefix(ops_id + "-"@, decimal(seq1 as nat), decimal(seq2 as nat));
        lemma_decimal_injective(seq1 as nat, seq2 as nat);
    }
}

/// Two locks that a map made for one owner under different numbers are
/// told apart by what the map gave them.
pub proof fn law_lock_ids_differ(owner: Seq<char>, id1: u64, id2: u64)
    requires
        id1 != id2,
    ensures
        ops_id_text(owner, id1) != ops_id_text(owner, id2),
{
    if ops_id_text(owner, id1) == ops_id_text(owner, id2) {
        lemma_same_prefix(owner + ":"@, decimal(id1 as nat), decimal(id2 as nat));
        lemma_decimal_injective(id1 as nat, id2 as nat);
    }
}

/// Every table of the cluster is well formed.
pub open spec fn tables_wf(c: Seq<LockerView>) -> bool {
    forall|i: int| 0 <= i < c.len() ==> table_wf(#[trigger] c[i].service.table)
}

/// For each locker, whether `h` holds `r` on it in the given mode.
pub open spec fn holding(c: Seq<LockerView>, r: Seq<char>, h: HolderView, exclusive: bool) -> Seq<bool> {
    Seq::new(c.len(), |i: int| holds(c[i].service.table, r, h, exclusive))
}

/// A successful acquisition leaves its holder holding every resource of the
/// set, in the mode asked for, on at least a quorum of lockers.
pub proof fn lemma_acquired_holds(m: MutexView, c: Seq<LockerView>, exclusive: bool, r: Seq<char>)
    requires
        m.names.contains(r),
        acquires(m, c, exclusive),
    ensures
        cluster_after_acquire(m, c, exclusive).len() == c.len(),
        count_true(
            holding(cluster_after_acquire(m, c, exclusive), r, holder_of(m.attempt_args()), exclusive),
        ) >= m.quorum,
{
    let a = m.attempt_args();
    let op = lock_op(exclusive);
    let h = holder_of(a);
    let c2 = cluster_after(c, op, a);
    let g = replies(c, op, a);
    let p = holding(c2, r, h, exclusive);
    let k = choose|k: int| 0 <= k < m.names.len() && m.names[k] == r;
    assert forall|i: int| 0 <= i < g.len() implies !g[i] || p[i] by {
        if g[i] {
            let t = c[i].service.table;
            assert(can_lock_all(t, a.resources, exclusive));
            assert(can_lock(t, a.resources[k], exclusive));
            assert(a.resources.contains(r));
            let t2 = c2[i].service.table;
            let hs = t2[r].holders;
            assert(hs[hs.len() - 1] == h);
            assert(hs.contains(h));
            assert(holds(t2, r, h, exclusive));
        }
    }
    lemma_count_monotone(g, p);
}

/// While a holder holds a resource on so many lockers that the others are
/// fewer than a quorum, no acquisition of a set with that resource
/// succeeds, unless both the hold and the acquisition are shared.
pub proof fn law_holder_excludes(
    c: Seq<LockerView>,
    r: Seq<char>,
    h: HolderView,
    held_exclusive: bool,
    m: MutexView,
    exclusive: bool,
)
    requires
        m.names.contains(r),
        held_exclusive || exclusive,
        count_true(holding(c, r, h, held_exclusive)) + m.quorum > c.len(),
    ensures
        !acquires(m, c, exclusive),
{
    let a = m.attempt_args();
    let op = lock_op(exclusive);
    let p = holding(c, r, h, held_exclusive);
    let g = replies(c, op, a);
    let k = choose|k: int| 0 <= k < m.names.len() && m.names[k] == r;
    assert forall|i: int| 0 <= i < p.len() implies !(p[i] && g[i]) by {
        if p[i] && g[i] {
            let t = c[i].service.table;
            assert(can_lock_all(t, a.resources, exclusive));
            assert(can_lock(t, a.resources[k], exclusive));
        }
    }
    lemma_count_disjoint(p, g);
}

/// A hold outlasts what others do. Whatever another holder asks of a
/// locker, short of clearing a resource by force, a hold on that locker
/// stays in place.
pub proof fn law_hold_survives_others(
    l: LockerView,
    op: LockOp,
    a: LockArgsView,
    r: Seq<char>,
    h: HolderView,
    exclusive: bool,
)
    requires
        holds(l.service.table, r, h, exclusive),
        op != LockOp::ForceUnlock,
        holder_of(a) != h,
    ensures
        holds(locker_after(l, op, a).service.table, r, h, exclusive),
{
    let t = l.service.table;
    let t2 = locker_after(l, op, a).service.table;
    let i = choose|i: int| 0 <= i < t[r].holders.len() && t[r].holders[i] == h;
    if t2 != t && a.resources.contains(r) {
        let k = choose|k: int| 0 <= k < a.resources.len() && a.resources[k] == r;
        if op == LockOp::Lock || op == LockOp::RLock {
            assert(can_lock(t, a.resources[k], op == LockOp::Lock));
            assert(t2[r].holders[i] == h);
        } else {
            lemma_without_last_keeps(t[r].holders, holder_of(a), h);
        }
    }
}

/// Mutual exclusion. After an exclusive acquisition of one mutex
/// succeeded, no exclusive acquisition of another set with a common
/// resource succeeds on the cluster that it left, where both quorums are
/// majorities of the cluster.
pub proof fn law_mutual_exclusion(m1: MutexView, m2: MutexView, c: Seq<LockerView>, r: Seq<char>)
    requires
        m1.names.contains(r),
        m2.names.contains(r),
        2 * m1.quorum > c.len(),
        2 * m2.quorum > c.len(),
        acquires(m1, c, true),
    ensures
        !acquires(m2, cluster_after_acquire(m1, c, true), true),
{
    lemma_acquired_holds(m1, c, true, r);
    law_holder_excludes(
        cluster_after_acquire(m1, c, true),
        r,
        holder_of(m1.attempt_args()),
        true,
        m2,
        true,
    );
}

/// Readers share. Where every locker is reached, accepts the request and
/// has no resource of the set held for writing, a shared acquisition
/// succeeds, and it leaves every resource of every locker as lockable for
/// other readers as it was.
pub proof fn law_readers_share(m: MutexView, c: Seq<LockerView>)
    requires
        c.len() == m.lockers,
        m.read is None,
        m.quorum <= c.len(),
        m.names.len() > 0,
        forall|i: int|
            0 <= i < c.len() ==> (#[trigger] c[i]).online && m.quorum <= c[i].service.lockers
                && can_lock_all(c[i].service.table, m.names, false),
    ensures
        acquires(m, c, false),
        forall|i: int, r: Seq<char>|
            0 <= i < c.len() ==> can_lock(
                (#[trigger] cluster_after_acquire(m, c, false)[i]).service.table,
                r,
                false,
            ) == #[trigger] can_lock(c[i].service.table, r, false),
        forall|i: int|
            0 <= i < c.len() ==> (#[trigger] cluster_after_acquire(m, c, false)[i]).online
                && cluster_after_acquire(m, c, false)[i].service.lockers == c[i].service.lockers,
{
    let a = m.attempt_args();
    let g = replies(c, lock_op(false), a);
    assert forall|i: int| 0 <= i < g.len() implies g[i] by {
        assert(c[i].online);
    }
    lemma_count_all(g);
    let c2 = cluster_after_acquire(m, c, false);
    assert forall|i: int, r: Seq<char>| 0 <= i < c.len() implies can_lock(
        (#[trigger] c2[i]).service.table,
        r,
        false,
    ) == #[trigger] can_lock(c[i].service.table, r, false) by {
        assert(c[i].online);
        if a.resources.contains(r) {
            let k = choose|k: int| 0 <= k < a.resources.len() && a.resources[k] == r;
            assert(can_lock(c[i].service.table, a.resources[k], false));
        }
    }
    assert forall|i: int| 0 <= i < c.len() implies (#[trigger] c2[i]).online && c2[i].service.lockers
        == c[i].service.lockers by {
        assert(c[i].online);
    }
}

/// A writer waits for the readers. After a shared acquisition succeeded,
/// no exclusive acquisition of a set with a common resource succeeds on
/// the cluster that it left, where both quorums are majorities of the
/// cluster.
pub proof fn law_writer_waits_for_readers(
    reader: MutexView,
    writer: MutexView,
    c: Seq<LockerView>,
    r: Seq<char>,
)
    requires
        reader.names.contains(r),
        writer.names.contains(r),
        2 * reader.quorum > c.len(),
        2 * writer.quorum > c.len(),
        acquires(reader, c, false),
    ensures
        !acquires(writer, cluster_after_acquire(reader, c, false), true),
{
    lemma_acquired_holds(reader, c, false, r);
    law_holder_excludes(
        cluster_after_acquire(reader, c, false),
        r,
        holder_of(reader.attempt_args()),
        false,
        writer,
        true,
    );
}

/// No partial grants. An acquisition that fails leaves every locker of the
/// cluster as it was before the attempt.
pub proof fn law_no_partial_grants(m: MutexView, c: Seq<LockerView>, exclusive: bool)
    requires
        !acquires(m, c, exclusive),
    ensures
        cluster_after_acquire(m, c, exclusive) == c,
{
}

/// A release undoes its acquisition: after a mutex acquired a lock and
/// released it, every locker of the cluster is as it was before.
pub proof fn law_release_restores(m: MutexView, c: Seq<LockerView>, exclusive: bool)
    requires
        tables_wf(c),
        acquires(m, c, exclusive),
    ensures
        ({
            let a = m.attempt_args();
            let m1 = mutex_after_acquire(m, c, exclusive);
            let c1 = cluster_after_acquire(m, c, exclusive);
            may_release(m1, exclusive, c1.len()) && cluster_after_release(m1, c1, exclusive) == c
        }),
{
    let a = m.attempt_args();
    let m1 = mutex_after_acquire(m, c, exclusive);
    let c1 = cluster_after_acquire(m, c, exclusive);
    let h = m1.held(exclusive)->0;
    assert(m1.args(h.uid) == a);
    assert forall|i: int| 0 <= i < c.len() implies cluster_after_release(m1, c1, exclusive)[i]
        == c[i] by {
        assert(table_wf(c[i].service.table));
        lemma_rollback(c[i], exclusive, a);
    }
    assert(cluster_after_release(m1, c1, exclusive) =~= c);
}

/// Release is idempotent. After a release, whatever the lockers answered,
/// the mutex holds nothing in that mode, and a second release sends
/// nothing and changes neither the cluster nor the mutex.
pub proof fn law_release_idempotent(
    m: MutexView,
    c: Seq<LockerView>,
    exclusive: bool,
    confirmed: Seq<Result<bool, LockError>>,
    again: Seq<Result<bool, LockError>>,
)
    requires
        confirmed.len() == c.len(),
    ensures
        ({
            let m1 = mutex_after_release(m, exclusive, confirmed);
            let c1 = cluster_after_release(m, c, exclusive);
            &&& (may_release(m, exclusive, c.len()) ==> m1.held(exclusive) is None)
            &&& (may_release(m, exclusive, c.len()) ==> !may_release(m1, exclusive, c1.len()))
            &&& (m.held(exclusive) is None ==> m1 == m && c1 == c)
            &&& (m1.held(exclusive) is None ==> cluster_after_release(m1, c1, exclusive) == c1
                && mutex_after_release(m1, exclusive, again) == m1)
        }),
{
}

/// Unlocking twice is harmless. After an unlock of a namespace lock,
/// whether it gave a lock back or not, a second unlock reports that
/// nothing is locked and changes neither the lock nor any locker.
pub proof fn law_unlock_idempotent(l: NsLockView, c: Seq<LockerView>, exclusive: bool)
    ensures
        ({
            let l1 = lock_after_unlock(l, c, exclusive);
            let c1 = cluster_after_release(l.mutex, c, exclusive);
            &&& c1.len() == c.len()
            &&& unlock_result(l1, c1, exclusive) == Err::<(), NsLockError>(NsLockError::NotLocked)
            &&& lock_after_unlock(l1, c1, exclusive) == l1
            &&& cluster_after_release(l1.mutex, c1, exclusive) == c1
        }),
{
}

/// Giving up. A lock that is not obtained was tried for until exactly the
/// time-out was waited, with retries that span at least the time-out, and
/// it leaves every locker as it was.
pub proof fn law_get_gives_up_at_timeout(l: NsLockView, c: Seq<LockerView>, exclusive: bool, opts: Options)
    requires
        get_result(l, c, exclusive) == Ok::<bool, NsLockError>(false),
    ensures
        lock_after_get(l, c, exclusive, opts).waited == opts.timeout,
        lock_after_get(l, c, exclusive, opts).attempts == saturated(attempts_from(opts, 0)),
        (attempts_from(opts, 0) - 1) * step_of(opts) >= opts.timeout,
        cluster_after_get(l, c, exclusive) == c,
{
    law_retry_until_timeout(opts, 0);
}

} // verus!
