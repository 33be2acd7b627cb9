//! The lock table of one node: which resources are held on it, in which
//! mode, and by whom.
//!
//! A resource is either absent from the table (unlocked) or present with at
//! least one holder. A resource held for writing has exactly one holder; a
//! resource held for reading has one holder per reader.

use crate::lock_args::{names_of, LockArgs, LockArgsView};
use vstd::prelude::*;

verus! {

/// Who holds a lock: the request id under which it was granted and the
/// owner that asked for it.
pub struct HolderView {
    pub uid: Seq<char>,
    pub owner: Seq<char>,
}

/// The state of a locked resource.
pub struct EntryView {
    /// Held for writing (by the one holder) or for reading (by all of them).
    pub writer: bool,
    /// The holders, in the order in which they were granted.
    pub holders: Seq<HolderView>,
}

/// The table as a map from the names of the locked resources to their state.
pub type TableView = Map<Seq<char>, EntryView>;

/// Every locked resource has a holder, and a writer is alone.
pub open spec fn table_wf(t: TableView) -> bool {
    forall|r: Seq<char>| #[trigger]
        t.contains_key(r) ==> t[r].holders.len() > 0 && (t[r].writer ==> t[r].holders.len() == 1)
}

/// A write lock needs the resource unlocked; a read lock is also granted
/// beside other readers.
pub open spec fn can_lock(t: TableView, r: Seq<char>, exclusive: bool) -> bool {
    !t.contains_key(r) || (!exclusive && !t[r].writer)
}

/// The table after `h` was granted `r`.
pub open spec fn lock_one(t: TableView, r: Seq<char>, h: HolderView, exclusive: bool) -> TableView {
    if t.contains_key(r) {
        t.insert(r, EntryView { writer: false, holders: t[r].holders.push(h) })
    } else {
        t.insert(r, EntryView { writer: exclusive, holders: seq![h] })
    }
}

/// Whether `h` holds `r` in the given mode.
pub open spec fn holds(t: TableView, r: Seq<char>, h: HolderView, exclusive: bool) -> bool {
    t.contains_key(r) && t[r].writer == exclusive && t[r].holders.contains(h)
}

/// `s` without the last occurrence of `h`.
pub open spec fn without_last(s: Seq<HolderView>, h: HolderView) -> Seq<HolderView>
    decreases s.len(),
{
    if s.len() == 0 {
        s
    } else if s.last() == h {
        s.drop_last()
    } else {
        without_last(s.drop_last(), h).push(s.last())
    }
}

/// The table after `h` gave up one hold on `r` in the given mode; the
/// resource leaves the table with its last holder. A holder without such a
/// hold changes nothing.
pub open spec fn unlock_one(t: TableView, r: Seq<char>, h: HolderView, exclusive: bool) -> TableView {
    if holds(t, r, h, exclusive) {
        let rest = without_last(t[r].holders, h);
        if rest.len() == 0 {
            t.remove(r)
        } else {
            t.insert(r, EntryView { writer: t[r].writer, holders: rest })
        }
    } else {
        t
    }
}

/// Whether every resource of `rs` can be locked in the given mode.
pub open spec fn can_lock_all(t: TableView, rs: Seq<Seq<char>>, exclusive: bool) -> bool {
    forall|i: int| 0 <= i < rs.len() ==> can_lock(t, #[trigger] rs[i], exclusive)
}

/// The table after `h` was granted every resource named in `rs`, each once.
pub open spec fn lock_all(t: TableView, rs: Seq<Seq<char>>, h: HolderView, exclusive: bool) -> TableView {
    Map::new(
        |r: Seq<char>| rs.contains(r) || t.contains_key(r),
        |r: Seq<char>|
            if rs.contains(r) {
                lock_one(t, r, h, exclusive)[r]
            } else {
                t[r]
            },
    )
}

/// Whether `h` holds at least one resource of `rs` in the given mode.
pub open spec fn holds_any(t: TableView, rs: Seq<Seq<char>>, h: HolderView, exclusive: bool) -> bool {
    exists|i: int| 0 <= i < rs.len() && holds(t, #[trigger] rs[i], h, exclusive)
}

/// The table after `h` gave up one hold on every resource named in `rs`
/// that it holds in the given mode.
pub open spec fn unlock_all(t: TableView, rs: Seq<Seq<char>>, h: HolderView, exclusive: bool) -> TableView {
    Map::new(
        |r: Seq<char>|
            if rs.contains(r) {
                unlock_one(t, r, h, exclusive).contains_key(r)
            } else {
                t.contains_key(r)
            },
        |r: Seq<char>|
            if rs.contains(r) {
                unlock_one(t, r, h, exclusive)[r]
            } else {
                t[r]
            },
    )
}

/// Whether at least one resource of `rs` is locked.
pub open spec fn locked_any(t: TableView, rs: Seq<Seq<char>>) -> bool {
    exists|i: int| 0 <= i < rs.len() && t.contains_key(#[trigger] rs[i])
}

/// The table without the resources named in `rs`, whoever held them.
pub open spec fn force_unlock_all(t: TableView, rs: Seq<Seq<char>>) -> TableView {
    Map::new(|r: Seq<char>| t.contains_key(r) && !rs.contains(r), |r: Seq<char>| t[r])
}

/// Whether some lock in the table was granted under the request id `uid`.
pub open spec fn held_by_uid(t: TableView, uid: Seq<char>) -> bool {
    exists|r: Seq<char>, i: int|
        t.contains_key(r) && 0 <= i < t[r].holders.len() && (#[trigger] t[r].holders[i]).uid == uid
}

/// Taking one holder out of a list leaves every other holder in it.
pub proof fn lemma_without_last_keeps(s: Seq<HolderView>, x: HolderView, h: HolderView)
    requires
        s.contains(h),
        h != x,
    ensures
        without_last(s, x).contains(h),
    decreases s.len(),
{
    let i = choose|i: int| 0 <= i < s.len() && s[i] == h;
    if s.last() == x {
        assert(s.drop_last()[i] == h);
    } else if s.last() == h {
        let out = without_last(s.drop_last(), x).push(s.last());
        assert(out[out.len() - 1] == h);
    } else {
        assert(s.drop_last()[i] == h);
        lemma_without_last_keeps(s.drop_last(), x, h);
        let inner = without_last(s.drop_last(), x);
        let j = choose|j: int| 0 <= j < inner.len() && inner[j] == h;
        assert(inner.push(s.last())[j] == h);
    }
}

/// Giving a hold back undoes its grant.
pub proof fn lemma_unlock_undoes_lock(t: TableView, r: Seq<char>, h: HolderView, exclusive: bool)
    requires
        table_wf(t),
        can_lock(t, r, exclusive),
    ensures
        holds(lock_one(t, r, h, exclusive), r, h, exclusive),
        unlock_one(lock_one(t, r, h, exclusive), r, h, exclusive) == t,
{
    let t1 = lock_one(t, r, h, exclusive);
    let hs = t1[r].holders;
    assert(hs[hs.len() - 1] == h);
    assert(hs.contains(h));
    assert(holds(t1, r, h, exclusive));
    if t.contains_key(r) {
        assert(hs.drop_last() =~= t[r].holders);
        assert(without_last(hs, h) == t[r].holders);
        assert(t1.insert(r, EntryView { writer: t1[r].writer, holders: t[r].holders }) =~= t);
    } else {
        assert(hs.drop_last().len() == 0);
        assert(without_last(hs, h).len() == 0);
        assert(t1.remove(r) =~= t);
    }
}

/// Giving back every hold of a descriptor undoes its grant.
pub proof fn lemma_unlock_all_undoes_lock_all(t: TableView, rs: Seq<Seq<char>>, h: HolderView, exclusive: bool)
    requires
        table_wf(t),
        can_lock_all(t, rs, exclusive),
    ensures
        rs.len() > 0 ==> holds_any(lock_all(t, rs, h, exclusive), rs, h, exclusive),
        unlock_all(lock_all(t, rs, h, exclusive), rs, h, exclusive) == t,
{
    let t1 = lock_all(t, rs, h, exclusive);
    let t2 = unlock_all(t1, rs, h, exclusive);
    assert forall|r: Seq<char>| rs.contains(r) implies holds(t1, r, h, exclusive) && unlock_one(
        t1,
        r,
        h,
        exclusive,
    ).contains_key(r) == t.contains_key(r) && (t.contains_key(r) ==> unlock_one(t1, r, h, exclusive)[r]
        == t[r]) by {
        let i = choose|i: int| 0 <= i < rs.len() && rs[i] == r;
        assert(can_lock(t, rs[i], exclusive));
        lemma_unlock_undoes_lock(t, r, h, exclusive);
        let u = lock_one(t, r, h, exclusive);
        assert(t1[r] == u[r]);
        assert(t1.contains_key(r));
        assert(holds(u, r, h, exclusive));
        assert(holds(t1, r, h, exclusive));
        let rest = without_last(t1[r].holders, h);
        assert(unlock_one(u, r, h, exclusive) == t);
        if rest.len() == 0 {
            assert(!unlock_one(u, r, h, exclusive).contains_key(r));
        } else {
            assert(unlock_one(u, r, h, exclusive)[r] == EntryView { writer: u[r].writer, holders: rest });
        }
    }
    assert(t2 =~= t);
    if rs.len() > 0 {
        assert(rs.contains(rs[0]));
        assert(holds(t1, rs[0], h, exclusive));
    }
}

/// The holder that a request asks for.
pub open spec fn holder_of(a: LockArgsView) -> HolderView {
    HolderView { uid: a.uid, owner: a.owner }
}

proof fn lemma_take_contains(rs: Seq<Seq<char>>, i: int)
    requires
        0 <= i < rs.len(),
    ensures
        rs.take(i + 1) == rs.take(i).push(rs[i]),
        forall|k: Seq<char>| #[trigger]
            rs.take(i).push(rs[i]).contains(k) <==> rs.take(i).contains(k) || k == rs[i],
        rs.take(i).contains(rs[i]) <==> exists|j: int| 0 <= j < i && rs[j] == rs[i],
{
    let s0 = rs.take(i);
    let s1 = s0.push(rs[i]);
    assert(rs.take(i + 1) =~= s1);
    assert forall|k: Seq<char>| #[trigger] s1.contains(k) <==> s0.contains(k) || k == rs[i] by {
        if s1.contains(k) {
            let j = choose|j: int| 0 <= j < s1.len() && s1[j] == k;
            if j < i {
                assert(s0[j] == k);
            }
        }
        if s0.contains(k) {
            let j = choose|j: int| 0 <= j < s0.len() && s0[j] == k;
            assert(s1[j] == k);
        }
        if k == rs[i] {
            assert(s1[i] == k);
        }
    }
    if s0.contains(rs[i]) {
        let j = choose|j: int| 0 <= j < s0.len() && s0[j] == rs[i];
        assert(rs[j] == rs[i]);
    }
    if exists|j: int| 0 <= j < i && rs[j] == rs[i] {
        let j = choose|j: int| 0 <= j < i && rs[j] == rs[i];
        assert(s0[j] == rs[i]);
    }
}

proof fn lemma_lock_all_step(t: TableView, rs: Seq<Seq<char>>, i: int, h: HolderView, exclusive: bool)
    requires
        0 <= i < rs.len(),
        can_lock_all(t, rs, exclusive),
    ensures
        ({
            let cur = lock_all(t, rs.take(i), h, exclusive);
            let next = lock_all(t, rs.take(i + 1), h, exclusive);
            if rs.take(i).contains(rs[i]) {
                next == cur
            } else {
                can_lock(cur, rs[i], exclusive) && next == lock_one(cur, rs[i], h, exclusive)
            }
        }),
{
    lemma_take_contains(rs, i);
    let cur = lock_all(t, rs.take(i), h, exclusive);
    let next = lock_all(t, rs.take(i + 1), h, exclusive);
    assert(can_lock(t, rs[i], exclusive));
    if rs.take(i).contains(rs[i]) {
        assert(next =~= cur);
    } else {
        assert(next =~= lock_one(cur, rs[i], h, exclusive));
    }
}

proof fn lemma_unlock_all_step(t: TableView, rs: Seq<Seq<char>>, i: int, h: HolderView, exclusive: bool)
    requires
        0 <= i < rs.len(),
    ensures
        ({
            let cur = unlock_all(t, rs.take(i), h, exclusive);
            let next = unlock_all(t, rs.take(i + 1), h, exclusive);
            if rs.take(i).contains(rs[i]) {
                next == cur
            } else {
                holds(cur, rs[i], h, exclusive) == holds(t, rs[i], h, exclusive) && next == unlock_one(
                    cur,
                    rs[i],
                    h,
                    exclusive,
                )
            }
        }),
{
    lemma_take_contains(rs, i);
    let cur = unlock_all(t, rs.take(i), h, exclusive);
    let next = unlock_all(t, rs.take(i + 1), h, exclusive);
    if rs.take(i).contains(rs[i]) {
        assert(next =~= cur);
    } else {
        assert(next =~= unlock_one(cur, rs[i], h, exclusive));
    }
}

proof fn lemma_force_unlock_all_step(t: TableView, rs: Seq<Seq<char>>, i: int)
    requires
        0 <= i < rs.len(),
    ensures
        force_unlock_all(t, rs.take(i + 1)) == force_unlock_all(t, rs.take(i)).remove(rs[i]),
        force_unlock_all(t, rs.take(i)).contains_key(rs[i]) <==> t.contains_key(rs[i]) && !(exists|
            j: int,
        | 0 <= j < i && rs[j] == rs[i]),
{
    lemma_take_contains(rs, i);
    assert(force_unlock_all(t, rs.take(i + 1)) =~= force_unlock_all(t, rs.take(i)).remove(rs[i]));
}

/// One holder of a lock, as the table stores it.
pub struct Holder {
    pub uid: String,
    pub owner: String,
}

impl View for Holder {
    type V = HolderView;

    open spec fn view(&self) -> HolderView {
        HolderView { uid: self.uid@, owner: self.owner@ }
    }
}

/// The holders that a vector stores, in order.
pub open spec fn holders_of(v: Seq<Holder>) -> Seq<HolderView> {
    Seq::new(v.len(), |i: int| v[i]@)
}

struct Entry {
    resource: String,
    writer: bool,
    holders: Vec<Holder>,
}

spec fn entry_view(e: Entry) -> EntryView {
    EntryView { writer: e.writer, holders: holders_of(e.holders@) }
}

spec fn entry_wf(e: Entry) -> bool {
    e.holders.len() > 0 && (e.writer ==> e.holders.len() == 1)
}

proof fn lemma_without_last_absent(s: Seq<HolderView>, h: HolderView)
    requires
        !s.contains(h),
    ensures
        without_last(s, h) == s,
    decreases s.len(),
{
    if s.len() > 0 {
        assert(s[s.len() - 1] != h);
        assert forall|j: int| 0 <= j < s.drop_last().len() implies s.drop_last()[j] != h by {
            assert(s.drop_last()[j] == s[j]);
        }
        lemma_without_last_absent(s.drop_last(), h);
        assert(s.drop_last().push(s.last()) =~= s);
    }
}

proof fn lemma_without_last_at(s: Seq<HolderView>, h: HolderView, i: int)
    requires
        0 <= i < s.len(),
        s[i] == h,
        forall|j: int| i < j < s.len() ==> s[j] != h,
    ensures
        without_last(s, h) == s.remove(i),
    decreases s.len(),
{
    if i == s.len() - 1 {
        assert(s.drop_last() =~= s.remove(i));
    } else {
        assert(s.last() != h);
        lemma_without_last_at(s.drop_last(), h, i);
        assert(s.drop_last().remove(i).push(s.last()) =~= s.remove(i));
    }
}

/// Takes the last hold of (`uid`, `owner`) out of `holders`, if there is one.
fn remove_last_holder(holders: &mut Vec<Holder>, uid: &String, owner: &String) -> (found: bool)
    ensures
        found == holders_of(old(holders)@).contains(HolderView { uid: uid@, owner: owner@ }),
        holders_of(final(holders)@) == without_last(
            holders_of(old(holders)@),
            HolderView { uid: uid@, owner: owner@ },
        ),
        final(holders).len() == old(holders).len() - if found { 1int } else { 0int },
{
    let ghost h = HolderView { uid: uid@, owner: owner@ };
    let ghost s = holders_of(holders@);
    let mut i: usize = holders.len();
    while i > 0
        invariant
            i <= holders.len(),
            holders == old(holders),
            s == holders_of(holders@),
            h == (HolderView { uid: uid@, owner: owner@ }),
            forall|j: int| i <= j < s.len() ==> s[j] != h,
        decreases i,
    {
        i -= 1;
        if holders[i].uid == *uid && holders[i].owner == *owner {
            assert(s[i as int] == h);
            holders.remove(i);
            proof {
                lemma_without_last_at(s, h, i as int);
                assert(holders_of(holders@) =~= s.remove(i as int));
            }
            return true;
        }
        assert(s[i as int] != h);
    }
    proof {
        lemma_without_last_absent(s, h);
    }
    false
}

/// The lock table of one node.
pub struct LocalLocker {
    entries: Vec<Entry>,
}

impl View for LocalLocker {
    type V = TableView;

    closed spec fn view(&self) -> TableView {
        Map::new(|r: Seq<char>| self.has(r), |r: Seq<char>| entry_view(self.entries[self.index_of(r)]))
    }
}

impl LocalLocker {
    spec fn has(&self, r: Seq<char>) -> bool {
        exists|i: int| 0 <= i < self.entries.len() && (#[trigger] self.entries[i]).resource@ == r
    }

    spec fn index_of(&self, r: Seq<char>) -> int {
        choose|i: int| 0 <= i < self.entries.len() && (#[trigger] self.entries[i]).resource@ == r
    }

    /// No resource has two entries, and every entry is a well-formed lock.
    pub closed spec fn wf(&self) -> bool {
        &&& forall|i: int, j: int|
            0 <= i < j < self.entries.len() ==> (#[trigger] self.entries[i]).resource@ != (
            #[trigger] self.entries[j]).resource@
        &&& forall|i: int| 0 <= i < self.entries.len() ==> entry_wf(#[trigger] self.entries[i])
    }

    /// A well-formed table shows a well-formed map.
    pub proof fn lemma_view_wf(&self)
        requires
            self.wf(),
        ensures
            table_wf(self@),
    {
        assert forall|r: Seq<char>| #[trigger] self@.contains_key(r) implies self@[r].holders.len() > 0
            && (self@[r].writer ==> self@[r].holders.len() == 1) by {
            let i = self.index_of(r);
            assert(entry_wf(self.entries[i]));
        }
    }

    proof fn lemma_at(&self, i: int)
        requires
            self.wf(),
            0 <= i < self.entries.len(),
        ensures
            self@.contains_key(self.entries[i].resource@),
            self@[self.entries[i].resource@] == entry_view(self.entries[i]),
    {
        let r = self.entries[i].resource@;
        assert(self.has(r));
        let k = self.index_of(r);
        assert(k == i) by {
            if k < i {
                assert(self.entries[k].resource@ != self.entries[i].resource@);
            } else if i < k {
                assert(self.entries[i].resource@ != self.entries[k].resource@);
            }
        }
    }

    /// An empty table: nothing is locked.
    pub fn new() -> (table: LocalLocker)
        ensures
            table.wf(),
            table@ == Map::<Seq<char>, EntryView>::empty(),
    {
        let table = LocalLocker { entries: Vec::new() };
        assert(table@ =~= Map::<Seq<char>, EntryView>::empty());
        table
    }

    fn find(&self, resource: &String) -> (at: Option<usize>)
        requires
            self.wf(),
        ensures
            match at {
                Some(i) => i < self.entries.len() && self.entries[i as int].resource@ == resource@,
                None => !self@.contains_key(resource@),
            },
            at is Some == self@.contains_key(resource@),
    {
        let mut i: usize = 0;
        while i < self.entries.len()
            invariant
                self.wf(),
                i <= self.entries.len(),
                forall|j: int| 0 <= j < i ==> (#[trigger] self.entries[j]).resource@ != resource@,
            decreases self.entries.len() - i,
        {
            if self.entries[i].resource == *resource {
                proof {
                    self.lemma_at(i as int);
                }
                return Some(i);
            }
            i += 1;
        }
        None
    }

    /// Takes the entry at `i` out of the table.
    fn take(&mut self, i: usize) -> (e: Entry)
        requires
            old(self).wf(),
            i < old(self).entries.len(),
        ensures
            final(self).wf(),
            e == old(self).entries[i as int],
            entry_wf(e),
            old(self)@.contains_key(e.resource@),
            old(self)@[e.resource@] == entry_view(e),
            final(self)@ == old(self)@.remove(e.resource@),
    {
        proof {
            self.lemma_at(i as int);
        }
        let ghost before = *self;
        let e = self.entries.remove(i);
        proof {
            assert(entry_wf(before.entries[i as int]));
            assert forall|a: int, b: int| 0 <= a < b < self.entries.len() implies (
            #[trigger] self.entries[a]).resource@ != (#[trigger] self.entries[b]).resource@ by {
                let a0 = if a < i { a } else { a + 1 };
                let b0 = if b < i { b } else { b + 1 };
                assert(self.entries[a] == before.entries[a0]);
                assert(self.entries[b] == before.entries[b0]);
            }
            assert forall|a: int| 0 <= a < self.entries.len() implies entry_wf(#[trigger] self.entries[a]) by {
                let a0 = if a < i { a } else { a + 1 };
                assert(self.entries[a] == before.entries[a0]);
            }
            let target = before@.remove(e.resource@);
            assert forall|r: Seq<char>| #[trigger] self@.dom().contains(r) == target.dom().contains(r) by {
                if self.has(r) {
                    let a = self.index_of(r);
                    let a0 = if a < i { a } else { a + 1 };
                    assert(self.entries[a] == before.entries[a0]);
                    assert(before.has(r));
                    if a0 < i {
                        assert(before.entries[a0].resource@ != before.entries[i as int].resource@);
                    } else {
                        assert(before.entries[i as int].resource@ != before.entries[a0].resource@);
                    }
                }
                if before.has(r) && r != e.resource@ {
                    let b0 = before.index_of(r);
                    let b = if b0 < i { b0 } else { b0 - 1 };
                    assert(self.entries[b] == before.entries[b0]);
                    assert(self.has(r));
                }
            }
            assert forall|r: Seq<char>| self@.dom().contains(r) implies #[trigger] self@[r] == target[r] by {
                let a = self.index_of(r);
                let a0 = if a < i { a } else { a + 1 };
                assert(self.entries[a] == before.entries[a0]);
                before.lemma_at(a0);
                self.lemma_at(a);
            }
            assert(self@ =~= target);
        }
        e
    }

    /// Puts an entry for a resource that has none into the table.
    fn put(&mut self, e: Entry)
        requires
            old(self).wf(),
            entry_wf(e),
            !old(self)@.contains_key(e.resource@),
        ensures
            final(self).wf(),
            final(self)@ == old(self)@.insert(e.resource@, entry_view(e)),
    {
        let ghost before = *self;
        self.entries.push(e);
        proof {
            let n = before.entries.len() as int;
            assert forall|a: int, b: int| 0 <= a < b < self.entries.len() implies (
            #[trigger] self.entries[a]).resource@ != (#[trigger] self.entries[b]).resource@ by {
                assert(self.entries[a] == before.entries[a]);
                if b == n {
                    assert(before.has(before.entries[a].resource@));
                } else {
                    assert(self.entries[b] == before.entries[b]);
                }
            }
            assert forall|a: int| 0 <= a < self.entries.len() implies entry_wf(#[trigger] self.entries[a]) by {
                if a < n {
                    assert(self.entries[a] == before.entries[a]);
                }
            }
            let target = before@.insert(e.resource@, entry_view(e));
            assert(self.entries[n] == e);
            assert forall|r: Seq<char>| #[trigger] self@.dom().contains(r) == target.dom().contains(r) by {
                if self.has(r) {
                    let a = self.index_of(r);
                    if a < n {
                        assert(self.entries[a] == before.entries[a]);
                        assert(before.has(r));
                    }
                }
                if before.has(r) {
                    let b = before.index_of(r);
                    assert(self.entries[b] == before.entries[b]);
                    assert(self.has(r));
                }
                if r == e.resource@ {
                    assert(self.has(r));
                }
            }
            assert forall|r: Seq<char>| self@.dom().contains(r) implies #[trigger] self@[r] == target[r] by {
                let a = self.index_of(r);
                self.lemma_at(a);
                if a < n {
                    assert(self.entries[a] == before.entries[a]);
                    before.lemma_at(a);
                }
            }
            assert(self@ =~= target);
        }
    }

    /// Whether `resource` is locked, in either mode.
    pub fn is_locked(&self, resource: &str) -> (locked: bool)
        requires
            self.wf(),
        ensures
            locked == self@.contains_key(resource@),
    {
        let name = resource.to_owned();
        self.find(&name).is_some()
    }

    /// Grants `resource` to (`uid`, `owner`) if the table allows it, and
    /// says whether it did. A refusal changes nothing.
    pub fn lock(&mut self, resource: &str, uid: &str, owner: &str, exclusive: bool) -> (granted: bool)
        requires
            old(self).wf(),
        ensures
            final(self).wf(),
            granted == can_lock(old(self)@, resource@, exclusive),
            final(self)@ == if granted {
                lock_one(old(self)@, resource@, HolderView { uid: uid@, owner: owner@ }, exclusive)
            } else {
                old(self)@
            },
    {
        let name = resource.to_owned();
        let holder = Holder { uid: uid.to_owned(), owner: owner.to_owned() };
        match self.find(&name) {
            None => {
                let mut holders: Vec<Holder> = Vec::new();
                holders.push(holder);
                let e = Entry { resource: name, writer: exclusive, holders };
                assert(entry_view(e).holders =~= seq![holder@]);
                self.put(e);
                true
            },
            Some(i) => {
                if exclusive || self.entries[i].writer {
                    proof {
                        self.lemma_at(i as int);
                    }
                    false
                } else {
                    let ghost t = self@;
                    let mut e = self.take(i);
                    let ghost before = e.holders@;
                    e.holders.push(holder);
                    assert(entry_view(e).holders =~= holders_of(before).push(holder@));
                    self.put(e);
                    assert(t.remove(name@).insert(name@, entry_view(e)) =~= t.insert(name@, entry_view(e)));
                    true
                }
            },
        }
    }

    /// Gives back one hold of (`uid`, `owner`) on `resource` in the given
    /// mode, and says whether there was one. Without one nothing changes.
    pub fn unlock(&mut self, resource: &str, uid: &str, owner: &str, exclusive: bool) -> (released: bool)
        requires
            old(self).wf(),
        ensures
            final(self).wf(),
            released == holds(old(self)@, resource@, HolderView { uid: uid@, owner: owner@ }, exclusive),
            final(self)@ == unlock_one(
                old(self)@,
                resource@,
                HolderView { uid: uid@, owner: owner@ },
                exclusive,
            ),
    {
        let name = resource.to_owned();
        let uid = uid.to_owned();
        let owner = owner.to_owned();
        match self.find(&name) {
            None => false,
            Some(i) => {
                if self.entries[i].writer != exclusive {
                    proof {
                        self.lemma_at(i as int);
                    }
                    false
                } else {
                    let ghost t = self@;
                    let mut e = self.take(i);
                    let ghost before = holders_of(e.holders@);
                    let found = remove_last_holder(&mut e.holders, &uid, &owner);
                    proof {
                        if !found {
                            lemma_without_last_absent(before, HolderView { uid: uid@, owner: owner@ });
                        }
                    }
                    if e.holders.len() > 0 {
                        proof {
                            if !found {
                                assert(entry_view(e) == t[name@]);
                            }
                        }
                        self.put(e);
                        assert(t.remove(name@).insert(name@, entry_view(e)) =~= t.insert(
                            name@,
                            entry_view(e),
                        ));
                        assert(!found ==> t.insert(name@, t[name@]) =~= t);
                    } else {
                        assert(found) by {
                            if !found {
                                assert(holders_of(e.holders@).len() == t[name@].holders.len());
                            }
                        }
                    }
                    found
                }
            },
        }
    }

    /// Clears `resource`, whoever holds it, and says whether it was locked.
    pub fn force_unlock(&mut self, resource: &str) -> (cleared: bool)
        requires
            old(self).wf(),
        ensures
            final(self).wf(),
            cleared == old(self)@.contains_key(resource@),
            final(self)@ == old(self)@.remove(resource@),
    {
        let name = resource.to_owned();
        match self.find(&name) {
            None => {
                assert(self@.remove(name@) =~= self@);
                false
            },
            Some(i) => {
                let _ = self.take(i);
                true
            },
        }
    }
    fn may_lock(&self, resource: &String, exclusive: bool) -> (ok: bool)
        requires
            self.wf(),
        ensures
            ok == can_lock(self@, resource@, exclusive),
    {
        match self.find(resource) {
            None => true,
            Some(i) => {
                proof {
                    self.lemma_at(i as int);
                }
                !exclusive && !self.entries[i].writer
            },
        }
    }

    /// Grants every resource of the request to its holder, or none of them:
    /// the request is granted if each resource can be locked in the given
    /// mode. A resource named twice is granted once.
    pub fn lock_all(&mut self, args: &LockArgs, exclusive: bool) -> (granted: bool)
        requires
            old(self).wf(),
        ensures
            final(self).wf(),
            granted == can_lock_all(old(self)@, args@.resources, exclusive),
            final(self)@ == if granted {
                lock_all(old(self)@, args@.resources, holder_of(args@), exclusive)
            } else {
                old(self)@
            },
    {
        let ghost t = self@;
        let ghost rs = args@.resources;
        let ghost h = holder_of(args@);
        let n = args.resources.len();
        let mut i: usize = 0;
        while i < n
            invariant
                i <= n,
                n == args.resources.len(),
                rs == args@.resources,
                self.wf(),
                self@ == t,
                forall|j: int| 0 <= j < i ==> can_lock(t, #[trigger] rs[j], exclusive),
            decreases n - i,
        {
            if !self.may_lock(&args.resources[i], exclusive) {
                assert(!can_lock(t, rs[i as int], exclusive));
                return false;
            }
            i += 1;
        }
        i = 0;
        assert(lock_all(t, rs.take(0), h, exclusive) =~= t);
        while i < n
            invariant
                i <= n,
                n == args.resources.len(),
                rs == args@.resources,
                h == holder_of(args@),
                can_lock_all(t, rs, exclusive),
                self.wf(),
                self@ == lock_all(t, rs.take(i as int), h, exclusive),
            decreases n - i,
        {
            proof {
                lemma_lock_all_step(t, rs, i as int, h, exclusive);
                lemma_take_contains(rs, i as int);
            }
            if !seen_before(&args.resources, i) {
                let _ = self.lock(args.resources[i].as_str(), args.uid.as_str(), args.owner.as_str(), exclusive);
            }
            i += 1;
        }
        assert(rs.take(n as int) =~= rs);
        true
    }

    /// Gives back one hold on every resource of the request that its holder
    /// holds in the given mode, and says whether there was any.
    pub fn unlock_all(&mut self, args: &LockArgs, exclusive: bool) -> (released: bool)
        requires
            old(self).wf(),
        ensures
            final(self).wf(),
            released == holds_any(old(self)@, args@.resources, holder_of(args@), exclusive),
            final(self)@ == unlock_all(old(self)@, args@.resources, holder_of(args@), exclusive),
    {
        let ghost t = self@;
        let ghost rs = args@.resources;
        let ghost h = holder_of(args@);
        let n = args.resources.len();
        let mut released = false;
        let mut i: usize = 0;
        assert(unlock_all(t, rs.take(0), h, exclusive) =~= t);
        while i < n
            invariant
                i <= n,
                n == args.resources.len(),
                rs == args@.resources,
                h == holder_of(args@),
                self.wf(),
                self@ == unlock_all(t, rs.take(i as int), h, exclusive),
                released == exists|j: int| 0 <= j < i && holds(t, #[trigger] rs[j], h, exclusive),
            decreases n - i,
        {
            proof {
                lemma_unlock_all_step(t, rs, i as int, h, exclusive);
                lemma_take_contains(rs, i as int);
            }
            let ghost before = released;
            if !seen_before(&args.resources, i) {
                let one = self.unlock(
                    args.resources[i].as_str(),
                    args.uid.as_str(),
                    args.owner.as_str(),
                    exclusive,
                );
                released = released || one;
            }
            proof {
                let now = exists|j: int| 0 <= j < i + 1 && holds(t, #[trigger] rs[j], h, exclusive);
                if now {
                    let j = choose|j: int| 0 <= j < i + 1 && holds(t, #[trigger] rs[j], h, exclusive);
                    if j == i && rs.take(i as int).contains(rs[i as int]) {
                        let k = choose|k: int| 0 <= k < i && rs[k] == rs[i as int];
                        assert(holds(t, rs[k], h, exclusive));
                    }
                }
                if released {
                    if before {
                        let j = choose|j: int| 0 <= j < i && holds(t, #[trigger] rs[j], h, exclusive);
                        assert(holds(t, rs[j], h, exclusive));
                    } else {
                        assert(holds(t, rs[i as int], h, exclusive));
                    }
                }
                assert(released == now);
            }
            i += 1;
        }
        assert(rs.take(n as int) =~= rs);
        released
    }

    /// Clears every resource of the request, whoever holds it, and says
    /// whether any of them was locked.
    pub fn force_unlock_all(&mut self, args: &LockArgs) -> (cleared: bool)
        requires
            old(self).wf(),
        ensures
            final(self).wf(),
            cleared == locked_any(old(self)@, args@.resources),
            final(self)@ == force_unlock_all(old(self)@, args@.resources),
    {
        let ghost t = self@;
        let ghost rs = args@.resources;
        let n = args.resources.len();
        let mut cleared = false;
        let mut i: usize = 0;
        assert(force_unlock_all(t, rs.take(0)) =~= t);
        while i < n
            invariant
                i <= n,
                n == args.resources.len(),
                rs == args@.resources,
                self.wf(),
                self@ == force_unlock_all(t, rs.take(i as int)),
                cleared == exists|j: int| 0 <= j < i && t.contains_key(#[trigger] rs[j]),
            decreases n - i,
        {
            proof {
                lemma_force_unlock_all_step(t, rs, i as int);
            }
            let ghost before = cleared;
            let one = self.force_unlock(args.resources[i].as_str());
            cleared = cleared || one;
            proof {
                let now = exists|j: int| 0 <= j < i + 1 && t.contains_key(#[trigger] rs[j]);
                if now {
                    let j = choose|j: int| 0 <= j < i + 1 && t.contains_key(#[trigger] rs[j]);
                    if j == i && !one {
                        let k = choose|k: int| 0 <= k < i && rs[k] == rs[i as int];
                        assert(t.contains_key(rs[k]));
                    }
                }
                if cleared {
                    if before {
                        let j = choose|j: int| 0 <= j < i && t.contains_key(#[trigger] rs[j]);
                        assert(t.contains_key(rs[j]));
                    } else {
                        assert(t.contains_key(rs[i as int]));
                    }
                }
                assert(cleared == now);
            }
            i += 1;
        }
        assert(rs.take(n as int) =~= rs);
        cleared
    }

    /// Whether a lock granted under the request id `uid` is still in the
    /// table.
    pub fn refresh(&self, uid: &str) -> (alive: bool)
        requires
            self.wf(),
        ensures
            alive == held_by_uid(self@, uid@),
    {
        let wanted = uid.to_owned();
        let mut i: usize = 0;
        while i < self.entries.len()
            invariant
                self.wf(),
                wanted@ == uid@,
                i <= self.entries.len(),
                forall|a: int, b: int|
                    0 <= a < i && 0 <= b < self.entries[a].holders.len() ==> (
                    #[trigger] self.entries[a].holders[b]).uid@ != uid@,
            decreases self.entries.len() - i,
        {
            let mut j: usize = 0;
            while j < self.entries[i as usize].holders.len()
                invariant
                    self.wf(),
                    wanted@ == uid@,
                    i < self.entries.len(),
                    j <= self.entries[i as int].holders.len(),
                    forall|b: int| 0 <= b < j ==> (#[trigger] self.entries[i as int].holders[b]).uid@ != uid@,
                decreases self.entries[i as int].holders.len() - j,
            {
                if self.entries[i].holders[j].uid == wanted {
                    proof {
                        self.lemma_at(i as int);
                        let r = self.entries[i as int].resource@;
                        assert(self@.contains_key(r));
                        assert(self@[r].holders.len() == self.entries[i as int].holders.len());
                        assert(self@[r].holders[j as int] == self.entries[i as int].holders[j as int]@);
                        assert(self@[r].holders[j as int].uid == uid@);
                        assert(held_by_uid(self@, uid@));
                    }
                    return true;
                }
                j += 1;
            }
            i += 1;
        }
        proof {
            if held_by_uid(self@, uid@) {
                let (r, b) = choose|r: Seq<char>, b: int|
                    self@.contains_key(r) && 0 <= b < self@[r].holders.len() && (
                    #[trigger] self@[r].holders[b]).uid == uid@;
                let a = self.index_of(r);
                self.lemma_at(a);
                assert(self.entries[a].holders[b].uid@ == uid@);
            }
        }
        false
    }
}

/// Whether the name at `i` occurs earlier in the list.
fn seen_before(names: &Vec<String>, i: usize) -> (seen: bool)
    requires
        i < names.len(),
    ensures
        seen == exists|j: int| 0 <= j < i && names_of(names@)[j] == names_of(names@)[i as int],
{
    let mut j: usize = 0;
    while j < i
        invariant
            j <= i,
            i < names.len(),
            forall|k: int| 0 <= k < j ==> names_of(names@)[k] != names_of(names@)[i as int],
        decreases i - j,
    {
        if names[j] == names[i] {
            assert(names_of(names@)[j as int] == names_of(names@)[i as int]);
            return true;
        }
        j += 1;
    }
    false
}

} // verus!
