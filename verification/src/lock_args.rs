//! The descriptor of one lock request.

use vstd::prelude::*;

verus! {

/// The names that a vector of strings holds, in order.
pub open spec fn names_of(v: Seq<String>) -> Seq<Seq<char>> {
    Seq::new(v.len(), |i: int| v[i]@)
}

/// A lock request as the mathematics sees it.
pub struct LockArgsView {
    pub uid: Seq<char>,
    pub resources: Seq<Seq<char>>,
    pub owner: Seq<char>,
    pub source: Seq<char>,
    pub quorum: nat,
}

impl LockArgsView {
    /// A request names at least one resource and asks for no more grants
    /// than there are lockers to give them.
    pub open spec fn valid_for(self, lockers: nat) -> bool {
        self.resources.len() > 0 && self.quorum <= lockers
    }
}

/// One lock request: who asks (`owner`), under which request id (`uid`),
/// for which resources, and how many lockers have to agree (`quorum`).
/// `resources` are locked in the order given on every node.
#[derive(Debug)]
pub struct LockArgs {
    pub uid: String,
    pub resources: Vec<String>,
    pub owner: String,
    pub source: String,
    pub quorum: usize,
}

impl View for LockArgs {
    type V = LockArgsView;

    open spec fn view(&self) -> LockArgsView {
        LockArgsView {
            uid: self.uid@,
            resources: names_of(self.resources@),
            owner: self.owner@,
            source: self.source@,
            quorum: self.quorum as nat,
        }
    }
}

impl LockArgs {
    pub fn new(uid: String, resources: Vec<String>, owner: String, source: String, quorum: usize) -> (args: LockArgs)
        ensures
            args@ == (LockArgsView {
                uid: uid@,
                resources: names_of(resources@),
                owner: owner@,
                source: source@,
                quorum: quorum as nat,
            }),
    {
        LockArgs { uid, resources, owner, source, quorum }
    }

    /// Whether the request is well formed for a cluster of `lockers` lockers.
    pub fn is_valid_for(&self, lockers: usize) -> (ok: bool)
        ensures
            ok == self@.valid_for(lockers as nat),
    {
        self.resources.len() > 0 && self.quorum <= lockers
    }
}

/// A copy of a list of names.
pub fn clone_names(v: &Vec<String>) -> (out: Vec<String>)
    ensures
        names_of(out@) == names_of(v@),
{
    let mut out: Vec<String> = Vec::new();
    let mut i: usize = 0;
    while i < v.len()
        invariant
            i <= v.len(),
            out.len() == i,
            forall|j: int| 0 <= j < i ==> out[j]@ == v[j]@,
        decreases v.len() - i,
    {
        out.push(v[i].clone());
        i += 1;
    }
    assert(names_of(out@) =~= names_of(v@));
    out
}

} // verus!
