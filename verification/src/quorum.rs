//! Counting grants, and why two quorums of one cluster cannot both form.

use vstd::prelude::*;

verus! {

/// The number of `true` answers.
pub open spec fn count_true(s: Seq<bool>) -> nat
    decreases s.len(),
{
    if s.len() == 0 {
        0
    } else {
        count_true(s.drop_last()) + if s.last() {
            1nat
        } else {
            0nat
        }
    }
}

/// One more answer adds one to the count if it is a grant.
pub proof fn lemma_count_push(s: Seq<bool>, b: bool)
    ensures
        count_true(s.push(b)) == count_true(s) + if b {
            1nat
        } else {
            0nat
        },
{
    assert(s.push(b).drop_last() =~= s);
}

/// Where every answer is a grant, the count is the number of answers.
pub proof fn lemma_count_all(s: Seq<bool>)
    requires
        forall|i: int| 0 <= i < s.len() ==> s[i],
    ensures
        count_true(s) == s.len(),
    decreases s.len(),
{
    if s.len() > 0 {
        assert(s.last());
        assert forall|i: int| 0 <= i < s.drop_last().len() implies s.drop_last()[i] by {
            assert(s.drop_last()[i] == s[i]);
        }
        lemma_count_all(s.drop_last());
    }
}

/// Two sets of answers from the same lockers, of which no locker is in
/// both, have no more members together than there are lockers.
pub proof fn lemma_count_disjoint(p: Seq<bool>, g: Seq<bool>)
    requires
        p.len() == g.len(),
        forall|i: int| 0 <= i < p.len() ==> !(p[i] && g[i]),
    ensures
        count_true(p) + count_true(g) <= p.len(),
    decreases p.len(),
{
    if p.len() > 0 {
        assert(!(p.last() && g.last()));
        assert forall|i: int| 0 <= i < p.drop_last().len() implies !(p.drop_last()[i] && g.drop_last()[i]) by {
            assert(p.drop_last()[i] == p[i]);
            assert(g.drop_last()[i] == g[i]);
        }
        lemma_count_disjoint(p.drop_last(), g.drop_last());
    }
}

/// A set of answers that holds another has at least as many members.
pub proof fn lemma_count_monotone(p: Seq<bool>, g: Seq<bool>)
    requires
        p.len() == g.len(),
        forall|i: int| 0 <= i < p.len() ==> (p[i] ==> g[i]),
    ensures
        count_true(p) <= count_true(g),
    decreases p.len(),
{
    if p.len() > 0 {
        assert(p.last() ==> g.last());
        assert forall|i: int| 0 <= i < p.drop_last().len() implies !p.drop_last()[i] || g.drop_last()[i] by {
            assert(p.drop_last()[i] == p[i]);
            assert(g.drop_last()[i] == g[i]);
        }
        lemma_count_monotone(p.drop_last(), g.drop_last());
    }
}

/// The smallest quorum of which two cannot both form among `lockers`
/// lockers: more than half of them.
pub open spec fn majority_of(lockers: nat) -> nat {
    lockers / 2 + 1
}

/// The majority quorum of a cluster of `lockers` lockers.
pub fn majority(lockers: usize) -> (quorum: usize)
    ensures
        quorum == majority_of(lockers as nat),
        2 * quorum > lockers,
        lockers > 0 ==> quorum <= lockers,
{
    lockers / 2 + 1
}

/// Counts the grants among the answers.
pub fn count_grants(answers: &Vec<bool>) -> (n: usize)
    ensures
        n == count_true(answers@),
{
    let mut n: usize = 0;
    let mut i: usize = 0;
    while i < answers.len()
        invariant
            i <= answers.len(),
            n == count_true(answers@.take(i as int)),
            n <= i,
        decreases answers.len() - i,
    {
        proof {
            lemma_count_push(answers@.take(i as int), answers@[i as int]);
            assert(answers@.take(i as int).push(answers@[i as int]) =~= answers@.take(i as int + 1));
        }
        if answers[i] {
            n += 1;
        }
        i += 1;
    }
    assert(answers@.take(answers.len() as int) =~= answers@);
    n
}

/// Whether the answers hold at least `quorum` grants.
pub fn check_quorum(answers: &Vec<bool>, quorum: usize) -> (reached: bool)
    ensures
        reached == (count_true(answers@) >= quorum),
{
    count_grants(answers) >= quorum
}

} // verus!
