//! The vote ledger: per-round bookkeeping of prevotes and precommits,
//! lookup of a validator's recorded vote, power sums per target, quorum
//! search, and the laws that rule double counting out.

use vstd::prelude::*;

use crate::power::lemma_disjoint_no_two_quorums;
use crate::power::lemma_quorum_intersection;
use crate::power::spec_has_fault_threshold;
use crate::power::lemma_sum_empty;
use crate::power::lemma_sum_nonneg;
use crate::power::lemma_sum_prefix;
use crate::power::lemma_sum_subset;
use crate::power::everyone;
use crate::power::has_quorum;
use crate::power::spec_has_quorum;
use crate::power::sum_over;
use crate::power::total_of;
use crate::BlockIdentifier;
use crate::ValidatorIndex;

verus! {

broadcast use vstd::set::group_set_axioms;

/// The target of a single vote: a concrete block, or nil when the voter
/// could not support any proposal in time.
#[derive(Debug, Clone, Copy, PartialEq, Eq, Structural)]
pub enum VoteTarget {
    Block(BlockIdentifier),
    Nil,
}

/// One recorded vote of one validator in one round.
#[derive(Debug, Clone, Copy, PartialEq, Eq, Structural)]
pub struct VoteEntry {
    pub round: usize,
    pub signer: ValidatorIndex,
    pub target: VoteTarget,
}

/// Whether entry `e` is a vote of validator `v` in round `r`.
pub open spec fn entry_is(e: VoteEntry, r: int, v: int) -> bool {
    e.round == r && e.signer == v
}

/// Whether the ledger records any vote of validator `v` in round `r`.
pub open spec fn has_vote(entries: Seq<VoteEntry>, r: int, v: int) -> bool {
    exists|i: int| 0 <= i < entries.len() && entry_is(entries[i], r, v)
}

/// Whether the ledger records a vote of validator `v` for `t` in round `r`.
pub open spec fn has_vote_for(entries: Seq<VoteEntry>, r: int, v: int, t: VoteTarget) -> bool {
    exists|i: int| 0 <= i < entries.len() && entry_is(entries[i], r, v) && entries[i].target == t
}

/// The validators recorded as voting for `t` in round `r`.
pub open spec fn voters_for(entries: Seq<VoteEntry>, r: int, t: VoteTarget) -> Set<int> {
    Set::new(|v: int| has_vote_for(entries, r, v, t))
}

/// The validators recorded as voting at all in round `r`.
pub open spec fn round_voters(entries: Seq<VoteEntry>, r: int) -> Set<int> {
    Set::new(|v: int| has_vote(entries, r, v))
}

/// The validators recorded in either ledger as voting in round `r`.
pub open spec fn joint_round_voters(pre: Seq<VoteEntry>, prec: Seq<VoteEntry>, r: int) -> Set<
    int,
> {
    Set::new(|v: int| has_vote(pre, r, v) || has_vote(prec, r, v))
}

/// A well-formed ledger: every signer is a committee member, and no
/// validator has more than one recorded vote in any round.
pub open spec fn ledger_wf(entries: Seq<VoteEntry>, n: int) -> bool {
    &&& forall|i: int| 0 <= i < entries.len() ==> (#[trigger] entries[i]).signer < n
    &&& forall|i: int, j: int|
        0 <= i < entries.len() && 0 <= j < entries.len() && (#[trigger] entries[i]).round == (
        #[trigger] entries[j]).round && entries[i].signer == entries[j].signer ==> i == j
}

/// Appending a first vote of a validator for a round keeps the ledger
/// well formed, leaves every recorded vote standing, and records the new
/// one.
pub proof fn lemma_ledger_push(entries: Seq<VoteEntry>, e: VoteEntry, n: int)
    requires
        ledger_wf(entries, n),
        e.signer < n,
        !has_vote(entries, e.round as int, e.signer as int),
    ensures
        ledger_wf(entries.push(e), n),
        forall|r: int, v: int, t: VoteTarget|
            has_vote_for(entries, r, v, t) ==> #[trigger] has_vote_for(entries.push(e), r, v, t),
        forall|r: int, v: int, t: VoteTarget|
            #[trigger] has_vote_for(entries.push(e), r, v, t) ==> has_vote_for(entries, r, v, t)
                || (r == e.round && v == e.signer && t == e.target),
        has_vote_for(entries.push(e), e.round as int, e.signer as int, e.target),
{
    let xs = entries.push(e);
    assert forall|i: int, j: int|
        0 <= i < xs.len() && 0 <= j < xs.len() && (#[trigger] xs[i]).round == (
        #[trigger] xs[j]).round && xs[i].signer == xs[j].signer implies i == j by {
        if i < entries.len() && j < entries.len() {
            assert(entries[i] == xs[i] && entries[j] == xs[j]);
        } else if i < entries.len() && j == entries.len() {
            assert(entry_is(entries[i], e.round as int, e.signer as int));
        } else if j < entries.len() && i == entries.len() {
            assert(entry_is(entries[j], e.round as int, e.signer as int));
        }
    }
    assert forall|r: int, v: int, t: VoteTarget| has_vote_for(entries, r, v, t) implies #[trigger]
    has_vote_for(xs, r, v, t) by {
        let i = choose|i: int|
            0 <= i < entries.len() && entry_is(entries[i], r, v) && entries[i].target == t;
        assert(entry_is(xs[i], r, v) && xs[i].target == t);
    }
    assert forall|r: int, v: int, t: VoteTarget| #[trigger]
    has_vote_for(xs, r, v, t) implies has_vote_for(entries, r, v, t) || (r == e.round && v
        == e.signer && t == e.target) by {
        let i = choose|i: int| 0 <= i < xs.len() && entry_is(xs[i], r, v) && xs[i].target == t;
        if i < entries.len() {
            assert(entry_is(entries[i], r, v) && entries[i].target == t);
        }
    }
    assert(entry_is(xs[entries.len() as int], e.round as int, e.signer as int));
}

/// Votes for two different targets in one round come from disjoint sets
/// of validators: a well-formed ledger never counts one validator toward
/// two targets.
pub proof fn lemma_voters_disjoint(entries: Seq<VoteEntry>, n: int, r: int, t1: VoteTarget, t2: VoteTarget)
    requires
        ledger_wf(entries, n),
        t1 != t2,
    ensures
        voters_for(entries, r, t1).disjoint(voters_for(entries, r, t2)),
{
    assert forall|v: int| voters_for(entries, r, t1).contains(v) implies !voters_for(
        entries,
        r,
        t2,
    ).contains(v) by {
        if has_vote_for(entries, r, v, t2) {
            let i = choose|i: int|
                0 <= i < entries.len() && entry_is(entries[i], r, v) && entries[i].target == t1;
            let j = choose|j: int|
                0 <= j < entries.len() && entry_is(entries[j], r, v) && entries[j].target == t2;
            assert(i == j);
        }
    }
}

/// Two different targets can never both hold a quorum in the same round
/// of a well-formed ledger.
pub proof fn lemma_no_two_quorums(
    powers: Seq<u64>,
    entries: Seq<VoteEntry>,
    r: int,
    t1: VoteTarget,
    t2: VoteTarget,
)
    requires
        ledger_wf(entries, powers.len() as int),
        t1 != t2,
        spec_has_quorum(
            sum_over(powers, voters_for(entries, r, t1), powers.len() as int),
            total_of(powers),
        ),
    ensures
        !spec_has_quorum(
            sum_over(powers, voters_for(entries, r, t2), powers.len() as int),
            total_of(powers),
        ),
{
    lemma_voters_disjoint(entries, powers.len() as int, r, t1, t2);
    lemma_disjoint_no_two_quorums(powers, voters_for(entries, r, t1), voters_for(entries, r, t2));
}

/// The validators whose recorded round-`r` votes differ between two views
/// of the tally: each such validator signed two conflicting votes.
pub open spec fn cross_equivocators(l1: Seq<VoteEntry>, l2: Seq<VoteEntry>, r: int) -> Set<int> {
    Set::new(
        |v: int|
            exists|t1: VoteTarget, t2: VoteTarget|
                t1 != t2 && #[trigger] has_vote_for(l1, r, v, t1) && #[trigger] has_vote_for(
                    l2,
                    r,
                    v,
                    t2,
                ),
    )
}

/// Agreement within a round: when two views of one round's votes hold
/// quorums for two different blocks, the validators that voted differently
/// in the two views hold strictly more than a third of the total power.
/// As long as faulty validators hold at most one third, no two nodes can
/// ever observe quorums for different blocks in the same round.
pub proof fn lemma_same_round_agreement(
    powers: Seq<u64>,
    l1: Seq<VoteEntry>,
    l2: Seq<VoteEntry>,
    r: int,
    x1: usize,
    x2: usize,
)
    requires
        x1 != x2,
        spec_has_quorum(
            sum_over(powers, voters_for(l1, r, VoteTarget::Block(x1)), powers.len() as int),
            total_of(powers),
        ),
        spec_has_quorum(
            sum_over(powers, voters_for(l2, r, VoteTarget::Block(x2)), powers.len() as int),
            total_of(powers),
        ),
    ensures
        spec_has_fault_threshold(
            sum_over(powers, cross_equivocators(l1, l2, r), powers.len() as int),
            total_of(powers),
        ),
{
    let a = voters_for(l1, r, VoteTarget::Block(x1));
    let b = voters_for(l2, r, VoteTarget::Block(x2));
    lemma_quorum_intersection(powers, a, b);
    assert forall|v: int| a.intersect(b).contains(v) implies cross_equivocators(
        l1,
        l2,
        r,
    ).contains(v) by {
        assert(has_vote_for(l1, r, v, VoteTarget::Block(x1)));
        assert(has_vote_for(l2, r, v, VoteTarget::Block(x2)));
    }
    lemma_sum_subset(powers, a.intersect(b), cross_equivocators(l1, l2, r), powers.len() as int);
}

/// Looks up the recorded vote of validator `v` in round `r`; the first
/// recorded vote stands, and in a well-formed ledger it is the only one.
pub fn find_vote(entries: &Vec<VoteEntry>, r: usize, v: usize) -> (res: Option<VoteTarget>)
    ensures
        match res {
            Some(t) => has_vote_for(entries@, r as int, v as int, t),
            None => !has_vote(entries@, r as int, v as int),
        },
{
    let mut i: usize = 0;
    while i < entries.len()
        invariant
            i <= entries.len(),
            forall|k: int| 0 <= k < i ==> !entry_is(entries@[k], r as int, v as int),
        decreases entries.len() - i,
    {
        if entries[i].round == r && entries[i].signer == v {
            return Some(entries[i].target);
        }
        i = i + 1;
    }
    None
}

/// The summed power of the validators that voted for `t` in round `r`.
pub fn power_for(entries: &Vec<VoteEntry>, powers: &Vec<u64>, r: usize, t: VoteTarget) -> (s: u64)
    requires
        total_of(powers@) <= u64::MAX,
        ledger_wf(entries@, powers@.len() as int),
    ensures
        s == sum_over(powers@, voters_for(entries@, r as int, t), powers@.len() as int),
{
    let ghost voters = voters_for(entries@, r as int, t);
    let mut acc: u64 = 0;
    let mut v: usize = 0;
    while v < powers.len()
        invariant
            v <= powers.len(),
            total_of(powers@) <= u64::MAX,
            ledger_wf(entries@, powers@.len() as int),
            voters == voters_for(entries@, r as int, t),
            acc == sum_over(powers@, voters, v as int),
        decreases powers.len() - v,
    {
        let vote = find_vote(entries, r, v);
        proof {
            lemma_sum_nonneg(powers@, voters, v as int);
            lemma_sum_subset(powers@, voters, everyone(), v as int + 1);
            lemma_sum_prefix(powers@, everyone(), v + 1, powers@.len() as int);
            match vote {
                Some(t2) => {
                    if t2 != t && has_vote_for(entries@, r as int, v as int, t) {
                        let i = choose|i: int|
                            0 <= i < entries@.len() && entry_is(entries@[i], r as int, v as int)
                                && entries@[i].target == t;
                        let j = choose|j: int|
                            0 <= j < entries@.len() && entry_is(entries@[j], r as int, v as int)
                                && entries@[j].target == t2;
                        assert(i == j);
                    }
                },
                None => {
                    assert(!has_vote_for(entries@, r as int, v as int, t));
                },
            }
        }
        match vote {
            Some(t2) => {
                if t2 == t {
                    acc = acc + powers[v];
                }
            },
            None => {},
        }
        v = v + 1;
    }
    acc
}

/// The summed power of the validators with any recorded vote in round `r`,
/// whatever its target.
pub fn power_voted(entries: &Vec<VoteEntry>, powers: &Vec<u64>, r: usize) -> (s: u64)
    requires
        total_of(powers@) <= u64::MAX,
    ensures
        s == sum_over(powers@, round_voters(entries@, r as int), powers@.len() as int),
{
    let ghost voters = round_voters(entries@, r as int);
    let mut acc: u64 = 0;
    let mut v: usize = 0;
    while v < powers.len()
        invariant
            v <= powers.len(),
            total_of(powers@) <= u64::MAX,
            voters == round_voters(entries@, r as int),
            acc == sum_over(powers@, voters, v as int),
        decreases powers.len() - v,
    {
        let vote = find_vote(entries, r, v);
        proof {
            lemma_sum_nonneg(powers@, voters, v as int);
            lemma_sum_subset(powers@, voters, everyone(), v as int + 1);
            lemma_sum_prefix(powers@, everyone(), v + 1, powers@.len() as int);
        }
        match vote {
            Some(_) => {
                acc = acc + powers[v];
            },
            None => {},
        }
        v = v + 1;
    }
    acc
}

/// The summed power of the validators with any recorded vote in round `r`
/// in either ledger: the evidence considered for a round skip.
pub fn power_voted_joint(
    pre: &Vec<VoteEntry>,
    prec: &Vec<VoteEntry>,
    powers: &Vec<u64>,
    r: usize,
) -> (s: u64)
    requires
        total_of(powers@) <= u64::MAX,
    ensures
        s == sum_over(powers@, joint_round_voters(pre@, prec@, r as int), powers@.len() as int),
{
    let ghost voters = joint_round_voters(pre@, prec@, r as int);
    let mut acc: u64 = 0;
    let mut v: usize = 0;
    while v < powers.len()
        invariant
            v <= powers.len(),
            total_of(powers@) <= u64::MAX,
            voters == joint_round_voters(pre@, prec@, r as int),
            acc == sum_over(powers@, voters, v as int),
        decreases powers.len() - v,
    {
        let vote_pre = find_vote(pre, r, v);
        let vote_prec = find_vote(prec, r, v);
        proof {
            lemma_sum_nonneg(powers@, voters, v as int);
            lemma_sum_subset(powers@, voters, everyone(), v as int + 1);
            lemma_sum_prefix(powers@, everyone(), v + 1, powers@.len() as int);
        }
        if vote_pre.is_some() || vote_prec.is_some() {
            acc = acc + powers[v];
        }
        v = v + 1;
    }
    acc
}

/// Finds a block that holds a quorum among the round-`r` votes of the
/// ledger, if any block does.
pub fn find_quorum_block(
    entries: &Vec<VoteEntry>,
    powers: &Vec<u64>,
    r: usize,
    total: u64,
) -> (res: Option<BlockIdentifier>)
    requires
        total_of(powers@) <= u64::MAX,
        total == total_of(powers@),
        ledger_wf(entries@, powers@.len() as int),
    ensures
        match res {
            Some(x) => spec_has_quorum(
                sum_over(
                    powers@,
                    voters_for(entries@, r as int, VoteTarget::Block(x)),
                    powers@.len() as int,
                ),
                total_of(powers@),
            ),
            None => forall|x: usize|
                !spec_has_quorum(
                    sum_over(
                        powers@,
                        #[trigger] voters_for(entries@, r as int, VoteTarget::Block(x)),
                        powers@.len() as int,
                    ),
                    total_of(powers@),
                ),
        },
{
    let n = powers.len();
    let mut i: usize = 0;
    while i < entries.len()
        invariant
            i <= entries.len(),
            total_of(powers@) <= u64::MAX,
            total == total_of(powers@),
            ledger_wf(entries@, powers@.len() as int),
            forall|k: int|
                0 <= k < i && (#[trigger] entries@[k]).round == r && entries@[k].target is Block
                    ==> !spec_has_quorum(
                    sum_over(
                        powers@,
                        voters_for(entries@, r as int, entries@[k].target),
                        powers@.len() as int,
                    ),
                    total_of(powers@),
                ),
        decreases entries.len() - i,
    {
        if entries[i].round == r {
            match entries[i].target {
                VoteTarget::Block(x) => {
                    let s = power_for(entries, powers, r, VoteTarget::Block(x));
                    if has_quorum(s, total) {
                        return Some(x);
                    }
                },
                VoteTarget::Nil => {},
            }
        }
        i = i + 1;
    }
    proof {
        assert forall|x: usize|
            !spec_has_quorum(
                sum_over(
                    powers@,
                    #[trigger] voters_for(entries@, r as int, VoteTarget::Block(x)),
                    powers@.len() as int,
                ),
                total_of(powers@),
            ) by {
            let t = VoteTarget::Block(x);
            if exists|k: int|
                0 <= k < entries@.len() && entry_is(
                    entries@[k],
                    entries@[k].round as int,
                    entries@[k].signer as int,
                ) && entries@[k].round == r && entries@[k].target == t {
                let k = choose|k: int|
                    0 <= k < entries@.len() && entry_is(
                        entries@[k],
                        entries@[k].round as int,
                        entries@[k].signer as int,
                    ) && entries@[k].round == r && entries@[k].target == t;
                assert(entries@[k].target == t && entries@[k].round == r);
            } else {
                assert forall|v: int| !voters_for(entries@, r as int, t).contains(v) by {
                    if has_vote_for(entries@, r as int, v, t) {
                        let k = choose|k: int|
                            0 <= k < entries@.len() && entry_is(entries@[k], r as int, v)
                                && entries@[k].target == t;
                        assert(entry_is(
                            entries@[k],
                            entries@[k].round as int,
                            entries@[k].signer as int,
                        ));
                    }
                }
                lemma_sum_empty(powers@, voters_for(entries@, r as int, t), powers@.len() as int);
                lemma_sum_nonneg(powers@, everyone(), powers@.len() as int);
            }
        }
    }
    None
}

} // verus!
