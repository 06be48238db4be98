//! The round/step state machine: the consensus state for one height, and
//! the dispatcher that consumes one event and emits the ordered responses.

use vstd::prelude::*;
use vstd::string::StringExecFns;

use crate::power::spec_has_fault_threshold;
use crate::power::spec_has_quorum;
use crate::power::sum_over;
use crate::power::total_of;
use crate::power::has_quorum;
use crate::power::has_fault_threshold;
use crate::power::total_power;
use crate::tally::find_quorum_block;
use crate::tally::find_vote;
use crate::tally::has_vote;
use crate::tally::has_vote_for;
use crate::tally::joint_round_voters;
use crate::tally::ledger_wf;
use crate::tally::lemma_ledger_push;
use crate::tally::lemma_no_two_quorums;
use crate::tally::lemma_same_round_agreement;
use crate::tally::cross_equivocators;
use crate::tally::power_for;
use crate::tally::power_voted;
use crate::tally::power_voted_joint;
use crate::tally::round_voters;
use crate::tally::voters_for;
use crate::tally::VoteEntry;
use crate::tally::VoteTarget;
use crate::BlockIdentifier;
use crate::ConsensusEvent;
use crate::ConsensusResponse;
use crate::HeightInfo;
use crate::Timestamp;
use crate::ValidatorIndex;

verus! {

/// The phase of the current round; `Decided` is terminal for the height.
#[derive(Debug, Clone, Copy, PartialEq, Eq, Structural)]
pub enum ConsensusStep {
    Propose,
    Prevote,
    Precommit,
    Decided,
}

/// The proposal recorded for one round: the first proposal received from
/// that round's legitimate proposer.
#[derive(Debug, Clone, Copy, PartialEq, Eq, Structural)]
pub struct ProposalEntry {
    pub round: usize,
    pub proposal: BlockIdentifier,
}

/// The first favor signal recorded for one proposal.
#[derive(Debug, Clone, Copy, PartialEq, Eq, Structural)]
pub struct FavorEntry {
    pub proposal: BlockIdentifier,
    pub favor: bool,
}

/// The position of a step in the forward order of a round.
pub open spec fn step_ord(s: ConsensusStep) -> int {
    match s {
        ConsensusStep::Propose => 0,
        ConsensusStep::Prevote => 1,
        ConsensusStep::Precommit => 2,
        ConsensusStep::Decided => 3,
    }
}

/// Whether position `(r1, s1)` comes no later than `(r2, s2)` in the
/// lexicographic order of rounds and steps.
pub open spec fn rs_le(r1: int, s1: ConsensusStep, r2: int, s2: ConsensusStep) -> bool {
    r1 < r2 || (r1 == r2 && step_ord(s1) <= step_ord(s2))
}

/// A usable height description: a nonempty committee that contains this
/// node, whose total power fits the machine's power arithmetic.
pub open spec fn info_wf(info: HeightInfo) -> bool {
    &&& info.validators@.len() >= 1
    &&& info.this_node_index < info.validators@.len()
    &&& total_of(info.validators@) <= u64::MAX
}

/// Whether a proposal `p` is recorded for round `r`.
pub open spec fn has_proposal(ps: Seq<ProposalEntry>, r: int, p: int) -> bool {
    exists|i: int| 0 <= i < ps.len() && (#[trigger] ps[i]).round == r && ps[i].proposal == p
}

/// Whether any proposal is recorded for round `r`.
pub open spec fn has_any_proposal(ps: Seq<ProposalEntry>, r: int) -> bool {
    exists|i: int| 0 <= i < ps.len() && (#[trigger] ps[i]).round == r
}

/// At most one proposal is recorded per round.
pub open spec fn proposals_wf(ps: Seq<ProposalEntry>) -> bool {
    forall|i: int, j: int|
        0 <= i < ps.len() && 0 <= j < ps.len() && (#[trigger] ps[i]).round == (
        #[trigger] ps[j]).round ==> i == j
}

/// Whether favor signal `f` is recorded for proposal `p`.
pub open spec fn has_favor(fs: Seq<FavorEntry>, p: int, f: bool) -> bool {
    exists|i: int| 0 <= i < fs.len() && (#[trigger] fs[i]).proposal == p && fs[i].favor == f
}

/// Whether any favor signal is recorded for proposal `p`.
pub open spec fn has_any_favor(fs: Seq<FavorEntry>, p: int) -> bool {
    exists|i: int| 0 <= i < fs.len() && (#[trigger] fs[i]).proposal == p
}

/// At most one favor signal is recorded per proposal.
pub open spec fn favors_wf(fs: Seq<FavorEntry>) -> bool {
    forall|i: int, j: int|
        0 <= i < fs.len() && 0 <= j < fs.len() && (#[trigger] fs[i]).proposal == (
        #[trigger] fs[j]).proposal ==> i == j
}

/// Whether the responses contain a violation report against validator `v`.
pub open spec fn reports(rs: Seq<ConsensusResponse>, v: int) -> bool {
    exists|i: int|
        0 <= i < rs.len() && (#[trigger] rs[i]) is ViolationReport && rs[i]->ViolationReport_violator
            == v
}

/// The per-round timeout: the base timeout scaled linearly with the round
/// number, saturating at the largest representable duration, so that later
/// rounds get not-shorter timeouts.
pub open spec fn spec_round_timeout(base: u64, round: int) -> int {
    let m = if round + 1 > u64::MAX { u64::MAX as int } else { round + 1 };
    if base * m > u64::MAX { u64::MAX as int } else { base * m }
}

/// The absolute deadline reached `dur` after `now`, saturating at the
/// largest representable timestamp.
pub open spec fn spec_deadline(now: int, dur: int) -> int {
    if now + dur > i64::MAX { i64::MAX as int } else { now + dur }
}

/// The state of the consensus during a single height.
///
/// The fields are public so that contracts and callers can observe them;
/// they must only be mutated through [`ConsensusState::new`] and
/// [`progress`], which preserve the state's well-formedness.
#[derive(Debug, Clone, PartialEq, Eq)]
pub struct ConsensusState {
    /// The immutable height description supplied at construction.
    pub info: HeightInfo,
    /// The total voting power of the committee.
    pub total: u64,
    /// The current round; never decreases within the height.
    pub round: usize,
    /// The phase within the current round.
    pub step: ConsensusStep,
    /// Whether the round-0 entry actions have run.
    pub started: bool,
    /// The block this node is locked on, with the round of the lock.
    pub locked_value: Option<BlockIdentifier>,
    pub locked_round: Option<usize>,
    /// The highest-round block known to have reached a prevote quorum.
    pub valid_value: Option<BlockIdentifier>,
    pub valid_round: Option<usize>,
    /// Every prevote received this height, at most one per validator and
    /// round; an equivocating second vote is never recorded.
    pub prevotes: Vec<VoteEntry>,
    /// Every precommit received this height, under the same rule.
    pub precommits: Vec<VoteEntry>,
    /// The proposal recorded for each round, at most one per round.
    pub proposals: Vec<ProposalEntry>,
    /// The favor signal recorded for each proposal, at most one each.
    pub favors: Vec<FavorEntry>,
    /// The pending propose timeout of the current round, if any.
    pub propose_deadline: Option<Timestamp>,
    /// The pending prevote timeout of the current round, if any.
    pub prevote_deadline: Option<Timestamp>,
    /// Whether the prevote timeout was already scheduled this round; it is
    /// scheduled at most once per round.
    pub prevote_timer_armed: bool,
    /// The pending precommit timeout of the current round, if any.
    pub precommit_deadline: Option<Timestamp>,
    /// The finalized block, once decided.
    pub decision: Option<BlockIdentifier>,
}

impl ConsensusState {
    /// The internal invariant of the state: established by `new` and
    /// preserved by every event.
    pub open spec fn wf(self) -> bool {
        &&& info_wf(self.info)
        &&& self.total == total_of(self.info.validators@)
        &&& ledger_wf(self.prevotes@, self.info.validators@.len() as int)
        &&& ledger_wf(self.precommits@, self.info.validators@.len() as int)
        &&& proposals_wf(self.proposals@)
        &&& favors_wf(self.favors@)
        &&& (self.locked_value is Some <==> self.locked_round is Some)
        &&& (self.valid_value is Some <==> self.valid_round is Some)
        &&& (self.locked_value is Some ==> self.valid_value is Some)
        &&& (self.locked_round is Some ==> self.locked_round->0 <= self.valid_round->0)
        &&& (self.valid_round is Some ==> self.valid_round->0 <= self.round)
        &&& (self.decision is Some <==> self.step is Decided)
        &&& (self.decision matches Some(x) ==> spec_has_quorum(
            sum_over(
                self.info.validators@,
                voters_for(self.precommits@, self.round as int, VoteTarget::Block(x as usize)),
                self.info.validators@.len() as int,
            ),
            total_of(self.info.validators@),
        ))
    }

    /// Prepares the initial state of the consensus: round 0, step
    /// `Propose`, empty ledgers, no lock, with the round-0 propose timeout
    /// counted from the height's starting timestamp.
    pub fn new(height_info: HeightInfo) -> (s: ConsensusState)
        requires
            info_wf(height_info),
        ensures
            s.wf(),
            s.info == height_info,
            s.round == 0,
            s.step is Propose,
            !s.started,
            s.locked_value is None,
            s.valid_value is None,
            s.prevotes@.len() == 0,
            s.precommits@.len() == 0,
            s.proposals@.len() == 0,
            s.favors@.len() == 0,
            s.decision is None,
            settled(s),
            s.prevote_deadline is None,
            s.precommit_deadline is None,
            !s.prevote_timer_armed,
            s.propose_deadline == Some(
                spec_deadline(
                    height_info.timestamp as int,
                    spec_round_timeout(height_info.consensus_params.timeout_ms, 0),
                ) as i64,
            ),
    {
        let total = total_power(&height_info.validators);
        let dur = round_timeout(height_info.consensus_params.timeout_ms, 0);
        let deadline = deadline_after(height_info.timestamp, dur);
        ConsensusState {
            info: height_info,
            total,
            round: 0,
            step: ConsensusStep::Propose,
            started: false,
            locked_value: None,
            locked_round: None,
            valid_value: None,
            valid_round: None,
            prevotes: Vec::new(),
            precommits: Vec::new(),
            proposals: Vec::new(),
            favors: Vec::new(),
            propose_deadline: Some(deadline),
            prevote_deadline: None,
            prevote_timer_armed: false,
            precommit_deadline: None,
            decision: None,
        }
    }

    /// The legitimate proposer of a round: plain round-robin over the
    /// leader-ordered committee.
    pub fn proposer_of(&self, round: usize) -> (v: ValidatorIndex)
        requires
            info_wf(self.info),
        ensures
            v == round as int % self.info.validators@.len() as int,
    {
        round % self.info.validators.len()
    }
}

/// Every vote recorded in `pre` is still recorded in `post`: a recorded
/// vote never changes and is never dropped.
pub open spec fn votes_preserved(pre: Seq<VoteEntry>, post: Seq<VoteEntry>) -> bool {
    forall|r: int, v: int, t: VoteTarget|
        has_vote_for(pre, r, v, t) ==> #[trigger] has_vote_for(post, r, v, t)
}

/// `post` extends `pre`: earlier responses stand unchanged.
pub open spec fn extends(pre: Seq<ConsensusResponse>, post: Seq<ConsensusResponse>) -> bool {
    pre.len() <= post.len() && forall|i: int| 0 <= i < pre.len() ==> #[trigger] post[i] == pre[i]
}

/// No response from position `from` on is a `BroadcastPrevote`.
pub open spec fn no_prevote_resp(rs: Seq<ConsensusResponse>, from: int) -> bool {
    forall|i: int| from <= i < rs.len() ==> !((#[trigger] rs[i]) is BroadcastPrevote)
}

/// No response from position `from` on is a `BroadcastPrecommit`.
pub open spec fn no_bprecommit_resp(rs: Seq<ConsensusResponse>, from: int) -> bool {
    forall|i: int| from <= i < rs.len() ==> !((#[trigger] rs[i]) is BroadcastPrecommit)
}

/// Every `BroadcastPrecommit` from position `from` on names a block that
/// holds a prevote quorum, in its own round, among `prevotes`.
pub open spec fn precommits_quorate(
    rs: Seq<ConsensusResponse>,
    from: int,
    powers: Seq<u64>,
    prevotes: Seq<VoteEntry>,
) -> bool {
    forall|i: int|
        from <= i < rs.len() && (#[trigger] rs[i]) is BroadcastPrecommit ==> block_quorum(
            powers,
            prevotes,
            rs[i]->BroadcastPrecommit_round as int,
            rs[i]->BroadcastPrecommit_proposal as int,
        )
}

/// Every `BroadcastPrevote` from position `from` on votes for the locked
/// value, when one is locked.
pub open spec fn prevotes_locked(
    rs: Seq<ConsensusResponse>,
    from: int,
    lock: Option<BlockIdentifier>,
) -> bool {
    forall|i: int|
        from <= i < rs.len() && (#[trigger] rs[i]) is BroadcastPrevote && lock is Some
            ==> rs[i]->BroadcastPrevote_proposal == lock->0
}

/// The per-round timeout duration; see [`spec_round_timeout`].
pub fn round_timeout(base: u64, round: usize) -> (d: u64)
    ensures
        d == spec_round_timeout(base, round as int),
{
    let m: u64 = match (round as u64).checked_add(1) {
        Some(m) => m,
        None => u64::MAX,
    };
    match base.checked_mul(m) {
        Some(d) => d,
        None => u64::MAX,
    }
}

/// The absolute deadline `dur` after `now`; see [`spec_deadline`].
pub fn deadline_after(now: Timestamp, dur: u64) -> (d: Timestamp)
    ensures
        d == spec_deadline(now as int, dur as int),
{
    match now.checked_add_unsigned(dur) {
        Some(d) => d,
        None => i64::MAX,
    }
}

/// Whether a scheduled deadline has expired at `now`. Each deadline
/// fires at most once: the state machine clears it as it fires.
pub fn is_expired(deadline: Timestamp, now: Timestamp) -> (r: bool)
    ensures
        r == (now >= deadline),
{
    now >= deadline
}

/// Looks up the proposal recorded for round `r`; the first recorded
/// proposal stands.
pub fn find_proposal(ps: &Vec<ProposalEntry>, r: usize) -> (res: Option<BlockIdentifier>)
    ensures
        match res {
            Some(p) => has_proposal(ps@, r as int, p as int),
            None => !has_any_proposal(ps@, r as int),
        },
{
    let mut i: usize = 0;
    while i < ps.len()
        invariant
            i <= ps.len(),
            forall|k: int| 0 <= k < i ==> (#[trigger] ps@[k]).round != r,
        decreases ps.len() - i,
    {
        if ps[i].round == r {
            return Some(ps[i].proposal);
        }
        i = i + 1;
    }
    None
}

/// Looks up the favor signal recorded for proposal `p`; the first recorded
/// signal stands.
pub fn find_favor(fs: &Vec<FavorEntry>, p: BlockIdentifier) -> (res: Option<bool>)
    ensures
        match res {
            Some(f) => has_favor(fs@, p as int, f),
            None => !has_any_favor(fs@, p as int),
        },
{
    let mut i: usize = 0;
    while i < fs.len()
        invariant
            i <= fs.len(),
            forall|k: int| 0 <= k < i ==> (#[trigger] fs@[k]).proposal != p,
        decreases fs.len() - i,
    {
        if fs[i].proposal == p {
            return Some(fs[i].favor);
        }
        i = i + 1;
    }
    None
}

impl ConsensusState {
    /// Enters `Propose` of round `r`: reschedules the propose timeout,
    /// clears the other deadlines, and, when this node is the round's
    /// proposer, asks the caller to create and broadcast a proposal. The
    /// lock, the valid value and all ledgers are carried forward
    /// unchanged.
    fn start_round(&mut self, r: usize, now: Timestamp, out: &mut Vec<ConsensusResponse>)
        requires
            old(self).wf(),
            !(old(self).step is Decided),
            old(self).round < r,
        ensures
            final(self).wf(),
            final(self).round == r,
            final(self).step is Propose,
            final(self).info == old(self).info,
            final(self).total == old(self).total,
            final(self).started == old(self).started,
            final(self).locked_value == old(self).locked_value,
            final(self).locked_round == old(self).locked_round,
            final(self).valid_value == old(self).valid_value,
            final(self).valid_round == old(self).valid_round,
            final(self).prevotes == old(self).prevotes,
            final(self).precommits == old(self).precommits,
            final(self).proposals == old(self).proposals,
            final(self).favors == old(self).favors,
            final(self).decision is None,
            old(self).info.this_node_index == r as int % old(self).info.validators@.len() as int
                ==> final(out)@ == old(out)@.push(
                (ConsensusResponse::CreateAndBroadcastProposal { round: r }),
            ),
            old(self).info.this_node_index != r as int % old(self).info.validators@.len() as int
                ==> final(out)@ == old(out)@,
            extends(old(out)@, final(out)@),
            no_prevote_resp(final(out)@, old(out)@.len() as int),
            no_bprecommit_resp(final(out)@, old(out)@.len() as int),
            forall|i: int|
                old(out)@.len() <= i < final(out)@.len() ==> !((#[trigger] final(out)@[i])
                    is ViolationReport),
    {
        self.round = r;
        self.step = ConsensusStep::Propose;
        let dur = round_timeout(self.info.consensus_params.timeout_ms, r);
        self.propose_deadline = Some(deadline_after(now, dur));
        self.prevote_deadline = None;
        self.prevote_timer_armed = false;
        self.precommit_deadline = None;
        let me = self.info.this_node_index;
        if self.proposer_of(r) == me {
            out.push(ConsensusResponse::CreateAndBroadcastProposal { round: r });
        }
    }

    /// The `Propose` stage: once the round's proposal and its favor signal
    /// are both known, broadcast a prevote for the proposal when it is
    /// favored and compatible with the lock, and a nil prevote otherwise,
    /// then move to `Prevote`.
    ///
    /// Lock compatibility deliberately takes the narrow, safety-preserving
    /// reading: a favored proposal is prevoted only when no value is
    /// locked or the locked value itself is proposed again. The wider
    /// conventional rule would also unlock on a proposal justified by a
    /// claimed later prevote-quorum round; the events of this interface
    /// carry no such claim, so a locked node never unlocks for a
    /// different value, and the contract states exactly this rule.
    fn check_propose(&mut self, out: &mut Vec<ConsensusResponse>)
        requires
            old(self).wf(),
        ensures
            final(self).wf(),
            !(old(self).step is Propose) ==> *final(self) == *old(self) && final(out)@ == old(
                out,
            )@,
            final(self).round == old(self).round,
            old(self).step is Propose ==> (final(self).step is Propose || final(self).step
                is Prevote),
            rs_le(
                old(self).round as int,
                old(self).step,
                final(self).round as int,
                final(self).step,
            ),
            final(self).info == old(self).info,
            final(self).total == old(self).total,
            final(self).started == old(self).started,
            final(self).locked_value == old(self).locked_value,
            final(self).locked_round == old(self).locked_round,
            final(self).valid_value == old(self).valid_value,
            final(self).valid_round == old(self).valid_round,
            final(self).prevotes == old(self).prevotes,
            final(self).precommits == old(self).precommits,
            final(self).proposals == old(self).proposals,
            final(self).favors == old(self).favors,
            final(self).decision == old(self).decision,
            // A recorded proposal with a recorded favor signal, at step
            // Propose, forces the prevote broadcast and the step.
            forall|p: int|
                old(self).step is Propose && 0 <= p <= usize::MAX && #[trigger] has_proposal(
                    old(self).proposals@,
                    old(self).round as int,
                    p,
                ) && has_any_favor(old(self).favors@, p) ==> (final(self).step is Prevote && (
                has_favor(old(self).favors@, p, true) && (old(self).locked_value is None || old(
                    self,
                ).locked_value == Some(p as usize)) ==> final(out)@ == old(out)@.push(
                    (ConsensusResponse::BroadcastPrevote {
                        proposal: p as usize,
                        round: old(self).round,
                    }),
                )) && (!(has_favor(old(self).favors@, p, true) && (old(self).locked_value is None
                    || old(self).locked_value == Some(p as usize))) ==> final(out)@ == old(
                    out,
                )@.push((ConsensusResponse::BroadcastNilPrevote { round: old(self).round })))),
            // The step leaves `Propose` only on a completed proposal.
            old(self).step is Propose && !(final(self).step is Propose) ==> (exists|p: int|
                0 <= p <= usize::MAX && #[trigger] has_proposal(
                    old(self).proposals@,
                    old(self).round as int,
                    p,
                ) && has_any_favor(old(self).favors@, p)),
            propose_idle(*final(self)),
            propose_idle(*old(self)) ==> (*final(self) == *old(self) && final(out)@ == old(
                out,
            )@),
            extends(old(out)@, final(out)@),
            no_bprecommit_resp(final(out)@, old(out)@.len() as int),
            prevotes_locked(final(out)@, old(out)@.len() as int, old(self).locked_value),
            forall|i: int|
                old(out)@.len() <= i < final(out)@.len() ==> !((#[trigger] final(out)@[i])
                    is ViolationReport),
    {
        if !(self.step == ConsensusStep::Propose) {
            return ;
        }
        let p_opt = find_proposal(&self.proposals, self.round);
        proof {
            let ps = old(self).proposals@;
            let r = old(self).round as int;
            match p_opt {
                None => {
                    assert forall|pp: int| #[trigger] has_proposal(ps, r, pp) implies false by {
                        let i = choose|i: int|
                            0 <= i < ps.len() && (#[trigger] ps[i]).round == r && ps[i].proposal
                                == pp;
                    }
                },
                Some(p) => {
                    assert forall|pp: int|
                        0 <= pp <= usize::MAX && #[trigger] has_proposal(
                            ps,
                            r,
                            pp,
                        ) implies pp as usize == p by {
                        let i = choose|i: int|
                            0 <= i < ps.len() && (#[trigger] ps[i]).round == r && ps[i].proposal
                                == pp;
                        let j = choose|j: int|
                            0 <= j < ps.len() && (#[trigger] ps[j]).round == r && ps[j].proposal
                                == p as int;
                        assert(i == j);
                    }
                },
            }
        }
        match p_opt {
            None => {},
            Some(p) => {
                let fav_opt = find_favor(&self.favors, p);
                proof {
                    let fs = old(self).favors@;
                    match fav_opt {
                        None => {
                            assert(!has_any_favor(fs, p as int));
                        },
                        Some(f) => {
                            if !f && has_favor(fs, p as int, true) {
                                let i = choose|i: int|
                                    0 <= i < fs.len() && (#[trigger] fs[i]).proposal == p as int
                                        && fs[i].favor == true;
                                let j = choose|j: int|
                                    0 <= j < fs.len() && (#[trigger] fs[j]).proposal == p as int
                                        && fs[j].favor == f;
                                assert(i == j);
                            }
                        },
                    }
                }
                match fav_opt {
                    None => {},
                    Some(f) => {
                        let compatible = match self.locked_value {
                            None => true,
                            Some(l) => l == p,
                        };
                        if f && compatible {
                            out.push(
                                ConsensusResponse::BroadcastPrevote {
                                    proposal: p,
                                    round: self.round,
                                },
                            );
                        } else {
                            out.push(ConsensusResponse::BroadcastNilPrevote { round: self.round });
                        }
                        self.step = ConsensusStep::Prevote;
                        self.propose_deadline = None;
                    },
                }
            },
        }
    }

    /// The `Prevote` stage: on a prevote quorum for a block, remember it
    /// as the valid value, lock on it and precommit it when it is favored,
    /// and precommit nil otherwise; on a nil quorum, precommit nil; on
    /// fault-threshold participation without a quorum, arm the prevote
    /// timeout once.
    fn check_prevote(&mut self, now: Timestamp, out: &mut Vec<ConsensusResponse>)
        requires
            old(self).wf(),
        ensures
            final(self).wf(),
            !(old(self).step is Prevote) ==> *final(self) == *old(self) && final(out)@ == old(
                out,
            )@,
            final(self).round == old(self).round,
            old(self).step is Prevote ==> (final(self).step is Prevote || final(self).step
                is Precommit),
            rs_le(
                old(self).round as int,
                old(self).step,
                final(self).round as int,
                final(self).step,
            ),
            final(self).info == old(self).info,
            final(self).total == old(self).total,
            final(self).started == old(self).started,
            final(self).prevotes == old(self).prevotes,
            final(self).precommits == old(self).precommits,
            final(self).proposals == old(self).proposals,
            final(self).favors == old(self).favors,
            final(self).decision == old(self).decision,
            old(self).locked_round is Some ==> final(self).locked_round is Some && old(
                self,
            ).locked_round->0 <= final(self).locked_round->0,
            // A lock is only ever taken on a block that holds a prevote
            // quorum in the round that becomes the lock round.
            final(self).locked_value != old(self).locked_value ==> (final(self).locked_value
                is Some && final(self).locked_round == Some(old(self).round) && block_quorum(
                old(self).info.validators@,
                old(self).prevotes@,
                old(self).round as int,
                final(self).locked_value->0 as int,
            )),
            // A prevote quorum for a block at step Prevote forces the
            // transition: the block becomes the valid value, it is locked
            // and precommitted when favored, and nil is precommitted
            // otherwise.
            forall|x: int|
                old(self).step is Prevote && 0 <= x <= usize::MAX && #[trigger] block_quorum(
                    old(self).info.validators@,
                    old(self).prevotes@,
                    old(self).round as int,
                    x,
                ) ==> (final(self).step is Precommit && final(self).valid_value == Some(
                    x as usize,
                ) && final(self).valid_round == Some(old(self).round) && (has_favor(
                    old(self).favors@,
                    x,
                    true,
                ) ==> final(self).locked_value == Some(x as usize) && final(out)@ == old(
                    out,
                )@.push(
                    ConsensusResponse::BroadcastPrecommit {
                        proposal: x as usize,
                        round: old(self).round,
                    },
                )) && (!has_favor(old(self).favors@, x, true) ==> final(out)@ == old(out)@.push(
                    ConsensusResponse::BroadcastNilPrecommit { round: old(self).round },
                ))),
            // A nil prevote quorum with no block quorum forces the nil
            // precommit.
            old(self).step is Prevote && nil_quorum(
                old(self).info.validators@,
                old(self).prevotes@,
                old(self).round as int,
            ) && (forall|x: int|
                0 <= x <= usize::MAX ==> !(#[trigger] block_quorum(
                    old(self).info.validators@,
                    old(self).prevotes@,
                    old(self).round as int,
                    x,
                ))) ==> (final(self).step is Precommit && final(out)@ == old(out)@.push(
                ConsensusResponse::BroadcastNilPrecommit { round: old(self).round },
            )),
            precommits_quorate(
                final(out)@,
                old(out)@.len() as int,
                old(self).info.validators@,
                old(self).prevotes@,
            ),
            // The step leaves `Prevote` only on a quorum.
            old(self).step is Prevote && !(final(self).step is Prevote) ==> ((exists|x: int|
                0 <= x <= usize::MAX && #[trigger] block_quorum(
                    old(self).info.validators@,
                    old(self).prevotes@,
                    old(self).round as int,
                    x,
                )) || nil_quorum(
                old(self).info.validators@,
                old(self).prevotes@,
                old(self).round as int,
            )),
            prevote_idle(*final(self)),
            prevote_idle(*old(self)) ==> (*final(self) == *old(self) && final(out)@ == old(
                out,
            )@),
            // Without a quorum nothing is emitted and the step stands.
            (forall|x: int|
                !(#[trigger] block_quorum(
                    old(self).info.validators@,
                    old(self).prevotes@,
                    old(self).round as int,
                    x,
                ))) && !nil_quorum(
                old(self).info.validators@,
                old(self).prevotes@,
                old(self).round as int,
            ) ==> (final(out)@ == old(out)@ && final(self).step == old(self).step),
            extends(old(out)@, final(out)@),
            no_prevote_resp(final(out)@, old(out)@.len() as int),
            forall|i: int|
                old(out)@.len() <= i < final(out)@.len() ==> !((#[trigger] final(out)@[i])
                    is ViolationReport),
    {
        if !(self.step == ConsensusStep::Prevote) {
            return ;
        }
        let q = find_quorum_block(&self.prevotes, &self.info.validators, self.round, self.total);
        match q {
            Some(x) => {
                self.valid_value = Some(x);
                self.valid_round = Some(self.round);
                let fav_opt = find_favor(&self.favors, x);
                let favored = match fav_opt {
                    Some(f) => f,
                    None => false,
                };
                proof {
                    let powers = old(self).info.validators@;
                    let r = old(self).round as int;
                    assert(block_quorum(powers, old(self).prevotes@, r, x as int));
                    assert forall|xx: int| #[trigger] block_quorum(
                        powers,
                        old(self).prevotes@,
                        r,
                        xx,
                    ) implies xx as usize == x by {
                        if xx as usize != x {
                            lemma_no_two_quorums(
                                powers,
                                old(self).prevotes@,
                                r,
                                VoteTarget::Block(x),
                                VoteTarget::Block(xx as usize),
                            );
                        }
                    }
                    let fs = old(self).favors@;
                    if !favored && has_favor(fs, x as int, true) {
                        let i = choose|i: int|
                            0 <= i < fs.len() && (#[trigger] fs[i]).proposal == x as int
                                && fs[i].favor == true;
                        match fav_opt {
                            Some(f) => {
                                let j = choose|j: int|
                                    0 <= j < fs.len() && (#[trigger] fs[j]).proposal == x as int
                                        && fs[j].favor == f;
                                assert(i == j);
                            },
                            None => {
                                assert(!has_any_favor(fs, x as int));
                            },
                        }
                    }
                }
                if favored {
                    self.locked_value = Some(x);
                    self.locked_round = Some(self.round);
                    out.push(
                        ConsensusResponse::BroadcastPrecommit { proposal: x, round: self.round },
                    );
                } else {
                    out.push(ConsensusResponse::BroadcastNilPrecommit { round: self.round });
                }
                self.enter_precommit(now);
            },
            None => {
                let nil_power = power_for(
                    &self.prevotes,
                    &self.info.validators,
                    self.round,
                    VoteTarget::Nil,
                );
                if has_quorum(nil_power, self.total) {
                    out.push(ConsensusResponse::BroadcastNilPrecommit { round: self.round });
                    self.enter_precommit(now);
                } else {
                    let voted = power_voted(&self.prevotes, &self.info.validators, self.round);
                    if has_fault_threshold(voted, self.total) && !self.prevote_timer_armed {
                        let dur = round_timeout(self.info.consensus_params.timeout_ms, self.round);
                        self.prevote_deadline = Some(deadline_after(now, dur));
                        self.prevote_timer_armed = true;
                    }
                }
            },
        }
    }

    /// Enters `Precommit` of the current round and schedules its timeout.
    fn enter_precommit(&mut self, now: Timestamp)
        requires
            old(self).wf(),
            !(old(self).step is Decided),
        ensures
            final(self).wf(),
            *final(self) == (ConsensusState {
                step: ConsensusStep::Precommit,
                prevote_deadline: None,
                precommit_deadline: Some(
                    spec_deadline(
                        now as int,
                        spec_round_timeout(
                            old(self).info.consensus_params.timeout_ms,
                            old(self).round as int,
                        ),
                    ) as i64,
                ),
                ..*old(self)
            }),
    {
        self.step = ConsensusStep::Precommit;
        self.prevote_deadline = None;
        let dur = round_timeout(self.info.consensus_params.timeout_ms, self.round);
        self.precommit_deadline = Some(deadline_after(now, dur));
    }

    /// The `Precommit` stage: on a precommit quorum for a block, finalize
    /// it and end the height; on a nil quorum, advance to the next round,
    /// carrying the lock and the valid value forward unchanged.
    fn check_precommit(&mut self, now: Timestamp, out: &mut Vec<ConsensusResponse>)
        requires
            old(self).wf(),
        ensures
            final(self).wf(),
            !(old(self).step is Precommit) ==> *final(self) == *old(self) && final(out)@ == old(
                out,
            )@,
            rs_le(
                old(self).round as int,
                old(self).step,
                final(self).round as int,
                final(self).step,
            ),
            final(self).info == old(self).info,
            final(self).total == old(self).total,
            final(self).started == old(self).started,
            final(self).prevotes == old(self).prevotes,
            final(self).precommits == old(self).precommits,
            final(self).proposals == old(self).proposals,
            final(self).favors == old(self).favors,
            final(self).locked_value == old(self).locked_value,
            final(self).locked_round == old(self).locked_round,
            final(self).valid_value == old(self).valid_value,
            final(self).valid_round == old(self).valid_round,
            old(self).decision is Some ==> final(self).decision == old(self).decision,
            // A block is only ever finalized on a precommit quorum for it
            // in the current round.
            final(self).decision is Some && old(self).decision is None ==> (final(self).step
                is Decided && final(self).round == old(self).round && spec_has_quorum(
                sum_over(
                    old(self).info.validators@,
                    voters_for(
                        old(self).precommits@,
                        old(self).round as int,
                        VoteTarget::Block(final(self).decision->0 as usize),
                    ),
                    old(self).info.validators@.len() as int,
                ),
                total_of(old(self).info.validators@),
            )),
            // A precommit quorum for a block at step Precommit forces the
            // decision and its announcement.
            forall|x: int|
                old(self).step is Precommit && 0 <= x <= usize::MAX && #[trigger] block_quorum(
                    old(self).info.validators@,
                    old(self).precommits@,
                    old(self).round as int,
                    x,
                ) ==> (final(self).step is Decided && final(self).decision == Some(x as usize)
                    && final(self).round == old(self).round && final(out)@ == old(out)@.push(
                    (ConsensusResponse::FinalizeBlock { proposal: x as usize }),
                )),
            // A nil precommit quorum with no block quorum forces the round
            // advance.
            old(self).step is Precommit && nil_quorum(
                old(self).info.validators@,
                old(self).precommits@,
                old(self).round as int,
            ) && (forall|x: int|
                0 <= x <= usize::MAX ==> !(#[trigger] block_quorum(
                    old(self).info.validators@,
                    old(self).precommits@,
                    old(self).round as int,
                    x,
                ))) && old(self).round < usize::MAX ==> (final(self).round == old(self).round + 1
                && final(self).step is Propose),
            no_bprecommit_resp(final(out)@, old(out)@.len() as int),
            // The round advances only on a nil precommit quorum, and the
            // new round's proposer is then asked to propose.
            final(self).round != old(self).round ==> (final(self).round == old(self).round + 1
                && final(self).step is Propose && nil_quorum(
                old(self).info.validators@,
                old(self).precommits@,
                old(self).round as int,
            ) && (old(self).info.this_node_index == final(self).round as int % old(
                self,
            ).info.validators@.len() as int ==> final(out)@ == old(out)@.push(
                (ConsensusResponse::CreateAndBroadcastProposal { round: final(self).round }),
            )) && (old(self).info.this_node_index != final(self).round as int % old(
                self,
            ).info.validators@.len() as int ==> final(out)@ == old(out)@)),
            final(self).round == old(self).round ==> precommit_idle(*final(self)),
            precommit_idle(*old(self)) ==> (*final(self) == *old(self) && final(out)@ == old(
                out,
            )@),
            extends(old(out)@, final(out)@),
            no_prevote_resp(final(out)@, old(out)@.len() as int),
            forall|i: int|
                old(out)@.len() <= i < final(out)@.len() ==> !((#[trigger] final(out)@[i])
                    is ViolationReport),
    {
        if !(self.step == ConsensusStep::Precommit) {
            return ;
        }
        let q = find_quorum_block(&self.precommits, &self.info.validators, self.round, self.total);
        match q {
            Some(x) => {
                proof {
                    assert(block_quorum(
                        old(self).info.validators@,
                        old(self).precommits@,
                        old(self).round as int,
                        x as int,
                    ));
                    assert forall|xx: int| #[trigger] block_quorum(
                        old(self).info.validators@,
                        old(self).precommits@,
                        old(self).round as int,
                        xx,
                    ) implies xx as usize == x by {
                        if xx as usize != x {
                            lemma_no_two_quorums(
                                old(self).info.validators@,
                                old(self).precommits@,
                                old(self).round as int,
                                VoteTarget::Block(x),
                                VoteTarget::Block(xx as usize),
                            );
                        }
                    }
                }
                out.push(ConsensusResponse::FinalizeBlock { proposal: x });
                self.decision = Some(x);
                self.step = ConsensusStep::Decided;
            },
            None => {
                let nil_power = power_for(
                    &self.precommits,
                    &self.info.validators,
                    self.round,
                    VoteTarget::Nil,
                );
                if has_quorum(nil_power, self.total) && self.round < usize::MAX {
                    let next = self.round + 1;
                    self.start_round(next, now, out);
                }
            },
        }
    }
}

/// Whether block `x` holds a quorum among the round-`r` votes of
/// `entries`, over the committee `powers`.
pub open spec fn block_quorum(powers: Seq<u64>, entries: Seq<VoteEntry>, r: int, x: int) -> bool {
    spec_has_quorum(
        sum_over(powers, voters_for(entries, r, VoteTarget::Block(x as usize)), powers.len() as int),
        total_of(powers),
    )
}

/// Whether nil holds a quorum among the round-`r` votes of `entries`.
pub open spec fn nil_quorum(powers: Seq<u64>, entries: Seq<VoteEntry>, r: int) -> bool {
    spec_has_quorum(
        sum_over(powers, voters_for(entries, r, VoteTarget::Nil), powers.len() as int),
        total_of(powers),
    )
}

/// The prevote carried by an event, if it carries one.
pub open spec fn event_prevote(e: ConsensusEvent) -> Option<VoteEntry> {
    match e {
        ConsensusEvent::Prevote { proposal, signer, round, .. } => Some(
            VoteEntry { round, signer, target: VoteTarget::Block(proposal) },
        ),
        ConsensusEvent::NilPrevote { signer, round, .. } => Some(
            VoteEntry { round, signer, target: VoteTarget::Nil },
        ),
        _ => None,
    }
}

/// The precommit carried by an event, if it carries one.
pub open spec fn event_precommit(e: ConsensusEvent) -> Option<VoteEntry> {
    match e {
        ConsensusEvent::Precommit { proposal, signer, round, .. } => Some(
            VoteEntry { round, signer, target: VoteTarget::Block(proposal) },
        ),
        ConsensusEvent::NilPrecommit { signer, round, .. } => Some(
            VoteEntry { round, signer, target: VoteTarget::Nil },
        ),
        _ => None,
    }
}

/// No `Propose` transition is pending: at step `Propose`, the current
/// round has no recorded proposal whose favor signal has also arrived.
pub open spec fn propose_idle(s: ConsensusState) -> bool {
    s.step is Propose ==> forall|p: int|
        #[trigger] has_proposal(s.proposals@, s.round as int, p) ==> !has_any_favor(s.favors@, p)
}

/// No `Prevote` transition is pending: at step `Prevote`, the current
/// round's prevotes hold no quorum, and the prevote timeout is armed
/// whenever the fault threshold is reached.
pub open spec fn prevote_idle(s: ConsensusState) -> bool {
    s.step is Prevote ==> (forall|x: int|
        !(#[trigger] block_quorum(s.info.validators@, s.prevotes@, s.round as int, x)))
        && !nil_quorum(s.info.validators@, s.prevotes@, s.round as int)
        && (spec_has_fault_threshold(
        sum_over(
            s.info.validators@,
            round_voters(s.prevotes@, s.round as int),
            s.info.validators@.len() as int,
        ),
        total_of(s.info.validators@),
    ) ==> s.prevote_timer_armed)
}

/// No `Precommit` transition is pending: at step `Precommit`, the current
/// round's precommits hold no block quorum, nor a nil quorum while a
/// further round is representable.
pub open spec fn precommit_idle(s: ConsensusState) -> bool {
    s.step is Precommit ==> (forall|x: int|
        !(#[trigger] block_quorum(s.info.validators@, s.precommits@, s.round as int, x))) && (
    s.round < usize::MAX ==> !nil_quorum(s.info.validators@, s.precommits@, s.round as int))
}

/// A settled state has no pending enabled transition. `new` yields one,
/// and every event that leaves the round unchanged yields one again; a
/// round change may leave held-over evidence for the new round pending
/// until the next event.
pub open spec fn settled(s: ConsensusState) -> bool {
    propose_idle(s) && prevote_idle(s) && precommit_idle(s)
}

/// Whether some deadline of the current step has expired at `time`.
pub open spec fn timer_due(s: ConsensusState, time: int) -> bool {
    ||| (s.propose_deadline matches Some(d) && s.step is Propose && time >= d)
    ||| (s.prevote_deadline matches Some(d) && s.step is Prevote && time >= d)
    ||| (s.precommit_deadline matches Some(d) && s.step is Precommit && time >= d)
}

impl ConsensusState {
    /// Records one received prevote or precommit. A second conflicting
    /// vote of the same validator in the same round and step is
    /// equivocation: it is reported and never tallied; an exact duplicate
    /// is silently ignored. Votes for a round beyond the current one are
    /// round-skip evidence: once the validators seen voting there hold
    /// more than a third of the power, the state jumps to that round.
    fn on_vote(
        &mut self,
        prevote: bool,
        target: VoteTarget,
        signer: ValidatorIndex,
        vround: usize,
        time: Timestamp,
        out: &mut Vec<ConsensusResponse>,
    )
        requires
            old(self).wf(),
            !(old(self).step is Decided),
        ensures
            final(self).wf(),
            rs_le(
                old(self).round as int,
                old(self).step,
                final(self).round as int,
                final(self).step,
            ),
            final(self).info == old(self).info,
            final(self).total == old(self).total,
            final(self).started == old(self).started,
            final(self).locked_value == old(self).locked_value,
            final(self).locked_round == old(self).locked_round,
            final(self).valid_value == old(self).valid_value,
            final(self).valid_round == old(self).valid_round,
            final(self).decision == old(self).decision,
            final(self).proposals == old(self).proposals,
            final(self).favors == old(self).favors,
            votes_preserved(old(self).prevotes@, final(self).prevotes@),
            votes_preserved(old(self).precommits@, final(self).precommits@),
            prevote ==> final(self).precommits == old(self).precommits,
            !prevote ==> final(self).prevotes == old(self).prevotes,
            // a fresh vote from a committee member is recorded
            signer < old(self).info.validators@.len() && !has_vote(
                if prevote {
                    old(self).prevotes@
                } else {
                    old(self).precommits@
                },
                vround as int,
                signer as int,
            ) ==> has_vote_for(
                if prevote {
                    final(self).prevotes@
                } else {
                    final(self).precommits@
                },
                vround as int,
                signer as int,
                target,
            ),
            // equivocation: reported, and the state stands unchanged
            signer < old(self).info.validators@.len() && has_vote(
                if prevote {
                    old(self).prevotes@
                } else {
                    old(self).precommits@
                },
                vround as int,
                signer as int,
            ) && !has_vote_for(
                if prevote {
                    old(self).prevotes@
                } else {
                    old(self).precommits@
                },
                vround as int,
                signer as int,
                target,
            ) ==> (reports(final(out)@, signer as int) && *final(self) == *old(self)
                && final(out)@.len() == old(out)@.len() + 1 && final(out)@[old(out)@.len() as int]
                is ViolationReport && final(out)@[old(out)@.len() as int]->ViolationReport_violator
                == signer as int),
            // a duplicate vote changes nothing and answers nothing
            has_vote_for(
                if prevote {
                    old(self).prevotes@
                } else {
                    old(self).precommits@
                },
                vround as int,
                signer as int,
                target,
            ) ==> (*final(self) == *old(self) && final(out)@ == old(out)@),
            // no vote beyond the event's own ever appears
            forall|r: int, v: int, t: VoteTarget|
                prevote && #[trigger] has_vote_for(final(self).prevotes@, r, v, t)
                    ==> has_vote_for(old(self).prevotes@, r, v, t) || (r == vround && v == signer
                    && t == target),
            forall|r: int, v: int, t: VoteTarget|
                !prevote && #[trigger] has_vote_for(final(self).precommits@, r, v, t)
                    ==> has_vote_for(old(self).precommits@, r, v, t) || (r == vround && v
                    == signer && t == target),
            final(self).round == old(self).round ==> final(self).step == old(self).step,
            // a fresh vote is recorded by appending it to its ledger
            prevote && signer < old(self).info.validators@.len() && !has_vote(
                old(self).prevotes@,
                vround as int,
                signer as int,
            ) ==> final(self).prevotes@ == old(self).prevotes@.push(
                VoteEntry { round: vround, signer, target },
            ),
            !prevote && signer < old(self).info.validators@.len() && !has_vote(
                old(self).precommits@,
                vround as int,
                signer as int,
            ) ==> final(self).precommits@ == old(self).precommits@.push(
                VoteEntry { round: vround, signer, target },
            ),
            // fault-threshold evidence for a later round forces the skip
            vround > old(self).round && signer < old(self).info.validators@.len() && !has_vote(
                if prevote {
                    old(self).prevotes@
                } else {
                    old(self).precommits@
                },
                vround as int,
                signer as int,
            ) && spec_has_fault_threshold(
                sum_over(
                    old(self).info.validators@,
                    joint_round_voters(
                        final(self).prevotes@,
                        final(self).precommits@,
                        vround as int,
                    ),
                    old(self).info.validators@.len() as int,
                ),
                total_of(old(self).info.validators@),
            ) ==> final(self).round == vround,
            // a fresh vote for the current or an earlier round emits
            // nothing by itself
            signer < old(self).info.validators@.len() && !has_vote(
                if prevote {
                    old(self).prevotes@
                } else {
                    old(self).precommits@
                },
                vround as int,
                signer as int,
            ) && vround <= old(self).round ==> final(out)@ == old(out)@,
            // a round jump only happens on fault-threshold evidence
            final(self).round != old(self).round ==> (final(self).round == vround && old(
                self,
            ).round < vround && final(self).step is Propose && spec_has_fault_threshold(
                sum_over(
                    old(self).info.validators@,
                    joint_round_voters(
                        final(self).prevotes@,
                        final(self).precommits@,
                        vround as int,
                    ),
                    old(self).info.validators@.len() as int,
                ),
                total_of(old(self).info.validators@),
            )),
            extends(old(out)@, final(out)@),
            no_prevote_resp(final(out)@, old(out)@.len() as int),
            no_bprecommit_resp(final(out)@, old(out)@.len() as int),
    {
        let n = self.info.validators.len();
        if signer >= n {
            return ;
        }
        let existing = if prevote {
            find_vote(&self.prevotes, vround, signer)
        } else {
            find_vote(&self.precommits, vround, signer)
        };
        match existing {
            Some(t0) => {
                if t0 == target {
                    return ;
                }
                out.push(
                    ConsensusResponse::ViolationReport {
                        violator: signer,
                        description: String::from_str(
                            "equivocation: conflicting vote in the same round and step",
                        ),
                    },
                );
                proof {
                    assert(out@[out@.len() - 1] is ViolationReport);
                    assert(reports(out@, signer as int));
                }
                return ;
            },
            None => {},
        }
        let e = VoteEntry { round: vround, signer, target };
        proof {
            if prevote {
                lemma_ledger_push(self.prevotes@, e, n as int);
            } else {
                lemma_ledger_push(self.precommits@, e, n as int);
            }
        }
        if prevote {
            self.prevotes.push(e);
        } else {
            self.precommits.push(e);
        }
        if vround > self.round {
            let s = power_voted_joint(
                &self.prevotes,
                &self.precommits,
                &self.info.validators,
                vround,
            );
            if has_fault_threshold(s, self.total) {
                self.start_round(vround, time, out);
            }
        }
    }

    /// Records one received block proposal. A proposal from a validator
    /// that is not the claimed round's proposer is reported and discarded;
    /// otherwise the round's first proposal is recorded and later ones are
    /// ignored.
    fn on_block_proposal(
        &mut self,
        proposal: BlockIdentifier,
        proposer: ValidatorIndex,
        pround: usize,
        out: &mut Vec<ConsensusResponse>,
    )
        requires
            old(self).wf(),
        ensures
            final(self).wf(),
            final(self).info == old(self).info,
            final(self).total == old(self).total,
            final(self).round == old(self).round,
            final(self).step == old(self).step,
            final(self).started == old(self).started,
            final(self).locked_value == old(self).locked_value,
            final(self).locked_round == old(self).locked_round,
            final(self).valid_value == old(self).valid_value,
            final(self).valid_round == old(self).valid_round,
            final(self).prevotes == old(self).prevotes,
            final(self).precommits == old(self).precommits,
            final(self).propose_deadline == old(self).propose_deadline,
            final(self).prevote_deadline == old(self).prevote_deadline,
            final(self).prevote_timer_armed == old(self).prevote_timer_armed,
            final(self).precommit_deadline == old(self).precommit_deadline,
            final(self).decision == old(self).decision,
            final(self).favors == old(self).favors,
            proposer != pround as int % old(self).info.validators@.len() as int ==> (reports(
                final(out)@,
                proposer as int,
            ) && final(self).proposals == old(self).proposals),
            has_any_proposal(old(self).proposals@, pround as int) ==> final(self).proposals@
                == old(self).proposals@,
            proposer == pround as int % old(self).info.validators@.len() as int
                && !has_any_proposal(old(self).proposals@, pround as int) ==> has_proposal(
                final(self).proposals@,
                pround as int,
                proposal as int,
            ),
            proposer == pround as int % old(self).info.validators@.len() as int
                && !has_any_proposal(old(self).proposals@, pround as int)
                ==> final(self).proposals@ == old(self).proposals@.push(
                ProposalEntry { round: pround, proposal },
            ),
            forall|r: int, p: int|
                has_proposal(old(self).proposals@, r, p) ==> #[trigger] has_proposal(
                    final(self).proposals@,
                    r,
                    p,
                ),
            extends(old(out)@, final(out)@),
            no_prevote_resp(final(out)@, old(out)@.len() as int),
            no_bprecommit_resp(final(out)@, old(out)@.len() as int),
    {
        let expected = self.proposer_of(pround);
        if proposer != expected {
            out.push(
                ConsensusResponse::ViolationReport {
                    violator: proposer,
                    description: String::from_str(
                        "block proposal from a validator that is not the round's proposer",
                    ),
                },
            );
            proof {
                assert(out@[out@.len() - 1] is ViolationReport);
                assert(reports(out@, proposer as int));
            }
            return ;
        }
        match find_proposal(&self.proposals, pround) {
            Some(_) => {},
            None => {
                let ghost ps = self.proposals@;
                let entry = ProposalEntry { round: pround, proposal };
                self.proposals.push(entry);
                proof {
                    assert forall|i: int, j: int|
                        0 <= i < ps.push(entry).len() && 0 <= j < ps.push(entry).len() && (
                        #[trigger] ps.push(entry)[i]).round == (#[trigger] ps.push(
                            entry,
                        )[j]).round implies i == j by {
                        if i < ps.len() && j < ps.len() {
                            assert(ps[i] == ps.push(entry)[i] && ps[j] == ps.push(entry)[j]);
                        }
                    }
                    assert forall|r: int, p: int|
                        has_proposal(ps, r, p) implies #[trigger] has_proposal(
                        ps.push(entry),
                        r,
                        p,
                    ) by {
                        let i = choose|i: int|
                            0 <= i < ps.len() && (#[trigger] ps[i]).round == r && ps[i].proposal
                                == p;
                        assert(ps.push(entry)[i] == ps[i]);
                    }
                    assert(ps.push(entry)[ps.len() as int] == entry);
                }
            },
        }
    }

    /// Records the completion of this node's own proposal broadcast: the
    /// proposal becomes the recorded proposal of its round, when this node
    /// is that round's proposer and no proposal is recorded yet.
    fn on_broadcasted(&mut self, proposal: BlockIdentifier, bround: usize)
        requires
            old(self).wf(),
        ensures
            final(self).wf(),
            final(self).info == old(self).info,
            final(self).total == old(self).total,
            final(self).round == old(self).round,
            final(self).step == old(self).step,
            final(self).started == old(self).started,
            final(self).locked_value == old(self).locked_value,
            final(self).locked_round == old(self).locked_round,
            final(self).valid_value == old(self).valid_value,
            final(self).valid_round == old(self).valid_round,
            final(self).prevotes == old(self).prevotes,
            final(self).precommits == old(self).precommits,
            final(self).propose_deadline == old(self).propose_deadline,
            final(self).prevote_deadline == old(self).prevote_deadline,
            final(self).prevote_timer_armed == old(self).prevote_timer_armed,
            final(self).precommit_deadline == old(self).precommit_deadline,
            final(self).decision == old(self).decision,
            final(self).favors == old(self).favors,
            forall|r: int, p: int|
                has_proposal(old(self).proposals@, r, p) ==> #[trigger] has_proposal(
                    final(self).proposals@,
                    r,
                    p,
                ),
            has_any_proposal(old(self).proposals@, bround as int) ==> final(self).proposals@
                == old(self).proposals@,
            bround as int % old(self).info.validators@.len() as int != old(
                self,
            ).info.this_node_index ==> final(self).proposals@ == old(self).proposals@,
            bround as int % old(self).info.validators@.len() as int == old(
                self,
            ).info.this_node_index && !has_any_proposal(old(self).proposals@, bround as int)
                ==> has_proposal(final(self).proposals@, bround as int, proposal as int),
            bround as int % old(self).info.validators@.len() as int == old(
                self,
            ).info.this_node_index && !has_any_proposal(old(self).proposals@, bround as int)
                ==> final(self).proposals@ == old(self).proposals@.push(
                ProposalEntry { round: bround, proposal },
            ),
    {
        let me = self.info.this_node_index;
        if self.proposer_of(bround) != me {
            return ;
        }
        match find_proposal(&self.proposals, bround) {
            Some(_) => {},
            None => {
                let ghost ps = self.proposals@;
                let entry = ProposalEntry { round: bround, proposal };
                self.proposals.push(entry);
                proof {
                    assert forall|i: int, j: int|
                        0 <= i < ps.push(entry).len() && 0 <= j < ps.push(entry).len() && (
                        #[trigger] ps.push(entry)[i]).round == (#[trigger] ps.push(
                            entry,
                        )[j]).round implies i == j by {
                        if i < ps.len() && j < ps.len() {
                            assert(ps[i] == ps.push(entry)[i] && ps[j] == ps.push(entry)[j]);
                        }
                    }
                    assert forall|r: int, p: int|
                        has_proposal(ps, r, p) implies #[trigger] has_proposal(
                        ps.push(entry),
                        r,
                        p,
                    ) by {
                        let i = choose|i: int|
                            0 <= i < ps.len() && (#[trigger] ps[i]).round == r && ps[i].proposal
                                == p;
                        assert(ps.push(entry)[i] == ps[i]);
                    }
                    assert(ps.push(entry)[ps.len() as int] == entry);
                }
            },
        }
    }

    /// Records one favor signal for a proposal; the first signal stands
    /// and later ones are ignored.
    fn on_favor(&mut self, proposal: BlockIdentifier, favor: bool)
        requires
            old(self).wf(),
        ensures
            final(self).wf(),
            final(self).info == old(self).info,
            final(self).total == old(self).total,
            final(self).round == old(self).round,
            final(self).step == old(self).step,
            final(self).started == old(self).started,
            final(self).locked_value == old(self).locked_value,
            final(self).locked_round == old(self).locked_round,
            final(self).valid_value == old(self).valid_value,
            final(self).valid_round == old(self).valid_round,
            final(self).prevotes == old(self).prevotes,
            final(self).precommits == old(self).precommits,
            final(self).propose_deadline == old(self).propose_deadline,
            final(self).prevote_deadline == old(self).prevote_deadline,
            final(self).prevote_timer_armed == old(self).prevote_timer_armed,
            final(self).precommit_deadline == old(self).precommit_deadline,
            final(self).decision == old(self).decision,
            final(self).proposals == old(self).proposals,
            has_any_favor(old(self).favors@, proposal as int) ==> final(self).favors@ == old(
                self,
            ).favors@,
            !has_any_favor(old(self).favors@, proposal as int) ==> has_favor(
                final(self).favors@,
                proposal as int,
                favor,
            ),
            !has_any_favor(old(self).favors@, proposal as int)
                ==> final(self).favors@ == old(self).favors@.push(
                FavorEntry { proposal, favor },
            ),
            forall|p: int, f: bool|
                has_favor(old(self).favors@, p, f) ==> #[trigger] has_favor(
                    final(self).favors@,
                    p,
                    f,
                ),
    {
        match find_favor(&self.favors, proposal) {
            Some(_) => {},
            None => {
                let ghost fs = self.favors@;
                let entry = FavorEntry { proposal, favor };
                self.favors.push(entry);
                proof {
                    assert forall|i: int, j: int|
                        0 <= i < fs.push(entry).len() && 0 <= j < fs.push(entry).len() && (
                        #[trigger] fs.push(entry)[i]).proposal == (#[trigger] fs.push(
                            entry,
                        )[j]).proposal implies i == j by {
                        if i < fs.len() && j < fs.len() {
                            assert(fs[i] == fs.push(entry)[i] && fs[j] == fs.push(entry)[j]);
                        }
                    }
                    assert forall|p: int, f: bool|
                        has_favor(fs, p, f) implies #[trigger] has_favor(
                        fs.push(entry),
                        p,
                        f,
                    ) by {
                        let i = choose|i: int|
                            0 <= i < fs.len() && (#[trigger] fs[i]).proposal == p && fs[i].favor
                                == f;
                        assert(fs.push(entry)[i] == fs[i]);
                    }
                    assert(fs.push(entry)[fs.len() as int] == entry);
                }
            },
        }
    }

    /// Handles the passage of time: fires at most the one deadline that
    /// belongs to the current step, once it has expired. A stale timer is
    /// a no-op.
    fn on_timer(&mut self, time: Timestamp, out: &mut Vec<ConsensusResponse>)
        requires
            old(self).wf(),
            !(old(self).step is Decided),
        ensures
            final(self).wf(),
            rs_le(
                old(self).round as int,
                old(self).step,
                final(self).round as int,
                final(self).step,
            ),
            final(self).info == old(self).info,
            final(self).total == old(self).total,
            final(self).started == old(self).started,
            final(self).locked_value == old(self).locked_value,
            final(self).locked_round == old(self).locked_round,
            final(self).valid_value == old(self).valid_value,
            final(self).valid_round == old(self).valid_round,
            final(self).decision == old(self).decision,
            final(self).prevotes == old(self).prevotes,
            final(self).precommits == old(self).precommits,
            final(self).proposals == old(self).proposals,
            final(self).favors == old(self).favors,
            !timer_due(*old(self), time as int) ==> (*final(self) == *old(self) && final(out)@
                == old(out)@),
            // Each step is left only when its own deadline has expired.
            old(self).step is Propose && final(self).step != old(self).step ==> (old(
                self,
            ).propose_deadline matches Some(d) && time >= d),
            old(self).step is Prevote && final(self).step != old(self).step ==> (old(
                self,
            ).prevote_deadline matches Some(d) && time >= d),
            // an expired propose deadline forces the nil prevote
            old(self).propose_deadline matches Some(d) && old(self).step is Propose && time >= d
                ==> (final(self).step is Prevote && final(out)@ == old(out)@.push(
                ConsensusResponse::BroadcastNilPrevote { round: old(self).round },
            )),
            // an expired prevote deadline forces the nil precommit
            old(self).prevote_deadline matches Some(d) && old(self).step is Prevote && time >= d
                ==> (final(self).step is Precommit && final(out)@ == old(out)@.push(
                ConsensusResponse::BroadcastNilPrecommit { round: old(self).round },
            )),
            // an expired precommit deadline advances the round
            old(self).precommit_deadline matches Some(d) && old(self).step is Precommit && time
                >= d && old(self).round < usize::MAX ==> (final(self).round == old(self).round
                + 1 && final(self).step is Propose),
            extends(old(out)@, final(out)@),
            no_prevote_resp(final(out)@, old(out)@.len() as int),
            no_bprecommit_resp(final(out)@, old(out)@.len() as int),
            forall|i: int|
                old(out)@.len() <= i < final(out)@.len() ==> !((#[trigger] final(out)@[i])
                    is ViolationReport),
    {
        match self.step {
            ConsensusStep::Propose => {
                match self.propose_deadline {
                    Some(d) => {
                        if is_expired(d, time) {
                            self.propose_deadline = None;
                            out.push(
                                ConsensusResponse::BroadcastNilPrevote { round: self.round },
                            );
                            self.step = ConsensusStep::Prevote;
                        }
                    },
                    None => {},
                }
            },
            ConsensusStep::Prevote => {
                match self.prevote_deadline {
                    Some(d) => {
                        if is_expired(d, time) {
                            self.prevote_deadline = None;
                            out.push(
                                ConsensusResponse::BroadcastNilPrecommit { round: self.round },
                            );
                            self.enter_precommit(time);
                        }
                    },
                    None => {},
                }
            },
            ConsensusStep::Precommit => {
                match self.precommit_deadline {
                    Some(d) => {
                        if is_expired(d, time) {
                            self.precommit_deadline = None;
                            if self.round < usize::MAX {
                                let next = self.round + 1;
                                self.start_round(next, time, out);
                            }
                        }
                    },
                    None => {},
                }
            },
            ConsensusStep::Decided => {},
        }
    }
}


/// `post` extends `pre`, and `post` extends `cur`, transitively.
pub proof fn lemma_extends_trans(
    a: Seq<ConsensusResponse>,
    b: Seq<ConsensusResponse>,
    c: Seq<ConsensusResponse>,
)
    requires
        extends(a, b),
        extends(b, c),
    ensures
        extends(a, c),
{
    assert forall|i: int| 0 <= i < a.len() implies #[trigger] c[i] == a[i] by {
        assert(b[i] == a[i]);
        assert(c[i] == b[i]);
    }
}

/// A violation report, once emitted, stands in every later extension of
/// the response list.
pub proof fn lemma_extends_reports_all(pre: Seq<ConsensusResponse>, post: Seq<ConsensusResponse>)
    requires
        extends(pre, post),
    ensures
        forall|v: int| reports(pre, v) ==> #[trigger] reports(post, v),
{
    assert forall|v: int| reports(pre, v) implies #[trigger] reports(post, v) by {
        let i = choose|i: int|
            0 <= i < pre.len() && (#[trigger] pre[i]) is ViolationReport
                && pre[i]->ViolationReport_violator == v;
        assert(post[i] == pre[i]);
    }
}

/// The public entry point of the consensus core: consumes one event,
/// mutates the state in place, and returns the ordered responses that the
/// caller must perform.
///
/// The contract carries the height's standing guarantees: the state stays
/// well formed; the round and the step only ever move forward; once
/// decided, any further event changes nothing and answers nothing; a
/// recorded vote is never changed or dropped, a fresh one is recorded,
/// and the ledgers gain nothing else; the lock round never moves back,
/// and a lock is only ever taken on a block with a prevote quorum; while
/// a value is locked, every prevote this node broadcasts is for that
/// value, and every precommit broadcast names a quorate block. It also
/// forces each transition: the vote that completes a quorum draws the
/// precommit broadcast, the decision or the round advance it enables;
/// fault-threshold evidence for a later round forces the skip; a favored
/// proposal forces the prevote; a stale or duplicate event against a
/// settled state is a no-op; an equivocating vote and a proposal from the
/// wrong proposer are answered with a violation report.
#[verifier::rlimit(100)]
pub fn progress(state: &mut ConsensusState, event: ConsensusEvent) -> (out: Vec<
    ConsensusResponse,
>)
    requires
        old(state).wf(),
    ensures
        final(state).wf(),
        final(state).info == old(state).info,
        rs_le(
            old(state).round as int,
            old(state).step,
            final(state).round as int,
            final(state).step,
        ),
        old(state).step is Decided ==> (*final(state) == *old(state) && out@.len() == 0),
        votes_preserved(old(state).prevotes@, final(state).prevotes@),
        votes_preserved(old(state).precommits@, final(state).precommits@),
        old(state).locked_round is Some ==> (final(state).locked_round is Some && old(
            state,
        ).locked_round->0 <= final(state).locked_round->0),
        old(state).decision is Some ==> final(state).decision == old(state).decision,
        // the height starts on the first event and stays started
        old(state).started ==> final(state).started,
        !(old(state).step is Decided) ==> final(state).started,
        // a recorded proposal and a recorded favor signal stand forever
        forall|rr: int, p: int|
            has_proposal(old(state).proposals@, rr, p) ==> #[trigger] has_proposal(
                final(state).proposals@,
                rr,
                p,
            ),
        forall|p: int, f: bool|
            has_favor(old(state).favors@, p, f) ==> #[trigger] has_favor(
                final(state).favors@,
                p,
                f,
            ),
        // only a proposal event can touch the proposal record, and only a
        // favor event the favor record
        !(event is BlockProposal) && !(event is BlockProposalBroadcasted)
            ==> final(state).proposals@ == old(state).proposals@,
        !(event is ProposalFavor) ==> final(state).favors@ == old(state).favors@,
        // the round's first proposal from its proposer is recorded
        event matches ConsensusEvent::BlockProposal { proposal, proposer, round, .. } ==> ((!(old(
            state,
        ).step is Decided) && proposer as int == round as int % old(
            state,
        ).info.validators@.len() as int && !has_any_proposal(
            old(state).proposals@,
            round as int,
        )) ==> has_proposal(final(state).proposals@, round as int, proposal as int)),
        event matches ConsensusEvent::BlockProposalBroadcasted { proposal, round, .. } ==> ((!(old(
            state,
        ).step is Decided) && round as int % old(state).info.validators@.len() as int == old(
            state,
        ).info.this_node_index && !has_any_proposal(old(state).proposals@, round as int))
            ==> has_proposal(final(state).proposals@, round as int, proposal as int)),
        // the first favor signal for a proposal is recorded
        event matches ConsensusEvent::ProposalFavor { proposal, favor, .. } ==> ((!(old(state).step
            is Decided) && !has_any_favor(old(state).favors@, proposal as int)) ==> has_favor(
            final(state).favors@,
            proposal as int,
            favor,
        )),
        // the records gain at most what the event carries
        event matches ConsensusEvent::BlockProposal { proposal, round, .. } ==> (forall|r2: int, p2: int|
            #[trigger] has_proposal(final(state).proposals@, r2, p2) ==> has_proposal(
                old(state).proposals@,
                r2,
                p2,
            ) || (r2 == round && p2 == proposal)),
        event matches ConsensusEvent::BlockProposalBroadcasted { proposal, round, .. } ==> (forall|
            r2: int,
            p2: int,
        |
            #[trigger] has_proposal(final(state).proposals@, r2, p2) ==> has_proposal(
                old(state).proposals@,
                r2,
                p2,
            ) || (r2 == round && p2 == proposal)),
        event matches ConsensusEvent::ProposalFavor { proposal, favor, .. } ==> (forall|
            p2: int,
            f2: bool,
        |
            #[trigger] has_favor(final(state).favors@, p2, f2) ==> has_favor(
                old(state).favors@,
                p2,
                f2,
            ) || (p2 == proposal && f2 == favor)),
        // the step leaves Propose only on a completed, favored proposal
        // or an expired propose deadline
        final(state).round == old(state).round && old(state).step is Propose
            && !(final(state).step is Propose) ==> ((exists|p: int|
            0 <= p <= usize::MAX && #[trigger] has_proposal(
                final(state).proposals@,
                old(state).round as int,
                p,
            ) && has_any_favor(final(state).favors@, p)) || (event matches ConsensusEvent::Timer {
            time,
        } && old(state).propose_deadline matches Some(d) && time >= d)),
        // the step leaves Prevote only on a quorum or an expired prevote
        // deadline
        final(state).round == old(state).round && old(state).step is Prevote
            && !(final(state).step is Prevote) ==> ((exists|x: int|
            0 <= x <= usize::MAX && #[trigger] block_quorum(
                old(state).info.validators@,
                final(state).prevotes@,
                old(state).round as int,
                x,
            )) || nil_quorum(
            old(state).info.validators@,
            final(state).prevotes@,
            old(state).round as int,
        ) || (event matches ConsensusEvent::Timer { time } && old(state).prevote_deadline
            matches Some(d) && time >= d)),
        // the round changes only on skip evidence, a timer, or a nil
        // precommit quorum at the completed round
        final(state).round != old(state).round ==> ((event_prevote(event) matches Some(e)
            && e.round > old(state).round && spec_has_fault_threshold(
            sum_over(
                old(state).info.validators@,
                joint_round_voters(
                    final(state).prevotes@,
                    final(state).precommits@,
                    e.round as int,
                ),
                old(state).info.validators@.len() as int,
            ),
            total_of(old(state).info.validators@),
        )) || (event_precommit(event) matches Some(e) && e.round > old(state).round
            && spec_has_fault_threshold(
            sum_over(
                old(state).info.validators@,
                joint_round_voters(
                    final(state).prevotes@,
                    final(state).precommits@,
                    e.round as int,
                ),
                old(state).info.validators@.len() as int,
            ),
            total_of(old(state).info.validators@),
        )) || (event is Timer) || nil_quorum(
            old(state).info.validators@,
            final(state).precommits@,
            final(state).round as int - 1,
        )),
        // the height starts on the first event and stays started
        old(state).started ==> final(state).started,
        !(old(state).step is Decided) ==> final(state).started,
        // a recorded proposal and a recorded favor signal stand forever
        forall|rr: int, p: int|
            has_proposal(old(state).proposals@, rr, p) ==> #[trigger] has_proposal(
                final(state).proposals@,
                rr,
                p,
            ),
        forall|p: int, f: bool|
            has_favor(old(state).favors@, p, f) ==> #[trigger] has_favor(
                final(state).favors@,
                p,
                f,
            ),
        // only a proposal event can touch the proposal record, and only a
        // favor event the favor record
        !(event is BlockProposal) && !(event is BlockProposalBroadcasted)
            ==> final(state).proposals@ == old(state).proposals@,
        !(event is ProposalFavor) ==> final(state).favors@ == old(state).favors@,
        // the round's first proposal from its proposer is recorded
        event matches ConsensusEvent::BlockProposal { proposal, proposer, round, .. } ==> ((!(old(
            state,
        ).step is Decided) && proposer as int == round as int % old(
            state,
        ).info.validators@.len() as int && !has_any_proposal(
            old(state).proposals@,
            round as int,
        )) ==> has_proposal(final(state).proposals@, round as int, proposal as int)),
        event matches ConsensusEvent::BlockProposalBroadcasted { proposal, round, .. } ==> ((!(old(
            state,
        ).step is Decided) && round as int % old(state).info.validators@.len() as int == old(
            state,
        ).info.this_node_index && !has_any_proposal(old(state).proposals@, round as int))
            ==> has_proposal(final(state).proposals@, round as int, proposal as int)),
        // the first favor signal for a proposal is recorded
        event matches ConsensusEvent::ProposalFavor { proposal, favor, .. } ==> ((!(old(state).step
            is Decided) && !has_any_favor(old(state).favors@, proposal as int)) ==> has_favor(
            final(state).favors@,
            proposal as int,
            favor,
        )),
        // the round changes only on skip evidence, a timer, or a nil
        // precommit quorum at the completed round
        final(state).round != old(state).round ==> ((event_prevote(event) matches Some(e)
            && e.round > old(state).round && spec_has_fault_threshold(
            sum_over(
                old(state).info.validators@,
                joint_round_voters(
                    final(state).prevotes@,
                    final(state).precommits@,
                    e.round as int,
                ),
                old(state).info.validators@.len() as int,
            ),
            total_of(old(state).info.validators@),
        )) || (event_precommit(event) matches Some(e) && e.round > old(state).round
            && spec_has_fault_threshold(
            sum_over(
                old(state).info.validators@,
                joint_round_voters(
                    final(state).prevotes@,
                    final(state).precommits@,
                    e.round as int,
                ),
                old(state).info.validators@.len() as int,
            ),
            total_of(old(state).info.validators@),
        )) || (event is Timer) || nil_quorum(
            old(state).info.validators@,
            final(state).precommits@,
            final(state).round as int - 1,
        )),
        // a fresh vote from a committee member is recorded
        event_prevote(event) matches Some(e) ==> ((!(old(state).step is Decided) && e.signer < old(
            state,
        ).info.validators@.len() && !has_vote(
            old(state).prevotes@,
            e.round as int,
            e.signer as int,
        )) ==> has_vote_for(final(state).prevotes@, e.round as int, e.signer as int, e.target)),
        event_precommit(event) matches Some(e) ==> ((!(old(state).step is Decided) && e.signer
            < old(state).info.validators@.len() && !has_vote(
            old(state).precommits@,
            e.round as int,
            e.signer as int,
        )) ==> has_vote_for(final(state).precommits@, e.round as int, e.signer as int, e.target)),
        // fault-threshold evidence for a later round forces the skip
        event_prevote(event) matches Some(e) ==> ((!(old(state).step is Decided) && e.signer < old(
            state,
        ).info.validators@.len() && e.round > old(state).round && !has_vote(
            old(state).prevotes@,
            e.round as int,
            e.signer as int,
        ) && spec_has_fault_threshold(
            sum_over(
                old(state).info.validators@,
                joint_round_voters(
                    final(state).prevotes@,
                    final(state).precommits@,
                    e.round as int,
                ),
                old(state).info.validators@.len() as int,
            ),
            total_of(old(state).info.validators@),
        )) ==> final(state).round >= e.round),
        event_precommit(event) matches Some(e) ==> ((!(old(state).step is Decided) && e.signer
            < old(state).info.validators@.len() && e.round > old(state).round && !has_vote(
            old(state).precommits@,
            e.round as int,
            e.signer as int,
        ) && spec_has_fault_threshold(
            sum_over(
                old(state).info.validators@,
                joint_round_voters(
                    final(state).prevotes@,
                    final(state).precommits@,
                    e.round as int,
                ),
                old(state).info.validators@.len() as int,
            ),
            total_of(old(state).info.validators@),
        )) ==> final(state).round >= e.round),
        // at the height's start, the round-0 proposer is asked to propose
        !old(state).started && !(old(state).step is Decided) && old(state).round as int % old(
            state,
        ).info.validators@.len() as int == old(state).info.this_node_index ==> (exists|i: int|
            0 <= i < out@.len() && out@[i] == (ConsensusResponse::CreateAndBroadcastProposal {
                round: old(state).round,
            })),
        // the ledgers gain at most the vote the event carries
        forall|r: int, v: int, t: VoteTarget|
            #[trigger] has_vote_for(final(state).prevotes@, r, v, t) ==> has_vote_for(
                old(state).prevotes@,
                r,
                v,
                t,
            ) || (event_prevote(event) is Some && event_prevote(event)->0.round == r
                && event_prevote(event)->0.signer == v && event_prevote(event)->0.target == t),
        forall|r: int, v: int, t: VoteTarget|
            #[trigger] has_vote_for(final(state).precommits@, r, v, t) ==> has_vote_for(
                old(state).precommits@,
                r,
                v,
                t,
            ) || (event_precommit(event) is Some && event_precommit(event)->0.round == r
                && event_precommit(event)->0.signer == v && event_precommit(event)->0.target
                == t),
        // an expired propose deadline draws the nil prevote
        event matches ConsensusEvent::Timer { time } ==> ((old(state).propose_deadline matches Some(
            d,
        ) && old(state).step is Propose && time >= d) ==> (exists|i: int|
            0 <= i < out@.len() && out@[i] == (ConsensusResponse::BroadcastNilPrevote {
                round: old(state).round,
            }))),
        // an event that leaves the round unchanged leaves a settled state
        final(state).round == old(state).round ==> settled(*final(state)),
        // a stale timer is a no-op
        event matches ConsensusEvent::Timer { time } ==> ((old(state).started && !(old(
            state,
        ).step is Decided) && settled(*old(state)) && !timer_due(*old(state), time as int)) ==> (
        *final(state) == *old(state) && out@.len() == 0)),
        // an exact duplicate of a recorded vote is a no-op
        event_prevote(event) matches Some(e) ==> ((old(state).started && !(old(state).step
            is Decided) && settled(*old(state)) && has_vote_for(
            old(state).prevotes@,
            e.round as int,
            e.signer as int,
            e.target,
        )) ==> (*final(state) == *old(state) && out@.len() == 0)),
        event_precommit(event) matches Some(e) ==> ((old(state).started && !(old(state).step
            is Decided) && settled(*old(state)) && has_vote_for(
            old(state).precommits@,
            e.round as int,
            e.signer as int,
            e.target,
        )) ==> (*final(state) == *old(state) && out@.len() == 0)),
        // an equivocating vote against a settled state leaves it
        // untouched and draws exactly the violation report
        event_prevote(event) matches Some(e) ==> ((old(state).started && !(old(state).step
            is Decided) && settled(*old(state)) && e.signer < old(
            state,
        ).info.validators@.len() && has_vote(old(state).prevotes@, e.round as int, e.signer as int)
            && !has_vote_for(
            old(state).prevotes@,
            e.round as int,
            e.signer as int,
            e.target,
        )) ==> (*final(state) == *old(state) && out@.len() == 1 && out@[0] is ViolationReport
            && out@[0]->ViolationReport_violator == e.signer as int)),
        event_precommit(event) matches Some(e) ==> ((old(state).started && !(old(state).step
            is Decided) && settled(*old(state)) && e.signer < old(
            state,
        ).info.validators@.len() && has_vote(
            old(state).precommits@,
            e.round as int,
            e.signer as int,
        ) && !has_vote_for(
            old(state).precommits@,
            e.round as int,
            e.signer as int,
            e.target,
        )) ==> (*final(state) == *old(state) && out@.len() == 1 && out@[0] is ViolationReport
            && out@[0]->ViolationReport_violator == e.signer as int)),
        // a lock always names a block holding a prevote quorum in the
        // round that became the lock round
        final(state).locked_value != old(state).locked_value ==> (final(state).locked_value
            is Some && final(state).locked_round is Some && block_quorum(
            old(state).info.validators@,
            final(state).prevotes@,
            final(state).locked_round->0 as int,
            final(state).locked_value->0 as int,
        )),
        // skip evidence with nothing pending for the target round lands
        // exactly on it
        event_prevote(event) matches Some(e) ==> ((!(old(state).step is Decided) && e.signer < old(
            state,
        ).info.validators@.len() && e.round > old(state).round && !has_vote(
            old(state).prevotes@,
            e.round as int,
            e.signer as int,
        ) && spec_has_fault_threshold(
            sum_over(
                old(state).info.validators@,
                joint_round_voters(
                    final(state).prevotes@,
                    final(state).precommits@,
                    e.round as int,
                ),
                old(state).info.validators@.len() as int,
            ),
            total_of(old(state).info.validators@),
        ) && (forall|p: int|
            #[trigger] has_proposal(old(state).proposals@, e.round as int, p) ==> !has_any_favor(
                old(state).favors@,
                p,
            ))) ==> (final(state).round == e.round && final(state).step is Propose)),
        event_precommit(event) matches Some(e) ==> ((!(old(state).step is Decided) && e.signer
            < old(state).info.validators@.len() && e.round > old(state).round && !has_vote(
            old(state).precommits@,
            e.round as int,
            e.signer as int,
        ) && spec_has_fault_threshold(
            sum_over(
                old(state).info.validators@,
                joint_round_voters(
                    final(state).prevotes@,
                    final(state).precommits@,
                    e.round as int,
                ),
                old(state).info.validators@.len() as int,
            ),
            total_of(old(state).info.validators@),
        ) && (forall|p: int|
            #[trigger] has_proposal(old(state).proposals@, e.round as int, p) ==> !has_any_favor(
                old(state).favors@,
                p,
            ))) ==> (final(state).round == e.round && final(state).step is Propose)),
        // an expired prevote deadline forces the nil precommit
        event matches ConsensusEvent::Timer { time } ==> ((old(state).prevote_deadline matches Some(
            d,
        ) && old(state).step is Prevote && time >= d) ==> ((exists|i: int|
            0 <= i < out@.len() && out@[i] == (ConsensusResponse::BroadcastNilPrecommit {
                round: old(state).round,
            })) && (final(state).round > old(state).round || step_ord(final(state).step) >= 2))),
        // an expired precommit deadline with nothing pending for the next
        // round advances exactly one round
        event matches ConsensusEvent::Timer { time } ==> ((old(state).precommit_deadline
            matches Some(d) && old(state).step is Precommit && time >= d && old(state).round
            < usize::MAX && (forall|p: int|
            #[trigger] has_proposal(old(state).proposals@, old(state).round + 1, p)
                ==> !has_any_favor(old(state).favors@, p))) ==> (final(state).round == old(
            state,
        ).round + 1 && final(state).step is Propose)),
        // only a vote event can touch its ledger
        event_prevote(event) is None ==> final(state).prevotes@ == old(state).prevotes@,
        event_precommit(event) is None ==> final(state).precommits@ == old(state).precommits@,
        // a favored, lock-compatible proposal completed against a quiet
        // prevote ledger answers with exactly the prevote broadcast
        event matches ConsensusEvent::ProposalFavor { proposal, favor, .. } ==> ((old(
            state,
        ).started && old(state).step is Propose && has_proposal(
            old(state).proposals@,
            old(state).round as int,
            proposal as int,
        ) && !has_any_favor(old(state).favors@, proposal as int) && favor && (old(
            state,
        ).locked_value is None || old(state).locked_value == Some(proposal)) && (forall|x: int|
            !(#[trigger] block_quorum(
                old(state).info.validators@,
                old(state).prevotes@,
                old(state).round as int,
                x,
            ))) && !nil_quorum(
            old(state).info.validators@,
            old(state).prevotes@,
            old(state).round as int,
        )) ==> (out@.len() == 1 && out@[0] == (ConsensusResponse::BroadcastPrevote {
            proposal,
            round: old(state).round,
        }) && final(state).step is Prevote && final(state).round == old(state).round)),
        // the favored quorum-completing prevote against a quiet precommit
        // ledger answers with exactly the precommit broadcast
        event_prevote(event) matches Some(e) ==> ((old(state).started && old(state).step
            is Prevote && e.round == old(state).round && e.signer < old(
            state,
        ).info.validators@.len() && !has_vote(
            old(state).prevotes@,
            e.round as int,
            e.signer as int,
        ) && (forall|xx: int|
            !(#[trigger] block_quorum(
                old(state).info.validators@,
                old(state).precommits@,
                old(state).round as int,
                xx,
            ))) && (old(state).round < usize::MAX ==> !nil_quorum(
            old(state).info.validators@,
            old(state).precommits@,
            old(state).round as int,
        ))) ==> (forall|x: int|
            0 <= x <= usize::MAX && #[trigger] block_quorum(
                old(state).info.validators@,
                old(state).prevotes@.push(e),
                old(state).round as int,
                x,
            ) && has_favor(old(state).favors@, x, true) ==> (out@.len() == 1 && out@[0] == (
            ConsensusResponse::BroadcastPrecommit {
                proposal: x as usize,
                round: old(state).round,
            }) && final(state).step is Precommit && final(state).round == old(state).round))),
        // the quorum-completing precommit answers with exactly the
        // finalization
        event_precommit(event) matches Some(e) ==> ((old(state).started && old(state).step
            is Precommit && e.round == old(state).round && e.signer < old(
            state,
        ).info.validators@.len() && !has_vote(
            old(state).precommits@,
            e.round as int,
            e.signer as int,
        )) ==> (forall|x: int|
            0 <= x <= usize::MAX && #[trigger] block_quorum(
                old(state).info.validators@,
                old(state).precommits@.push(e),
                old(state).round as int,
                x,
            ) ==> (out@.len() == 1 && out@[0] == (ConsensusResponse::FinalizeBlock {
                proposal: x as usize,
            })))),
        // the nil-quorum-completing precommit answers with at most the
        // next round's proposal request
        event_precommit(event) matches Some(e) ==> ((old(state).started && old(state).step
            is Precommit && e.round == old(state).round && e.signer < old(
            state,
        ).info.validators@.len() && !has_vote(
            old(state).precommits@,
            e.round as int,
            e.signer as int,
        ) && nil_quorum(
            old(state).info.validators@,
            old(state).precommits@.push(e),
            old(state).round as int,
        ) && (forall|x: int|
            0 <= x <= usize::MAX ==> !(#[trigger] block_quorum(
                old(state).info.validators@,
                old(state).precommits@.push(e),
                old(state).round as int,
                x,
            ))) && old(state).round < usize::MAX) ==> ((final(state).round as int % old(
            state,
        ).info.validators@.len() as int == old(state).info.this_node_index ==> out@.len() == 1
            && out@[0] == (ConsensusResponse::CreateAndBroadcastProposal {
            round: final(state).round,
        })) && (final(state).round as int % old(state).info.validators@.len() as int != old(
            state,
        ).info.this_node_index ==> out@.len() == 0))),
        // the vote that completes a prevote quorum at the current round,
        // at step Prevote, forces the valid value, the lock when favored,
        // and the precommit broadcast
        event_prevote(event) matches Some(e) ==> ((old(state).step is Prevote && e.round == old(
            state,
        ).round && e.signer < old(state).info.validators@.len() && !has_vote(
            old(state).prevotes@,
            e.round as int,
            e.signer as int,
        )) ==> (forall|x: int|
            0 <= x <= usize::MAX && #[trigger] block_quorum(
                old(state).info.validators@,
                old(state).prevotes@.push(e),
                old(state).round as int,
                x,
            ) ==> (final(state).valid_value == Some(x as usize) && (has_favor(
                old(state).favors@,
                x,
                true,
            ) ==> final(state).locked_value == Some(x as usize) && (exists|i: int|
                0 <= i < out@.len() && out@[i] == (ConsensusResponse::BroadcastPrecommit {
                    proposal: x as usize,
                    round: old(state).round,
                }))) && (!has_favor(old(state).favors@, x, true) ==> (exists|i: int|
                0 <= i < out@.len() && out@[i] == (ConsensusResponse::BroadcastNilPrecommit {
                    round: old(state).round,
                })))))),
        // the vote that completes a nil prevote quorum forces the nil
        // precommit broadcast
        event_prevote(event) matches Some(e) ==> ((old(state).step is Prevote && e.round == old(
            state,
        ).round && e.signer < old(state).info.validators@.len() && !has_vote(
            old(state).prevotes@,
            e.round as int,
            e.signer as int,
        ) && nil_quorum(
            old(state).info.validators@,
            old(state).prevotes@.push(e),
            old(state).round as int,
        ) && (forall|x: int|
            0 <= x <= usize::MAX ==> !(#[trigger] block_quorum(
                old(state).info.validators@,
                old(state).prevotes@.push(e),
                old(state).round as int,
                x,
            )))) ==> (exists|i: int|
            0 <= i < out@.len() && out@[i] == (ConsensusResponse::BroadcastNilPrecommit {
                round: old(state).round,
            }))),
        // the vote that completes a precommit quorum at the current round,
        // at step Precommit, forces the decision and its announcement
        event_precommit(event) matches Some(e) ==> ((old(state).step is Precommit && e.round
            == old(state).round && e.signer < old(state).info.validators@.len() && !has_vote(
            old(state).precommits@,
            e.round as int,
            e.signer as int,
        )) ==> (forall|x: int|
            0 <= x <= usize::MAX && #[trigger] block_quorum(
                old(state).info.validators@,
                old(state).precommits@.push(e),
                old(state).round as int,
                x,
            ) ==> (final(state).step is Decided && final(state).decision == Some(x as usize)
                && final(state).round == old(state).round && (exists|i: int|
                0 <= i < out@.len() && out@[i] == (ConsensusResponse::FinalizeBlock {
                    proposal: x as usize,
                }))))),
        // the vote that completes a nil precommit quorum forces the round
        // advance
        event_precommit(event) matches Some(e) ==> ((old(state).step is Precommit && e.round
            == old(state).round && e.signer < old(state).info.validators@.len() && !has_vote(
            old(state).precommits@,
            e.round as int,
            e.signer as int,
        ) && nil_quorum(
            old(state).info.validators@,
            old(state).precommits@.push(e),
            old(state).round as int,
        ) && (forall|x: int|
            0 <= x <= usize::MAX ==> !(#[trigger] block_quorum(
                old(state).info.validators@,
                old(state).precommits@.push(e),
                old(state).round as int,
                x,
            ))) && old(state).round < usize::MAX) ==> (final(state).round == old(state).round + 1
            && final(state).step is Propose)),
        // the favor signal that completes the round's recorded proposal,
        // at step Propose, forces the prevote broadcast
        event matches ConsensusEvent::ProposalFavor { proposal, favor, .. } ==> ((old(state).step
            is Propose && has_proposal(
            old(state).proposals@,
            old(state).round as int,
            proposal as int,
        ) && !has_any_favor(old(state).favors@, proposal as int)) ==> ((favor && (old(
            state,
        ).locked_value is None || old(state).locked_value == Some(proposal)) ==> (exists|i: int|
            0 <= i < out@.len() && out@[i] == (ConsensusResponse::BroadcastPrevote {
                proposal,
                round: old(state).round,
            }))) && (!(favor && (old(state).locked_value is None || old(state).locked_value
            == Some(proposal))) ==> (exists|i: int|
            0 <= i < out@.len() && out@[i] == (ConsensusResponse::BroadcastNilPrevote {
                round: old(state).round,
            }))))),
        // the proposal that joins an already recorded favor signal, at
        // step Propose, forces the prevote broadcast as well
        event matches ConsensusEvent::BlockProposal { proposal, proposer, round, .. } ==> ((old(
            state,
        ).step is Propose && round == old(state).round && proposer as int == old(
            state,
        ).round as int % old(state).info.validators@.len() as int && !has_any_proposal(
            old(state).proposals@,
            old(state).round as int,
        ) && has_any_favor(old(state).favors@, proposal as int)) ==> ((has_favor(
            old(state).favors@,
            proposal as int,
            true,
        ) && (old(state).locked_value is None || old(state).locked_value == Some(proposal)) ==> (
        exists|i: int|
            0 <= i < out@.len() && out@[i] == (ConsensusResponse::BroadcastPrevote {
                proposal,
                round: old(state).round,
            }))) && (!(has_favor(old(state).favors@, proposal as int, true) && (old(
            state,
        ).locked_value is None || old(state).locked_value == Some(proposal))) ==> (exists|i: int|
            0 <= i < out@.len() && out@[i] == (ConsensusResponse::BroadcastNilPrevote {
                round: old(state).round,
            }))))),
        // a precommit broadcast only ever names a block that holds a
        // prevote quorum, in its own round, among the recorded prevotes
        forall|i: int|
            0 <= i < out@.len() && (#[trigger] out@[i]) is BroadcastPrecommit ==> block_quorum(
                old(state).info.validators@,
                final(state).prevotes@,
                out@[i]->BroadcastPrecommit_round as int,
                out@[i]->BroadcastPrecommit_proposal as int,
            ),
        // while a value is locked, this node only ever prevotes it
        forall|i: int|
            0 <= i < out@.len() && (#[trigger] out@[i]) is BroadcastPrevote && old(
                state,
            ).locked_value is Some ==> out@[i]->BroadcastPrevote_proposal == old(
                state,
            ).locked_value->0,
        // an equivocating prevote or precommit, and a proposal from the
        // wrong proposer, are answered with a violation report
        event matches ConsensusEvent::Prevote { proposal, signer, round, .. } ==> ((!(old(
            state,
        ).step is Decided) && signer < old(state).info.validators@.len() && has_vote(
            old(state).prevotes@,
            round as int,
            signer as int,
        ) && !has_vote_for(
            old(state).prevotes@,
            round as int,
            signer as int,
            VoteTarget::Block(proposal),
        )) ==> reports(out@, signer as int)),
        event matches ConsensusEvent::NilPrevote { signer, round, .. } ==> ((!(old(
            state,
        ).step is Decided) && signer < old(state).info.validators@.len() && has_vote(
            old(state).prevotes@,
            round as int,
            signer as int,
        ) && !has_vote_for(
            old(state).prevotes@,
            round as int,
            signer as int,
            VoteTarget::Nil,
        )) ==> reports(out@, signer as int)),
        event matches ConsensusEvent::Precommit { proposal, signer, round, .. } ==> ((!(old(
            state,
        ).step is Decided) && signer < old(state).info.validators@.len() && has_vote(
            old(state).precommits@,
            round as int,
            signer as int,
        ) && !has_vote_for(
            old(state).precommits@,
            round as int,
            signer as int,
            VoteTarget::Block(proposal),
        )) ==> reports(out@, signer as int)),
        event matches ConsensusEvent::NilPrecommit { signer, round, .. } ==> ((!(old(
            state,
        ).step is Decided) && signer < old(state).info.validators@.len() && has_vote(
            old(state).precommits@,
            round as int,
            signer as int,
        ) && !has_vote_for(
            old(state).precommits@,
            round as int,
            signer as int,
            VoteTarget::Nil,
        )) ==> reports(out@, signer as int)),
        event matches ConsensusEvent::BlockProposal { proposer, round, .. } ==> ((!(old(
            state,
        ).step is Decided) && proposer != round as int % old(
            state,
        ).info.validators@.len() as int) ==> reports(out@, proposer as int)),
{
    let mut out: Vec<ConsensusResponse> = Vec::new();
    if state.step == ConsensusStep::Decided {
        return out;
    }
    let now: Timestamp = match &event {
        ConsensusEvent::BlockProposal { time, .. } => *time,
        ConsensusEvent::ProposalFavor { time, .. } => *time,
        ConsensusEvent::BlockProposalBroadcasted { time, .. } => *time,
        ConsensusEvent::Prevote { time, .. } => *time,
        ConsensusEvent::Precommit { time, .. } => *time,
        ConsensusEvent::NilPrevote { time, .. } => *time,
        ConsensusEvent::NilPrecommit { time, .. } => *time,
        ConsensusEvent::Timer { time } => *time,
    };
    if !state.started {
        state.started = true;
        let r0 = state.round;
        let me = state.info.this_node_index;
        if state.proposer_of(r0) == me {
            out.push(ConsensusResponse::CreateAndBroadcastProposal { round: r0 });
        }
    }
    let ghost o1 = out@;
    let ghost ev = event;
    match event {
        ConsensusEvent::BlockProposal { proposal, proposer, round, .. } => {
            state.on_block_proposal(proposal, proposer, round, &mut out);
        },
        ConsensusEvent::ProposalFavor { proposal, favor, .. } => {
            state.on_favor(proposal, favor);
        },
        ConsensusEvent::BlockProposalBroadcasted { proposal, round, .. } => {
            state.on_broadcasted(proposal, round);
        },
        ConsensusEvent::Prevote { proposal, signer, round, time } => {
            state.on_vote(true, VoteTarget::Block(proposal), signer, round, time, &mut out);
        },
        ConsensusEvent::Precommit { proposal, signer, round, time } => {
            state.on_vote(false, VoteTarget::Block(proposal), signer, round, time, &mut out);
        },
        ConsensusEvent::NilPrevote { signer, round, time } => {
            state.on_vote(true, VoteTarget::Nil, signer, round, time, &mut out);
        },
        ConsensusEvent::NilPrecommit { signer, round, time } => {
            state.on_vote(false, VoteTarget::Nil, signer, round, time, &mut out);
        },
        ConsensusEvent::Timer { time } => {
            state.on_timer(time, &mut out);
        },
    }
    let ghost s2 = *state;
    let ghost o2 = out@;
    state.check_propose(&mut out);
    let ghost s3 = *state;
    let ghost o3 = out@;
    state.check_prevote(now, &mut out);
    let ghost s4 = *state;
    let ghost o4 = out@;
    state.check_precommit(now, &mut out);
    proof {
        lemma_extends_trans(o2, o3, o4);
        lemma_extends_trans(o2, o4, out@);
        lemma_extends_reports_all(o2, out@);
        assert(extends(o1, o2));
        lemma_extends_trans(o1, o2, out@);
        lemma_extends_trans(o3, o4, out@);
        if !old(state).started && old(state).round as int % old(
            state,
        ).info.validators@.len() as int == old(state).info.this_node_index {
            assert(o1[0] == (ConsensusResponse::CreateAndBroadcastProposal {
                round: old(state).round,
            }));
            assert(out@[0] == o1[0]);
        }
        let ghost powers = old(state).info.validators@;
        let ghost r = old(state).round as int;
        if event_prevote(ev) is Some && !(old(state).step is Decided) {
            let ghost e = event_prevote(ev)->0;
            if old(state).step is Prevote && e.round == old(state).round && e.signer < old(
                state,
            ).info.validators@.len() && !has_vote(
                old(state).prevotes@,
                e.round as int,
                e.signer as int,
            ) {
                assert(s2.prevotes@ == old(state).prevotes@.push(e));
                assert(s2.round == old(state).round && s2.step is Prevote);
                assert(s3 == s2 && o3 == o2);
                assert forall|x: int|
                    0 <= x <= usize::MAX && #[trigger] block_quorum(
                        powers,
                        old(state).prevotes@.push(e),
                        r,
                        x,
                    ) implies (final(state).valid_value == Some(x as usize) && (has_favor(
                    old(state).favors@,
                    x,
                    true,
                ) ==> final(state).locked_value == Some(x as usize) && (exists|i: int|
                    0 <= i < out@.len() && out@[i] == (ConsensusResponse::BroadcastPrecommit {
                        proposal: x as usize,
                        round: old(state).round,
                    }))) && (!has_favor(old(state).favors@, x, true) ==> (exists|i: int|
                    0 <= i < out@.len() && out@[i] == (ConsensusResponse::BroadcastNilPrecommit {
                        round: old(state).round,
                    })))) by {
                    assert(block_quorum(powers, s3.prevotes@, r, x));
                    if has_favor(old(state).favors@, x, true) {
                        assert(o4 == o3.push(
                            ConsensusResponse::BroadcastPrecommit {
                                proposal: x as usize,
                                round: old(state).round,
                            },
                        ));
                        assert(out@[o3.len() as int] == o4[o3.len() as int]);
                    } else {
                        assert(o4 == o3.push(
                            ConsensusResponse::BroadcastNilPrecommit { round: old(state).round },
                        ));
                        assert(out@[o3.len() as int] == o4[o3.len() as int]);
                    }
                }
                if nil_quorum(powers, old(state).prevotes@.push(e), r) && (forall|x: int|
                    0 <= x <= usize::MAX ==> !(#[trigger] block_quorum(
                        powers,
                        old(state).prevotes@.push(e),
                        r,
                        x,
                    ))) {
                    assert forall|x: int| 0 <= x <= usize::MAX implies !block_quorum(
                        powers,
                        s3.prevotes@,
                        r,
                        x,
                    ) by {
                        assert(!block_quorum(powers, old(state).prevotes@.push(e), r, x));
                    }
                    assert(o4 == o3.push(
                        ConsensusResponse::BroadcastNilPrecommit { round: old(state).round },
                    ));
                    assert(out@[o3.len() as int] == o4[o3.len() as int]);
                }
                if (forall|xx: int|
                    !(#[trigger] block_quorum(powers, old(state).precommits@, r, xx))) && (old(
                    state,
                ).round < usize::MAX ==> !nil_quorum(powers, old(state).precommits@, r)) {
                    assert(s4.precommits@ == old(state).precommits@);
                    if s4.step is Precommit {
                        assert(precommit_idle(s4)) by {
                            assert forall|xx: int|
                                !(#[trigger] block_quorum(
                                    s4.info.validators@,
                                    s4.precommits@,
                                    s4.round as int,
                                    xx,
                                )) by {
                                assert(!block_quorum(powers, old(state).precommits@, r, xx));
                            }
                        }
                    }
                }
            }
        }
        if event_precommit(ev) is Some && !(old(state).step is Decided) {
            let ghost e = event_precommit(ev)->0;
            if old(state).step is Precommit && e.round == old(state).round && e.signer < old(
                state,
            ).info.validators@.len() && !has_vote(
                old(state).precommits@,
                e.round as int,
                e.signer as int,
            ) {
                assert(s2.precommits@ == old(state).precommits@.push(e));
                assert(s2.round == old(state).round && s2.step is Precommit);
                assert(s3 == s2 && o3 == o2);
                assert(s4 == s3 && o4 == o3);
                assert forall|x: int|
                    0 <= x <= usize::MAX && #[trigger] block_quorum(
                        powers,
                        old(state).precommits@.push(e),
                        r,
                        x,
                    ) implies (final(state).step is Decided && final(state).decision == Some(
                    x as usize,
                ) && final(state).round == old(state).round && (exists|i: int|
                    0 <= i < out@.len() && out@[i] == (ConsensusResponse::FinalizeBlock {
                        proposal: x as usize,
                    }))) by {
                    assert(block_quorum(powers, s4.precommits@, r, x));
                    assert(out@ == o4.push(
                        ConsensusResponse::FinalizeBlock { proposal: x as usize },
                    ));
                    assert(out@[o4.len() as int] == (ConsensusResponse::FinalizeBlock {
                        proposal: x as usize,
                    }));
                }
                if nil_quorum(powers, old(state).precommits@.push(e), r) && (forall|x: int|
                    0 <= x <= usize::MAX ==> !(#[trigger] block_quorum(
                        powers,
                        old(state).precommits@.push(e),
                        r,
                        x,
                    ))) && old(state).round < usize::MAX {
                    assert forall|x: int| 0 <= x <= usize::MAX implies !block_quorum(
                        powers,
                        s4.precommits@,
                        r,
                        x,
                    ) by {
                        assert(!block_quorum(powers, old(state).precommits@.push(e), r, x));
                    }
                }
            }
        }
        if ev is ProposalFavor && !(old(state).step is Decided) {
            let ghost proposal = ev->ProposalFavor_proposal;
            let ghost favor = ev->ProposalFavor_favor;
            if old(state).step is Propose && has_proposal(
                old(state).proposals@,
                r,
                proposal as int,
            ) && !has_any_favor(old(state).favors@, proposal as int) {
                let ghost fe = FavorEntry { proposal, favor };
                assert(s2.favors@ == old(state).favors@.push(fe));
                assert(s2.step is Propose && s2.round == old(state).round);
                assert(s2.favors@[old(state).favors@.len() as int] == fe);
                assert(has_any_favor(s2.favors@, proposal as int));
                if has_favor(s2.favors@, proposal as int, true) && !favor {
                    let i = choose|i: int|
                        0 <= i < s2.favors@.len() && (#[trigger] s2.favors@[i]).proposal
                            == proposal as int && s2.favors@[i].favor == true;
                    assert(i < old(state).favors@.len() ==> old(state).favors@[i]
                        == s2.favors@[i]);
                    assert(false);
                }
                if favor && (old(state).locked_value is None || old(state).locked_value == Some(
                    proposal,
                )) {
                    assert(o3 == o2.push(
                        ConsensusResponse::BroadcastPrevote {
                            proposal,
                            round: old(state).round,
                        },
                    ));
                    assert(out@[o2.len() as int] == o3[o2.len() as int]);
                } else {
                    assert(o3 == o2.push(
                        ConsensusResponse::BroadcastNilPrevote { round: old(state).round },
                    ));
                    assert(out@[o2.len() as int] == o3[o2.len() as int]);
                }
            }
        }
        if ev is BlockProposal && !(old(state).step is Decided) {
            let ghost proposal = ev->BlockProposal_proposal;
            let ghost proposer = ev->BlockProposal_proposer;
            let ghost pround = ev->BlockProposal_round;
            if old(state).step is Propose && pround == old(state).round && proposer as int == r
                % powers.len() as int && !has_any_proposal(old(state).proposals@, r)
                && has_any_favor(old(state).favors@, proposal as int) {
                let ghost pe = ProposalEntry { round: pround, proposal };
                assert(s2.proposals@ == old(state).proposals@.push(pe));
                assert(s2.step is Propose && s2.round == old(state).round);
                assert(s2.proposals@[old(state).proposals@.len() as int] == pe);
                assert(has_proposal(s2.proposals@, r, proposal as int));
                if has_favor(old(state).favors@, proposal as int, true) && (old(
                    state,
                ).locked_value is None || old(state).locked_value == Some(proposal)) {
                    assert(o3 == o2.push(
                        ConsensusResponse::BroadcastPrevote {
                            proposal,
                            round: old(state).round,
                        },
                    ));
                    assert(out@[o2.len() as int] == o3[o2.len() as int]);
                } else {
                    assert(o3 == o2.push(
                        ConsensusResponse::BroadcastNilPrevote { round: old(state).round },
                    ));
                    assert(out@[o2.len() as int] == o3[o2.len() as int]);
                }
            }
        }
        if ev is Timer && old(state).propose_deadline is Some && old(state).step is Propose && ev->Timer_time
            >= old(state).propose_deadline->0 {
            let nil = ConsensusResponse::BroadcastNilPrevote { round: old(state).round };
            assert(o2 == o1.push(nil));
            assert(o2[o1.len() as int] == nil);
            assert(out@[o1.len() as int] == o2[o1.len() as int]);
        }
        if ev is Timer && old(state).prevote_deadline is Some && old(state).step is Prevote && ev->Timer_time
            >= old(state).prevote_deadline->0 {
            let nil = ConsensusResponse::BroadcastNilPrecommit { round: old(state).round };
            assert(o2 == o1.push(nil));
            assert(o2[o1.len() as int] == nil);
            assert(out@[o1.len() as int] == o2[o1.len() as int]);
        }
        if ev is Timer && old(state).precommit_deadline is Some && old(state).step is Precommit
            && ev->Timer_time >= old(state).precommit_deadline->0 && old(state).round
            < usize::MAX && (forall|p: int|
            #[trigger] has_proposal(old(state).proposals@, old(state).round + 1, p)
                ==> !has_any_favor(old(state).favors@, p)) {
            assert(s2.round == old(state).round + 1 && s2.step is Propose);
            assert(propose_idle(s2)) by {
                assert forall|p: int| #[trigger] has_proposal(
                    s2.proposals@,
                    s2.round as int,
                    p,
                ) implies !has_any_favor(s2.favors@, p) by {
                    assert(has_proposal(old(state).proposals@, old(state).round + 1, p));
                }
            }
            assert(s3 == s2 && o3 == o2);
            assert(s4 == s3);
        }
        if event_prevote(ev) is Some && !(old(state).step is Decided) {
            let ghost e = event_prevote(ev)->0;
            if e.signer < old(state).info.validators@.len() && e.round > old(state).round
                && !has_vote(old(state).prevotes@, e.round as int, e.signer as int)
                && spec_has_fault_threshold(
                sum_over(
                    old(state).info.validators@,
                    joint_round_voters(
                        final(state).prevotes@,
                        final(state).precommits@,
                        e.round as int,
                    ),
                    old(state).info.validators@.len() as int,
                ),
                total_of(old(state).info.validators@),
            ) && (forall|p: int|
                #[trigger] has_proposal(old(state).proposals@, e.round as int, p)
                    ==> !has_any_favor(old(state).favors@, p)) {
                assert(s2.prevotes@ == final(state).prevotes@);
                assert(s2.precommits@ == final(state).precommits@);
                assert(s2.round == e.round && s2.step is Propose);
                assert(propose_idle(s2)) by {
                    assert forall|p: int| #[trigger] has_proposal(
                        s2.proposals@,
                        s2.round as int,
                        p,
                    ) implies !has_any_favor(s2.favors@, p) by {
                        assert(has_proposal(old(state).proposals@, e.round as int, p));
                    }
                }
                assert(s3 == s2 && o3 == o2);
                assert(s4 == s3);
            }
        }
        if event_precommit(ev) is Some && !(old(state).step is Decided) {
            let ghost e = event_precommit(ev)->0;
            if e.signer < old(state).info.validators@.len() && e.round > old(state).round
                && !has_vote(old(state).precommits@, e.round as int, e.signer as int)
                && spec_has_fault_threshold(
                sum_over(
                    old(state).info.validators@,
                    joint_round_voters(
                        final(state).prevotes@,
                        final(state).precommits@,
                        e.round as int,
                    ),
                    old(state).info.validators@.len() as int,
                ),
                total_of(old(state).info.validators@),
            ) && (forall|p: int|
                #[trigger] has_proposal(old(state).proposals@, e.round as int, p)
                    ==> !has_any_favor(old(state).favors@, p)) {
                assert(s2.prevotes@ == final(state).prevotes@);
                assert(s2.precommits@ == final(state).precommits@);
                assert(s2.round == e.round && s2.step is Propose);
                assert(propose_idle(s2)) by {
                    assert forall|p: int| #[trigger] has_proposal(
                        s2.proposals@,
                        s2.round as int,
                        p,
                    ) implies !has_any_favor(s2.favors@, p) by {
                        assert(has_proposal(old(state).proposals@, e.round as int, p));
                    }
                }
                assert(s3 == s2 && o3 == o2);
                assert(s4 == s3);
            }
        }
        assert forall|i: int|
            0 <= i < out@.len() && (#[trigger] out@[i]) is BroadcastPrecommit implies block_quorum(
            old(state).info.validators@,
            final(state).prevotes@,
            out@[i]->BroadcastPrecommit_round as int,
            out@[i]->BroadcastPrecommit_proposal as int,
        ) by {
            if i < o4.len() {
                assert(out@[i] == o4[i]);
            }
            if i < o3.len() {
                assert(o4[i] == o3[i]);
            }
            if i < o2.len() {
                assert(o3[i] == o2[i]);
            }
            if i < o1.len() {
                assert(o2[i] == o1[i]);
            }
            assert(s3.prevotes@ == final(state).prevotes@);
        }
        assert forall|i: int|
            0 <= i < out@.len() && (#[trigger] out@[i]) is BroadcastPrevote && old(
                state,
            ).locked_value is Some implies out@[i]->BroadcastPrevote_proposal == old(
            state,
        ).locked_value->0 by {
            if i < o4.len() {
                assert(out@[i] == o4[i]);
            }
            if i < o3.len() {
                assert(o4[i] == o3[i]);
            }
            if i < o2.len() {
                assert(o3[i] == o2[i]);
            }
            if i < o1.len() {
                assert(o2[i] == o1[i]);
            }
        }
    }
    out
}

/// In a well-formed state, two different targets can never both hold a
/// quorum among one round's prevotes: no validator's power is ever
/// counted toward two targets at once.
pub proof fn lemma_state_unique_prevote_quorum(
    s: ConsensusState,
    r: int,
    t1: VoteTarget,
    t2: VoteTarget,
)
    requires
        s.wf(),
        t1 != t2,
        spec_has_quorum(
            sum_over(
                s.info.validators@,
                voters_for(s.prevotes@, r, t1),
                s.info.validators@.len() as int,
            ),
            total_of(s.info.validators@),
        ),
    ensures
        !spec_has_quorum(
            sum_over(
                s.info.validators@,
                voters_for(s.prevotes@, r, t2),
                s.info.validators@.len() as int,
            ),
            total_of(s.info.validators@),
        ),
{
    lemma_no_two_quorums(s.info.validators@, s.prevotes@, r, t1, t2);
}

/// The same law for one round's precommits: in particular, at most one
/// block can ever gather the quorum that finalizes the height.
pub proof fn lemma_state_unique_precommit_quorum(
    s: ConsensusState,
    r: int,
    t1: VoteTarget,
    t2: VoteTarget,
)
    requires
        s.wf(),
        t1 != t2,
        spec_has_quorum(
            sum_over(
                s.info.validators@,
                voters_for(s.precommits@, r, t1),
                s.info.validators@.len() as int,
            ),
            total_of(s.info.validators@),
        ),
    ensures
        !spec_has_quorum(
            sum_over(
                s.info.validators@,
                voters_for(s.precommits@, r, t2),
                s.info.validators@.len() as int,
            ),
            total_of(s.info.validators@),
        ),
{
    lemma_no_two_quorums(s.info.validators@, s.precommits@, r, t1, t2);
}

/// Agreement within a round, at the state level: when two well-formed
/// states over the same committee have both decided in the same round on
/// different blocks, the validators whose precommits differ between the
/// two views hold strictly more than a third of the total power. With
/// faulty power at or below one third, same-round decisions agree.
pub proof fn lemma_same_round_decisions_agree(s1: ConsensusState, s2: ConsensusState)
    requires
        s1.wf(),
        s2.wf(),
        s1.info.validators@ == s2.info.validators@,
        s1.decision is Some,
        s2.decision is Some,
        s1.round == s2.round,
        s1.decision != s2.decision,
    ensures
        spec_has_fault_threshold(
            sum_over(
                s1.info.validators@,
                cross_equivocators(s1.precommits@, s2.precommits@, s1.round as int),
                s1.info.validators@.len() as int,
            ),
            total_of(s1.info.validators@),
        ),
{
    lemma_same_round_agreement(
        s1.info.validators@,
        s1.precommits@,
        s2.precommits@,
        s1.round as int,
        s1.decision->0,
        s2.decision->0,
    );
}

} // verus!
