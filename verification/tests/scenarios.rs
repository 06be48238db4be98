//! End-to-end runs of the consensus core over small committees.

use vetomint::machine::ConsensusStep;
use vetomint::progress;
use vetomint::tally::VoteTarget;
use vetomint::ConsensusEvent;
use vetomint::ConsensusParams;
use vetomint::ConsensusResponse;
use vetomint::ConsensusState;
use vetomint::HeightInfo;

fn committee_of_four() -> HeightInfo {
    HeightInfo {
        validators: vec![1, 1, 1, 1],
        this_node_index: 3,
        timestamp: 0,
        consensus_params: ConsensusParams { timeout_ms: 1000 },
    }
}

#[test]
fn happy_path_decides_the_proposed_block() {
    let mut state = ConsensusState::new(committee_of_four());

    let out = progress(
        &mut state,
        ConsensusEvent::BlockProposal { proposal: 7, proposer: 0, round: 0, time: 1 },
    );
    assert_eq!(out, vec![]);

    let out = progress(&mut state, ConsensusEvent::ProposalFavor { proposal: 7, favor: true, time: 2 });
    assert_eq!(out, vec![ConsensusResponse::BroadcastPrevote { proposal: 7, round: 0 }]);
    assert_eq!(state.step, ConsensusStep::Prevote);

    let out = progress(
        &mut state,
        ConsensusEvent::Prevote { proposal: 7, signer: 0, round: 0, time: 3 },
    );
    assert_eq!(out, vec![]);
    let out = progress(
        &mut state,
        ConsensusEvent::Prevote { proposal: 7, signer: 1, round: 0, time: 4 },
    );
    assert_eq!(out, vec![]);
    let out = progress(
        &mut state,
        ConsensusEvent::Prevote { proposal: 7, signer: 2, round: 0, time: 5 },
    );
    assert_eq!(out, vec![ConsensusResponse::BroadcastPrecommit { proposal: 7, round: 0 }]);
    assert_eq!(state.step, ConsensusStep::Precommit);
    assert_eq!(state.locked_value, Some(7));
    assert_eq!(state.locked_round, Some(0));

    let out = progress(
        &mut state,
        ConsensusEvent::Precommit { proposal: 7, signer: 0, round: 0, time: 6 },
    );
    assert_eq!(out, vec![]);
    let out = progress(
        &mut state,
        ConsensusEvent::Precommit { proposal: 7, signer: 1, round: 0, time: 7 },
    );
    assert_eq!(out, vec![]);
    let out = progress(
        &mut state,
        ConsensusEvent::Precommit { proposal: 7, signer: 2, round: 0, time: 8 },
    );
    assert_eq!(out, vec![ConsensusResponse::FinalizeBlock { proposal: 7 }]);
    assert_eq!(state.step, ConsensusStep::Decided);
    assert_eq!(state.decision, Some(7));
}

#[test]
fn propose_timeout_leads_to_nil_round_and_round_advance() {
    let mut state = ConsensusState::new(committee_of_four());

    let out = progress(&mut state, ConsensusEvent::Timer { time: 1000 });
    assert_eq!(out, vec![ConsensusResponse::BroadcastNilPrevote { round: 0 }]);
    assert_eq!(state.step, ConsensusStep::Prevote);

    for signer in 0usize..2 {
        let out = progress(&mut state, ConsensusEvent::NilPrevote { signer, round: 0, time: 1001 });
        assert_eq!(out, vec![]);
    }
    let out = progress(&mut state, ConsensusEvent::NilPrevote { signer: 2, round: 0, time: 1002 });
    assert_eq!(out, vec![ConsensusResponse::BroadcastNilPrecommit { round: 0 }]);
    assert_eq!(state.step, ConsensusStep::Precommit);

    for signer in 0usize..2 {
        let out =
            progress(&mut state, ConsensusEvent::NilPrecommit { signer, round: 0, time: 1003 });
        assert_eq!(out, vec![]);
    }
    let out = progress(&mut state, ConsensusEvent::NilPrecommit { signer: 2, round: 0, time: 1004 });
    assert_eq!(out, vec![]);
    assert_eq!(state.round, 1);
    assert_eq!(state.step, ConsensusStep::Propose);
}

#[test]
fn equivocating_prevote_is_reported_and_not_tallied() {
    let mut state = ConsensusState::new(committee_of_four());

    let out = progress(
        &mut state,
        ConsensusEvent::Prevote { proposal: 7, signer: 2, round: 0, time: 1 },
    );
    assert_eq!(out, vec![]);

    let out = progress(
        &mut state,
        ConsensusEvent::Prevote { proposal: 9, signer: 2, round: 0, time: 2 },
    );
    assert_eq!(out.len(), 1);
    assert!(matches!(out[0], ConsensusResponse::ViolationReport { violator: 2, .. }));

    let recorded: Vec<_> =
        state.prevotes.iter().filter(|e| e.round == 0 && e.signer == 2).collect();
    assert_eq!(recorded.len(), 1);
    assert_eq!(recorded[0].target, VoteTarget::Block(7));
}

#[test]
fn fault_threshold_votes_in_higher_round_skip_to_it() {
    let mut state = ConsensusState::new(committee_of_four());
    assert_eq!(state.step, ConsensusStep::Propose);

    let out = progress(
        &mut state,
        ConsensusEvent::Prevote { proposal: 9, signer: 1, round: 5, time: 1 },
    );
    assert_eq!(out, vec![]);
    assert_eq!(state.round, 0);

    let out = progress(
        &mut state,
        ConsensusEvent::Prevote { proposal: 9, signer: 2, round: 5, time: 2 },
    );
    assert_eq!(out, vec![]);
    assert_eq!(state.round, 5);
    assert_eq!(state.step, ConsensusStep::Propose);
}

#[test]
fn decided_state_ignores_every_further_event() {
    let mut state = ConsensusState::new(committee_of_four());

    progress(
        &mut state,
        ConsensusEvent::BlockProposal { proposal: 7, proposer: 0, round: 0, time: 1 },
    );
    progress(&mut state, ConsensusEvent::ProposalFavor { proposal: 7, favor: true, time: 2 });
    for signer in 0usize..3 {
        progress(&mut state, ConsensusEvent::Prevote { proposal: 7, signer, round: 0, time: 3 });
    }
    for signer in 0usize..3 {
        progress(&mut state, ConsensusEvent::Precommit { proposal: 7, signer, round: 0, time: 4 });
    }
    assert_eq!(state.step, ConsensusStep::Decided);

    let snapshot = state.clone();
    let out = progress(
        &mut state,
        ConsensusEvent::Prevote { proposal: 9, signer: 1, round: 7, time: 9 },
    );
    assert_eq!(out, vec![]);
    let out = progress(&mut state, ConsensusEvent::Timer { time: 1_000_000 });
    assert_eq!(out, vec![]);
    assert_eq!(state, snapshot);
}

#[test]
fn proposal_from_wrong_proposer_is_reported_and_discarded() {
    let mut state = ConsensusState::new(committee_of_four());

    let out = progress(
        &mut state,
        ConsensusEvent::BlockProposal { proposal: 7, proposer: 2, round: 0, time: 1 },
    );
    assert_eq!(out.len(), 1);
    assert!(matches!(out[0], ConsensusResponse::ViolationReport { violator: 2, .. }));
    assert!(state.proposals.is_empty());
}

#[test]
fn unfavored_proposal_draws_a_nil_prevote() {
    let mut state = ConsensusState::new(committee_of_four());

    progress(
        &mut state,
        ConsensusEvent::BlockProposal { proposal: 7, proposer: 0, round: 0, time: 1 },
    );
    let out = progress(&mut state, ConsensusEvent::ProposalFavor { proposal: 7, favor: false, time: 2 });
    assert_eq!(out, vec![ConsensusResponse::BroadcastNilPrevote { round: 0 }]);
    assert_eq!(state.step, ConsensusStep::Prevote);
}

#[test]
fn locked_node_refuses_to_prevote_a_different_block() {
    let mut state = ConsensusState::new(committee_of_four());

    // Lock on block 7 in round 0.
    progress(
        &mut state,
        ConsensusEvent::BlockProposal { proposal: 7, proposer: 0, round: 0, time: 1 },
    );
    progress(&mut state, ConsensusEvent::ProposalFavor { proposal: 7, favor: true, time: 2 });
    for signer in 0usize..3 {
        progress(&mut state, ConsensusEvent::Prevote { proposal: 7, signer, round: 0, time: 3 });
    }
    assert_eq!(state.locked_value, Some(7));

    // Round 0 fails on nil precommits; round 1 proposes a different block.
    for signer in 0usize..3 {
        progress(&mut state, ConsensusEvent::NilPrecommit { signer, round: 0, time: 4 });
    }
    assert_eq!(state.round, 1);
    progress(
        &mut state,
        ConsensusEvent::BlockProposal { proposal: 9, proposer: 1, round: 1, time: 5 },
    );
    let out = progress(&mut state, ConsensusEvent::ProposalFavor { proposal: 9, favor: true, time: 6 });
    assert_eq!(out, vec![ConsensusResponse::BroadcastNilPrevote { round: 1 }]);
    assert_eq!(state.locked_value, Some(7));
}

#[test]
fn duplicate_vote_is_silently_ignored() {
    let mut state = ConsensusState::new(committee_of_four());

    let out = progress(
        &mut state,
        ConsensusEvent::Prevote { proposal: 7, signer: 1, round: 0, time: 1 },
    );
    assert_eq!(out, vec![]);
    let out = progress(
        &mut state,
        ConsensusEvent::Prevote { proposal: 7, signer: 1, round: 0, time: 2 },
    );
    assert_eq!(out, vec![]);
    assert_eq!(state.prevotes.len(), 1);
}

#[test]
fn proposer_node_is_asked_to_create_the_proposal() {
    let info = HeightInfo {
        validators: vec![1, 1, 1, 1],
        this_node_index: 0,
        timestamp: 0,
        consensus_params: ConsensusParams { timeout_ms: 1000 },
    };
    let mut state = ConsensusState::new(info);

    // The first event triggers the round-0 entry actions of the proposer.
    let out = progress(&mut state, ConsensusEvent::Timer { time: 1 });
    assert_eq!(out, vec![ConsensusResponse::CreateAndBroadcastProposal { round: 0 }]);

    // Once the broadcast is confirmed and favored, the proposer prevotes it.
    progress(
        &mut state,
        ConsensusEvent::BlockProposalBroadcasted { proposal: 4, round: 0, time: 2 },
    );
    let out = progress(&mut state, ConsensusEvent::ProposalFavor { proposal: 4, favor: true, time: 3 });
    assert_eq!(out, vec![ConsensusResponse::BroadcastPrevote { proposal: 4, round: 0 }]);
}

#[test]
fn stale_timer_is_a_no_op() {
    let mut state = ConsensusState::new(committee_of_four());

    let out = progress(&mut state, ConsensusEvent::Timer { time: 999 });
    assert_eq!(out, vec![]);
    assert_eq!(state.step, ConsensusStep::Propose);
}

#[test]
fn weighted_committee_uses_power_not_count() {
    // One heavy validator holds 5 of 8 power: together with one light
    // validator it crosses two thirds.
    let info = HeightInfo {
        validators: vec![5, 1, 1, 1],
        this_node_index: 3,
        timestamp: 0,
        consensus_params: ConsensusParams { timeout_ms: 1000 },
    };
    let mut state = ConsensusState::new(info);

    progress(
        &mut state,
        ConsensusEvent::BlockProposal { proposal: 3, proposer: 0, round: 0, time: 1 },
    );
    progress(&mut state, ConsensusEvent::ProposalFavor { proposal: 3, favor: true, time: 2 });
    let out = progress(
        &mut state,
        ConsensusEvent::Prevote { proposal: 3, signer: 1, round: 0, time: 3 },
    );
    assert_eq!(out, vec![]);
    let out = progress(
        &mut state,
        ConsensusEvent::Prevote { proposal: 3, signer: 0, round: 0, time: 4 },
    );
    assert_eq!(out, vec![ConsensusResponse::BroadcastPrecommit { proposal: 3, round: 0 }]);
}

#[test]
fn prevote_timeout_fires_once_and_forces_nil_precommit() {
    let mut state = ConsensusState::new(committee_of_four());

    // Reach the prevote step via the propose timeout.
    progress(&mut state, ConsensusEvent::Timer { time: 1000 });
    assert_eq!(state.step, ConsensusStep::Prevote);

    // Split prevotes reach the fault threshold but no quorum: the prevote
    // timeout is armed.
    progress(&mut state, ConsensusEvent::Prevote { proposal: 7, signer: 0, round: 0, time: 1001 });
    progress(&mut state, ConsensusEvent::Prevote { proposal: 9, signer: 1, round: 0, time: 1002 });
    assert!(state.prevote_deadline.is_some());

    let deadline = state.prevote_deadline.unwrap();
    let out = progress(&mut state, ConsensusEvent::Timer { time: deadline });
    assert_eq!(out, vec![ConsensusResponse::BroadcastNilPrecommit { round: 0 }]);
    assert_eq!(state.step, ConsensusStep::Precommit);
}

#[test]
fn two_instances_with_the_same_height_info_decide_alike() {
    // The same committee seen from two different nodes, with the votes
    // delivered in different orders: both reach the same decision.
    let info_a = committee_of_four();
    let mut info_b = committee_of_four();
    info_b.this_node_index = 2;
    let mut a = ConsensusState::new(info_a);
    let mut b = ConsensusState::new(info_b);

    for state in [&mut a, &mut b] {
        progress(
            state,
            ConsensusEvent::BlockProposal { proposal: 7, proposer: 0, round: 0, time: 1 },
        );
        progress(state, ConsensusEvent::ProposalFavor { proposal: 7, favor: true, time: 2 });
    }
    for signer in [0usize, 1, 2] {
        progress(&mut a, ConsensusEvent::Prevote { proposal: 7, signer, round: 0, time: 3 });
    }
    for signer in [2usize, 0, 3] {
        progress(&mut b, ConsensusEvent::Prevote { proposal: 7, signer, round: 0, time: 3 });
    }
    for signer in [1usize, 2, 0] {
        progress(&mut a, ConsensusEvent::Precommit { proposal: 7, signer, round: 0, time: 4 });
    }
    for signer in [3usize, 2, 1] {
        progress(&mut b, ConsensusEvent::Precommit { proposal: 7, signer, round: 0, time: 4 });
    }
    assert_eq!(a.step, ConsensusStep::Decided);
    assert_eq!(b.step, ConsensusStep::Decided);
    assert_eq!(a.decision, b.decision);
    assert_eq!(a.decision, Some(7));
}

#[test]
fn round_and_step_never_move_backward() {
    let mut state = ConsensusState::new(committee_of_four());
    let step_rank = |s: &ConsensusStep| match s {
        ConsensusStep::Propose => 0,
        ConsensusStep::Prevote => 1,
        ConsensusStep::Precommit => 2,
        ConsensusStep::Decided => 3,
    };
    let events = vec![
        ConsensusEvent::Prevote { proposal: 9, signer: 1, round: 2, time: 1 },
        ConsensusEvent::BlockProposal { proposal: 7, proposer: 0, round: 0, time: 2 },
        ConsensusEvent::Timer { time: 1000 },
        ConsensusEvent::ProposalFavor { proposal: 7, favor: true, time: 1001 },
        ConsensusEvent::NilPrevote { signer: 0, round: 0, time: 1002 },
        ConsensusEvent::NilPrevote { signer: 1, round: 0, time: 1003 },
        ConsensusEvent::NilPrevote { signer: 2, round: 0, time: 1004 },
        ConsensusEvent::NilPrecommit { signer: 0, round: 0, time: 1005 },
        ConsensusEvent::NilPrecommit { signer: 1, round: 0, time: 1006 },
        ConsensusEvent::NilPrecommit { signer: 2, round: 0, time: 1007 },
        ConsensusEvent::Timer { time: 5000 },
        ConsensusEvent::Prevote { proposal: 9, signer: 1, round: 2, time: 5001 },
        ConsensusEvent::Prevote { proposal: 9, signer: 2, round: 2, time: 5002 },
    ];
    for event in events {
        let before = (state.round, step_rank(&state.step));
        progress(&mut state, event);
        let after = (state.round, step_rank(&state.step));
        assert!(after >= before);
    }
}

#[test]
fn equivocating_precommit_is_reported_and_not_tallied() {
    let mut state = ConsensusState::new(committee_of_four());

    let out = progress(
        &mut state,
        ConsensusEvent::Precommit { proposal: 7, signer: 1, round: 0, time: 1 },
    );
    assert_eq!(out, vec![]);
    let out = progress(&mut state, ConsensusEvent::NilPrecommit { signer: 1, round: 0, time: 2 });
    assert_eq!(out.len(), 1);
    assert!(matches!(out[0], ConsensusResponse::ViolationReport { violator: 1, .. }));
    assert_eq!(state.precommits.len(), 1);
    assert_eq!(state.precommits[0].target, VoteTarget::Block(7));
}

#[test]
fn favor_signal_before_the_proposal_is_held_and_used() {
    let mut state = ConsensusState::new(committee_of_four());

    let out = progress(&mut state, ConsensusEvent::ProposalFavor { proposal: 7, favor: true, time: 1 });
    assert_eq!(out, vec![]);
    assert_eq!(state.step, ConsensusStep::Propose);

    let out = progress(
        &mut state,
        ConsensusEvent::BlockProposal { proposal: 7, proposer: 0, round: 0, time: 2 },
    );
    assert_eq!(out, vec![ConsensusResponse::BroadcastPrevote { proposal: 7, round: 0 }]);
    assert_eq!(state.step, ConsensusStep::Prevote);
}

#[test]
fn early_higher_round_proposal_is_reconsidered_after_the_skip() {
    let mut state = ConsensusState::new(committee_of_four());

    // A proposal for round 2 arrives while round 0 is still running; its
    // proposer is legitimate for round 2, so it is held.
    let out = progress(
        &mut state,
        ConsensusEvent::BlockProposal { proposal: 9, proposer: 2, round: 2, time: 1 },
    );
    assert_eq!(out, vec![]);

    // Fault-threshold votes in round 2 skip the state there.
    progress(&mut state, ConsensusEvent::Prevote { proposal: 9, signer: 0, round: 2, time: 2 });
    progress(&mut state, ConsensusEvent::Prevote { proposal: 9, signer: 1, round: 2, time: 3 });
    assert_eq!(state.round, 2);
    assert_eq!(state.step, ConsensusStep::Propose);

    // Once favored, the held proposal is prevoted in its round.
    let out = progress(&mut state, ConsensusEvent::ProposalFavor { proposal: 9, favor: true, time: 4 });
    assert_eq!(out, vec![ConsensusResponse::BroadcastPrevote { proposal: 9, round: 2 }]);
}

#[test]
fn one_event_can_cascade_prevote_and_precommit_in_order() {
    let mut state = ConsensusState::new(committee_of_four());

    progress(
        &mut state,
        ConsensusEvent::BlockProposal { proposal: 7, proposer: 0, round: 0, time: 1 },
    );
    // A full prevote quorum arrives while the favor signal is pending.
    for signer in 0usize..3 {
        let out = progress(
            &mut state,
            ConsensusEvent::Prevote { proposal: 7, signer, round: 0, time: 2 },
        );
        assert_eq!(out, vec![]);
    }
    assert_eq!(state.step, ConsensusStep::Propose);

    // The favor signal releases the whole chain: prevote, then precommit,
    // in emission order.
    let out = progress(&mut state, ConsensusEvent::ProposalFavor { proposal: 7, favor: true, time: 3 });
    assert_eq!(
        out,
        vec![
            ConsensusResponse::BroadcastPrevote { proposal: 7, round: 0 },
            ConsensusResponse::BroadcastPrecommit { proposal: 7, round: 0 },
        ]
    );
    assert_eq!(state.step, ConsensusStep::Precommit);
    assert_eq!(state.locked_value, Some(7));
}
