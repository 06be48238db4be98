//! Unit tests of the quorum arithmetic, the timeout derivation and the
//! vote-tally helpers.

use vetomint::machine::{deadline_after, is_expired, round_timeout};
use vetomint::power::{has_fault_threshold, has_quorum, total_power};
use vetomint::tally::{find_quorum_block, find_vote, power_for, power_voted, VoteEntry, VoteTarget};
use vetomint::{ConsensusParams, ConsensusState, HeightInfo};

#[test]
fn quorum_is_strictly_more_than_two_thirds() {
    assert!(has_quorum(3, 4));
    assert!(!has_quorum(2, 3));
    assert!(!has_quorum(2, 4));
    assert!(has_quorum(1, 1));
    assert!(!has_quorum(0, 0));
    assert!(has_quorum(67, 100));
    assert!(!has_quorum(66, 100));
}

#[test]
fn fault_threshold_is_strictly_more_than_one_third() {
    assert!(has_fault_threshold(2, 4));
    assert!(!has_fault_threshold(1, 3));
    assert!(has_fault_threshold(2, 5));
    assert!(!has_fault_threshold(0, 0));
    assert!(has_fault_threshold(34, 100));
    assert!(!has_fault_threshold(33, 100));
}

#[test]
fn quorum_arithmetic_does_not_overflow_at_the_limits() {
    assert!(has_quorum(u64::MAX, u64::MAX));
    assert!(!has_quorum(0, u64::MAX));
    assert!(has_fault_threshold(u64::MAX, u64::MAX));
}

#[test]
fn total_power_sums_the_committee() {
    assert_eq!(total_power(&vec![5, 1, 1, 1]), 8);
    assert_eq!(total_power(&vec![42]), 42);
    assert_eq!(total_power(&vec![0, 0]), 0);
}

#[test]
fn round_timeout_scales_linearly_and_saturates() {
    assert_eq!(round_timeout(1000, 0), 1000);
    assert_eq!(round_timeout(1000, 3), 4000);
    assert_eq!(round_timeout(u64::MAX, 1), u64::MAX);
    assert_eq!(round_timeout(0, 9), 0);
}

#[test]
fn deadline_saturates_at_the_largest_timestamp() {
    assert_eq!(deadline_after(100, 50), 150);
    assert_eq!(deadline_after(-100, 50), -50);
    assert_eq!(deadline_after(i64::MAX - 1, 10), i64::MAX);
}

fn sample_votes() -> Vec<VoteEntry> {
    vec![
        VoteEntry { round: 0, signer: 0, target: VoteTarget::Block(7) },
        VoteEntry { round: 0, signer: 1, target: VoteTarget::Block(7) },
        VoteEntry { round: 0, signer: 2, target: VoteTarget::Nil },
        VoteEntry { round: 1, signer: 0, target: VoteTarget::Block(9) },
    ]
}

#[test]
fn vote_lookup_finds_the_recorded_vote() {
    let votes = sample_votes();
    assert_eq!(find_vote(&votes, 0, 1), Some(VoteTarget::Block(7)));
    assert_eq!(find_vote(&votes, 0, 2), Some(VoteTarget::Nil));
    assert_eq!(find_vote(&votes, 0, 3), None);
    assert_eq!(find_vote(&votes, 1, 0), Some(VoteTarget::Block(9)));
}

#[test]
fn power_sums_respect_round_and_target() {
    let votes = sample_votes();
    let powers = vec![1, 1, 1, 1];
    assert_eq!(power_for(&votes, &powers, 0, VoteTarget::Block(7)), 2);
    assert_eq!(power_for(&votes, &powers, 0, VoteTarget::Nil), 1);
    assert_eq!(power_for(&votes, &powers, 1, VoteTarget::Block(9)), 1);
    assert_eq!(power_voted(&votes, &powers, 0), 3);
    assert_eq!(power_voted(&votes, &powers, 2), 0);
}

#[test]
fn quorum_search_finds_the_quorate_block() {
    let powers = vec![1, 1, 1, 1];
    let votes = vec![
        VoteEntry { round: 0, signer: 0, target: VoteTarget::Block(7) },
        VoteEntry { round: 0, signer: 1, target: VoteTarget::Block(7) },
        VoteEntry { round: 0, signer: 2, target: VoteTarget::Block(7) },
        VoteEntry { round: 0, signer: 3, target: VoteTarget::Nil },
    ];
    assert_eq!(find_quorum_block(&votes, &powers, 0, 4), Some(7));
    assert_eq!(find_quorum_block(&votes, &powers, 1, 4), None);

    let split = sample_votes();
    assert_eq!(find_quorum_block(&split, &powers, 0, 4), None);
}

#[test]
fn proposer_rotates_round_robin() {
    let info = HeightInfo {
        validators: vec![1, 1, 1, 1],
        this_node_index: 0,
        timestamp: 0,
        consensus_params: ConsensusParams { timeout_ms: 1000 },
    };
    let state = ConsensusState::new(info);
    assert_eq!(state.proposer_of(0), 0);
    assert_eq!(state.proposer_of(1), 1);
    assert_eq!(state.proposer_of(5), 1);
    assert_eq!(state.proposer_of(7), 3);
}

#[test]
fn deadlines_expire_exactly_at_their_timestamp() {
    assert!(!is_expired(1000, 999));
    assert!(is_expired(1000, 1000));
    assert!(is_expired(1000, 1001));
}
