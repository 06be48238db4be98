//! Single-height core of a round-based Byzantine-fault-tolerant agreement
//! protocol. A committee of weighted validators moves through rounds of
//! propose / prevote / precommit voting until one block is decided. The
//! core is a pure state machine: one event goes in, the state mutates, and
//! an ordered list of responses comes out. All timing is driven by the
//! caller through explicit timer events.

use vstd::prelude::*;

pub mod machine;
pub mod power;
pub mod tally;

pub use machine::progress;
pub use machine::ConsensusState;
pub use machine::ConsensusStep;

verus! {

/// An index of a validator, local to a single height.
pub type ValidatorIndex = usize;

/// An identifier of a block, local to a single height.
pub type BlockIdentifier = usize;

/// A UNIX timestamp measured in milliseconds.
pub type Timestamp = i64;

/// The consensus parameters: the base timeout from which every per-round
/// deadline is derived.
#[derive(Debug, Clone, PartialEq, Eq)]
pub struct ConsensusParams {
    pub timeout_ms: u64,
}

/// An event that may trigger a state transition.
///
/// There is no cryptography-related information here: the lower layer
/// verifies and refines raw messages into this abstracted data, and keeps
/// the mapping from real keys and blocks to the integer indices used here.
#[derive(Debug, Clone, PartialEq, Eq)]
pub enum ConsensusEvent {
    /// The node has received a block proposal.
    BlockProposal { proposal: BlockIdentifier, proposer: ValidatorIndex, round: usize, time: Timestamp },
    /// The node is in favor of or against a proposal.
    ProposalFavor { proposal: BlockIdentifier, favor: bool, time: Timestamp },
    /// A `CreateAndBroadcastProposal` response has been completed.
    BlockProposalBroadcasted { proposal: BlockIdentifier, round: usize, time: Timestamp },
    /// The node has received a block prevote.
    Prevote { proposal: BlockIdentifier, signer: ValidatorIndex, round: usize, time: Timestamp },
    /// The node has received a block precommit.
    Precommit { proposal: BlockIdentifier, signer: ValidatorIndex, round: usize, time: Timestamp },
    /// The node has received a nil prevote.
    NilPrevote { signer: ValidatorIndex, round: usize, time: Timestamp },
    /// The node has received a nil precommit.
    NilPrecommit { signer: ValidatorIndex, round: usize, time: Timestamp },
    /// Time has passed.
    Timer { time: Timestamp },
}

/// A response that the consensus may emit for a given event; the lower
/// layer must perform each response, in emission order.
#[derive(Debug, Clone, PartialEq, Eq)]
pub enum ConsensusResponse {
    /// Creation of the actual proposal is the lower layer's role; it must
    /// deliver a `BlockProposalBroadcasted` event once done.
    CreateAndBroadcastProposal { round: usize },
    BroadcastPrevote { proposal: BlockIdentifier, round: usize },
    BroadcastPrecommit { proposal: BlockIdentifier, round: usize },
    BroadcastNilPrevote { round: usize },
    BroadcastNilPrecommit { round: usize },
    FinalizeBlock { proposal: BlockIdentifier },
    ViolationReport { violator: ValidatorIndex, description: String },
}

/// The immutable information used to perform the consensus for a single
/// height.
#[derive(Debug, Clone, PartialEq, Eq)]
pub struct HeightInfo {
    /// The voting power of each validator, sorted by the leader order;
    /// `ValidatorIndex` is an index into this list.
    pub validators: Vec<u64>,
    /// The index of this node.
    pub this_node_index: ValidatorIndex,
    /// The timestamp of the beginning of round 0.
    pub timestamp: Timestamp,
    /// The consensus parameters.
    pub consensus_params: ConsensusParams,
}

} // verus!
