use vstd::prelude::*;

verus! {

/// One opinion of a validator about one miner, on the 0..=10000 scale by
/// convention (not enforced).
#[derive(Clone, Copy, Debug, PartialEq, Eq, Structural)]
pub struct WeightEntry {
    pub miner_uid: u16,
    pub weight: u64,
}

/// Everything one validator reported for one epoch of one subnet.
#[derive(Clone, Debug)]
pub struct WeightSubmission {
    pub validator_uid: u16,
    pub subnet_id: u16,
    pub epoch: u64,
    pub weights: Vec<WeightEntry>,
    pub timestamp: i64,
}

/// A published result for one participant. For miners `consensus_weight` and
/// `trust_score` are set; for validators only `trust_score`. `emission_share`
/// is left to reward distribution.
#[derive(Clone, Copy, Debug, PartialEq, Eq, Structural)]
pub struct ConsensusEntry {
    pub uid: u16,
    pub consensus_weight: u64,
    pub trust_score: u64,
    pub emission_share: u64,
}

/// Why an operation on an epoch's consensus state was refused.
#[derive(Clone, Copy, Debug, PartialEq, Eq, Structural)]
pub enum ConsensusError {
    InvalidSubnet,
    InvalidEpoch,
    EpochFinalized,
    NotValidator,
    InsufficientSubmissions,
}

} // verus!
