use vstd::prelude::*;
use crate::types::{ConsensusEntry, ConsensusError, WeightEntry, WeightSubmission};
use crate::aggregate::{compute_weighted_median, consensus_entries};
use crate::trust::{calculate_trust_scores, miner_trust_spec, validator_trust_seq};

verus! {

/// The consensus record of one epoch of one subnet. It is open until it is
/// finalized, and never changes after that.
pub struct ConsensusState {
    pub subnet_id: u16,
    pub epoch: u64,
    pub submissions: Vec<WeightSubmission>,
    pub miner_consensus: Vec<ConsensusEntry>,
    pub validator_consensus: Vec<ConsensusEntry>,
    pub finalized: bool,
    pub finalized_at: i64,
}

/// The published miner entries: consensus weights with each miner's trust
/// merged in.
pub open spec fn finalized_miners(subs: Seq<WeightSubmission>, table: Seq<(u16, u64)>) -> Seq<
    ConsensusEntry,
> {
    consensus_entries(subs, table).map_values(
        |e: ConsensusEntry|
            ConsensusEntry {
                uid: e.uid,
                consensus_weight: e.consensus_weight,
                trust_score: miner_trust_spec(subs, e.uid, e.consensus_weight),
                emission_share: 0,
            },
    )
}

/// The published validator entries: one trust entry per submission.
pub open spec fn finalized_validators(subs: Seq<WeightSubmission>, table: Seq<(u16, u64)>) -> Seq<
    ConsensusEntry,
> {
    validator_trust_seq(subs, consensus_entries(subs, table))
}

/// What `submit_weights` does: refuse a wrong subnet, then a wrong epoch,
/// then a finalized epoch, leaving the state as it was; else append the
/// submission and change nothing else.
pub open spec fn submit_post(
    pre: ConsensusState,
    post: ConsensusState,
    subnet_id: u16,
    epoch: u64,
    validator_uid: u16,
    weights: Vec<WeightEntry>,
    timestamp: i64,
    r: Result<(), ConsensusError>,
) -> bool {
    if pre.subnet_id != subnet_id {
        r == Err::<(), ConsensusError>(ConsensusError::InvalidSubnet) && post == pre
    } else if pre.epoch != epoch {
        r == Err::<(), ConsensusError>(ConsensusError::InvalidEpoch) && post == pre
    } else if pre.finalized {
        r == Err::<(), ConsensusError>(ConsensusError::EpochFinalized) && post == pre
    } else {
        &&& r == Ok::<(), ConsensusError>(())
        &&& post.submissions@ == pre.submissions@.push(
            WeightSubmission { validator_uid, subnet_id, epoch, weights, timestamp },
        )
        &&& post.subnet_id == pre.subnet_id
        &&& post.epoch == pre.epoch
        &&& post.miner_consensus == pre.miner_consensus
        &&& post.validator_consensus == pre.validator_consensus
        &&& post.finalized == pre.finalized
        &&& post.finalized_at == pre.finalized_at
    }
}

/// What `finalize_consensus` does: refuse a wrong subnet or epoch, then a
/// finalized epoch, leaving the state as it was; else publish the miner and
/// validator entries, mark the epoch finalized at `timestamp`, and keep the
/// submissions.
pub open spec fn finalize_post(
    pre: ConsensusState,
    post: ConsensusState,
    subnet_id: u16,
    epoch: u64,
    stakes: Seq<(u16, u64)>,
    timestamp: i64,
    r: Result<(), ConsensusError>,
) -> bool {
    if pre.subnet_id != subnet_id || pre.epoch != epoch {
        r == Err::<(), ConsensusError>(ConsensusError::InvalidEpoch) && post == pre
    } else if pre.finalized {
        r == Err::<(), ConsensusError>(ConsensusError::EpochFinalized) && post == pre
    } else {
        &&& r == Ok::<(), ConsensusError>(())
        &&& post.subnet_id == pre.subnet_id
        &&& post.epoch == pre.epoch
        &&& post.submissions == pre.submissions
        &&& post.miner_consensus@ == finalized_miners(pre.submissions@, stakes)
        &&& post.validator_consensus@ == finalized_validators(pre.submissions@, stakes)
        &&& post.finalized
        &&& post.finalized_at == timestamp
    }
}

impl ConsensusState {
    /// Every submission belongs to this subnet and epoch, and nothing is
    /// published before finalization.
    pub open spec fn wf(&self) -> bool {
        &&& forall|i: int|
            0 <= i < self.submissions@.len() ==> (#[trigger] self.submissions@[i]).subnet_id
                == self.subnet_id && self.submissions@[i].epoch == self.epoch
        &&& !self.finalized ==> {
            &&& self.miner_consensus@.len() == 0
            &&& self.validator_consensus@.len() == 0
            &&& self.finalized_at == 0
        }
    }

    /// An empty, open record for one epoch of one subnet.
    pub fn new(subnet_id: u16, epoch: u64) -> (r: ConsensusState)
        ensures
            r.wf(),
            r.subnet_id == subnet_id,
            r.epoch == epoch,
            r.submissions@.len() == 0,
            !r.finalized,
    {
        ConsensusState {
            subnet_id,
            epoch,
            submissions: Vec::new(),
            miner_consensus: Vec::new(),
            validator_consensus: Vec::new(),
            finalized: false,
            finalized_at: 0,
        }
    }
}

/// Records one validator's weights for an open epoch, stamped with
/// `timestamp`. The weights are taken as they are.
pub fn submit_weights(
    state: &mut ConsensusState,
    subnet_id: u16,
    epoch: u64,
    validator_uid: u16,
    weights: Vec<WeightEntry>,
    timestamp: i64,
) -> (r: Result<(), ConsensusError>)
    requires
        old(state).wf(),
    ensures
        final(state).wf(),
        submit_post(*old(state), *final(state), subnet_id, epoch, validator_uid, weights, timestamp, r),
{
    if state.subnet_id != subnet_id {
        return Err(ConsensusError::InvalidSubnet);
    }
    if state.epoch != epoch {
        return Err(ConsensusError::InvalidEpoch);
    }
    if state.finalized {
        return Err(ConsensusError::EpochFinalized);
    }
    let submission = WeightSubmission { validator_uid, subnet_id, epoch, weights, timestamp };
    state.submissions.push(submission);
    Ok(())
}

/// Writes the trust of each miner into its entry.
fn merge_miner_trust(entries: &Vec<ConsensusEntry>, trust: &Vec<(u16, u64)>) -> (r: Vec<ConsensusEntry>)
    requires
        trust.len() == entries.len(),
    ensures
        r.len() == entries.len(),
        forall|k: int|
            0 <= k < r.len() ==> #[trigger] r@[k] == (ConsensusEntry {
                trust_score: trust@[k].1,
                ..entries@[k]
            }),
{
    let mut out: Vec<ConsensusEntry> = Vec::new();
    let mut k: usize = 0;
    while k < entries.len()
        invariant
            k <= entries.len(),
            trust.len() == entries.len(),
            out.len() == k,
            forall|j: int|
                0 <= j < k ==> #[trigger] out@[j] == (ConsensusEntry {
                    trust_score: trust@[j].1,
                    ..entries@[j]
                }),
        decreases entries.len() - k,
    {
        let e = entries[k];
        out.push(
            ConsensusEntry {
                uid: e.uid,
                consensus_weight: e.consensus_weight,
                trust_score: trust[k].1,
                emission_share: e.emission_share,
            },
        );
        k = k + 1;
    }
    out
}

/// Closes an open epoch: aggregates the submissions into miner consensus
/// weights (stake looked up in `stakes` by validator), scores trust, publishes
/// both and marks the epoch finalized at `timestamp`.
pub fn finalize_consensus(
    state: &mut ConsensusState,
    subnet_id: u16,
    epoch: u64,
    stakes: &Vec<(u16, u64)>,
    timestamp: i64,
) -> (r: Result<(), ConsensusError>)
    requires
        old(state).wf(),
    ensures
        final(state).wf(),
        finalize_post(*old(state), *final(state), subnet_id, epoch, stakes@, timestamp, r),
{
    if state.subnet_id != subnet_id || state.epoch != epoch {
        return Err(ConsensusError::InvalidEpoch);
    }
    if state.finalized {
        return Err(ConsensusError::EpochFinalized);
    }
    let base = compute_weighted_median(&state.submissions, stakes);
    let scores = calculate_trust_scores(&state.submissions, &base);
    let merged = merge_miner_trust(&base, &scores.miner_trust);
    proof {
        let want = finalized_miners(state.submissions@, stakes@);
        assert(merged@ =~= want);
    }
    state.miner_consensus = merged;
    state.validator_consensus = scores.validator_trust;
    state.finalized = true;
    state.finalized_at = timestamp;
    Ok(())
}

} // verus!
