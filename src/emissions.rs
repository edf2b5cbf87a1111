use vstd::prelude::*;
use crate::types::ConsensusEntry;
use crate::epoch::ConsensusState;
use crate::registry::same_key;

verus! {

/// A neuron's reward account in a subnet.
#[derive(Debug, Clone, Copy, PartialEq, Eq, Structural)]
pub struct EmissionBalance {
    pub neuron_uid: u16,
    pub subnet_id: u16,
    pub accumulated: u64,
    pub claimed: u64,
    pub last_updated: i64,
}

/// Emission granted to one subnet.
#[derive(Debug, Clone, Copy, PartialEq, Eq, Structural)]
pub struct SubnetAllocation {
    pub subnet_id: u16,
    pub allocation: u64,
}

/// Why a reward operation was refused.
#[derive(Clone, Copy, Debug, PartialEq, Eq, Structural)]
pub enum EmissionsError {
    InvalidEpoch,
    ConsensusNotFinalized,
    InvalidSubnet,
    NoRewardsToClaim,
    Unauthorized,
}

/// The shares of one epoch's emission: `(uid, amount)` per miner entry and
/// per validator entry, in the order of the entries.
pub struct EmissionShares {
    pub miner_shares: Vec<(u16, u64)>,
    pub validator_shares: Vec<(u16, u64)>,
}

/// Reward weight of a miner entry: consensus weight plus trust.
pub open spec fn miner_reward_weight(e: ConsensusEntry) -> int {
    e.consensus_weight + e.trust_score
}

/// Sum of the miners' reward weights.
pub open spec fn total_miner_weight(es: Seq<ConsensusEntry>) -> int
    decreases es.len(),
{
    if es.len() == 0 {
        0
    } else {
        total_miner_weight(es.drop_last()) + miner_reward_weight(es.last())
    }
}

/// Sum of the validators' trust scores.
pub open spec fn total_validator_weight(es: Seq<ConsensusEntry>) -> int
    decreases es.len(),
{
    if es.len() == 0 {
        0
    } else {
        total_validator_weight(es.drop_last()) + es.last().trust_score
    }
}

/// `weight / total` of `budget`, floored; nothing when the total is 0.
pub open spec fn proportional(weight: int, budget: u64, total: int) -> u64 {
    if total == 0 {
        0
    } else {
        (weight * budget / total) as u64
    }
}

/// The miners' shares of `budget`, proportional to their reward weights.
pub open spec fn miner_shares_spec(es: Seq<ConsensusEntry>, budget: u64) -> Seq<(u16, u64)> {
    es.map_values(
        |e: ConsensusEntry|
            (e.uid, proportional(miner_reward_weight(e), budget, total_miner_weight(es))),
    )
}

/// The validators' shares of `budget`, proportional to their trust.
pub open spec fn validator_shares_spec(es: Seq<ConsensusEntry>, budget: u64) -> Seq<(u16, u64)> {
    es.map_values(
        |e: ConsensusEntry|
            (e.uid, proportional(e.trust_score as int, budget, total_validator_weight(es))),
    )
}

proof fn lemma_miner_weight_parts(es: Seq<ConsensusEntry>, k: int)
    requires
        0 <= k <= es.len(),
    ensures
        0 <= total_miner_weight(es.take(k)) <= total_miner_weight(es),
        forall|j: int| 0 <= j < es.len() ==> #[trigger] miner_reward_weight(es[j]) <= total_miner_weight(es),
    decreases es.len(),
{
    if es.len() > 0 {
        let p = es.drop_last();
        if k == es.len() {
            assert(es.take(k) =~= es);
            lemma_miner_weight_parts(p, 0);
        } else {
            assert(es.take(k) =~= p.take(k));
            lemma_miner_weight_parts(p, k);
        }
        assert forall|j: int| 0 <= j < es.len() implies #[trigger] miner_reward_weight(es[j])
            <= total_miner_weight(es) by {
            if j < p.len() {
                assert(es[j] == p[j]);
            }
        }
    } else {
        assert(es.take(k) =~= es);
    }
}

proof fn lemma_validator_weight_parts(es: Seq<ConsensusEntry>, k: int)
    requires
        0 <= k <= es.len(),
    ensures
        0 <= total_validator_weight(es.take(k)) <= total_validator_weight(es),
        forall|j: int| 0 <= j < es.len() ==> #[trigger] es[j].trust_score <= total_validator_weight(es),
    decreases es.len(),
{
    if es.len() > 0 {
        let p = es.drop_last();
        if k == es.len() {
            assert(es.take(k) =~= es);
            lemma_validator_weight_parts(p, 0);
        } else {
            assert(es.take(k) =~= p.take(k));
            lemma_validator_weight_parts(p, k);
        }
        assert forall|j: int| 0 <= j < es.len() implies #[trigger] es[j].trust_score
            <= total_validator_weight(es) by {
            if j < p.len() {
                assert(es[j] == p[j]);
            }
        }
    } else {
        assert(es.take(k) =~= es);
    }
}

/// `weight · budget / total`, floored, for `weight <= total`.
fn share_of(weight: u64, budget: u64, total: u64) -> (r: u64)
    requires
        weight <= total,
    ensures
        r == proportional(weight as int, budget, total as int),
{
    if total == 0 {
        return 0;
    }
    assert(weight * budget <= u64::MAX * u64::MAX) by (nonlinear_arith)
        requires
            weight <= u64::MAX,
            budget <= u64::MAX,
    ;
    let product = weight as u128 * budget as u128;
    proof {
        assert(product <= total * budget) by (nonlinear_arith)
            requires
                product == weight * budget,
                weight <= total,
        ;
        assert((product as int) / (total as int) <= budget) by (nonlinear_arith)
            requires
                product <= total * budget,
                total > 0,
        ;
    }
    (product / total as u128) as u64
}

/// Splits an epoch's emission `total_emissions` among the finalized
/// consensus entries: miners in proportion to consensus weight plus trust,
/// validators in proportion to trust, each floored.
pub fn distribute_emissions(
    consensus_state: &ConsensusState,
    subnet_id: u16,
    epoch: u64,
    total_emissions: u64,
) -> (r: Result<EmissionShares, EmissionsError>)
    requires
        total_miner_weight(consensus_state.miner_consensus@) <= u64::MAX,
        total_validator_weight(consensus_state.validator_consensus@) <= u64::MAX,
    ensures
        consensus_state.subnet_id != subnet_id || consensus_state.epoch != epoch ==> r
            == Err::<EmissionShares, EmissionsError>(EmissionsError::InvalidEpoch),
        consensus_state.subnet_id == subnet_id && consensus_state.epoch == epoch
            && !consensus_state.finalized ==> r == Err::<EmissionShares, EmissionsError>(
            EmissionsError::ConsensusNotFinalized,
        ),
        r matches Ok(s) ==> {
            &&& consensus_state.subnet_id == subnet_id
            &&& consensus_state.epoch == epoch
            &&& consensus_state.finalized
            &&& s.miner_shares@ == miner_shares_spec(
                consensus_state.miner_consensus@,
                total_emissions,
            )
            &&& s.validator_shares@ == validator_shares_spec(
                consensus_state.validator_consensus@,
                total_emissions,
            )
        },
        consensus_state.subnet_id == subnet_id && consensus_state.epoch == epoch
            && consensus_state.finalized ==> r is Ok,
{
    if consensus_state.subnet_id != subnet_id || consensus_state.epoch != epoch {
        return Err(EmissionsError::InvalidEpoch);
    }
    if !consensus_state.finalized {
        return Err(EmissionsError::ConsensusNotFinalized);
    }
    let miners = &consensus_state.miner_consensus;
    let validators = &consensus_state.validator_consensus;
    let ghost ms = miners@;
    let ghost vs = validators@;
    let mut total_weight: u64 = 0;
    let mut i: usize = 0;
    while i < miners.len()
        invariant
            i <= miners.len(),
            ms == miners@,
            total_miner_weight(ms) <= u64::MAX,
            total_weight == total_miner_weight(ms.take(i as int)),
        decreases miners.len() - i,
    {
        proof {
            assert(ms.take(i as int + 1).drop_last() =~= ms.take(i as int));
            assert(ms.take(i as int + 1).last() == ms[i as int]);
            lemma_miner_weight_parts(ms, i as int + 1);
        }
        total_weight = total_weight + miners[i].consensus_weight + miners[i].trust_score;
        i = i + 1;
    }
    assert(ms.take(i as int) =~= ms);
    let ghost want_m = miner_shares_spec(ms, total_emissions);
    let mut miner_shares: Vec<(u16, u64)> = Vec::new();
    let mut k: usize = 0;
    while k < miners.len()
        invariant
            k <= miners.len(),
            ms == miners@,
            total_weight == total_miner_weight(ms),
            total_miner_weight(ms) <= u64::MAX,
            want_m == miner_shares_spec(ms, total_emissions),
            miner_shares@ == want_m.take(k as int),
        decreases miners.len() - k,
    {
        let e = miners[k];
        proof {
            lemma_miner_weight_parts(ms, 0);
            assert(miner_reward_weight(ms[k as int]) <= total_miner_weight(ms));
        }
        let share = share_of(e.consensus_weight + e.trust_score, total_emissions, total_weight);
        miner_shares.push((e.uid, share));
        assert(miner_shares@ =~= want_m.take(k as int + 1));
        k = k + 1;
    }
    assert(want_m.take(k as int) =~= want_m);
    let mut total_trust: u64 = 0;
    let mut j: usize = 0;
    while j < validators.len()
        invariant
            j <= validators.len(),
            vs == validators@,
            total_validator_weight(vs) <= u64::MAX,
            total_trust == total_validator_weight(vs.take(j as int)),
        decreases validators.len() - j,
    {
        proof {
            assert(vs.take(j as int + 1).drop_last() =~= vs.take(j as int));
            assert(vs.take(j as int + 1).last() == vs[j as int]);
            lemma_validator_weight_parts(vs, j as int + 1);
        }
        total_trust = total_trust + validators[j].trust_score;
        j = j + 1;
    }
    assert(vs.take(j as int) =~= vs);
    let ghost want_v = validator_shares_spec(vs, total_emissions);
    let mut validator_shares: Vec<(u16, u64)> = Vec::new();
    let mut k: usize = 0;
    while k < validators.len()
        invariant
            k <= validators.len(),
            vs == validators@,
            total_trust == total_validator_weight(vs),
            want_v == validator_shares_spec(vs, total_emissions),
            validator_shares@ == want_v.take(k as int),
        decreases validators.len() - k,
    {
        let e = validators[k];
        proof {
            lemma_validator_weight_parts(vs, 0);
            assert(vs[k as int].trust_score <= total_validator_weight(vs));
        }
        let share = share_of(e.trust_score, total_emissions, total_trust);
        validator_shares.push((e.uid, share));
        assert(validator_shares@ =~= want_v.take(k as int + 1));
        k = k + 1;
    }
    assert(want_v.take(k as int) =~= want_v);
    Ok(EmissionShares { miner_shares, validator_shares })
}

/// Claims everything accumulated in a reward account of subnet `subnet_id`:
/// returns the amount, which moves from accumulated to claimed.
pub fn claim_rewards(emission_balance: &mut EmissionBalance, subnet_id: u16) -> (r: Result<
    u64,
    EmissionsError,
>)
    requires
        old(emission_balance).claimed + old(emission_balance).accumulated <= u64::MAX,
    ensures
        ({
            let b = *old(emission_balance);
            if b.subnet_id != subnet_id {
                r == Err::<u64, EmissionsError>(EmissionsError::InvalidSubnet)
            } else if b.accumulated == 0 {
                r == Err::<u64, EmissionsError>(EmissionsError::NoRewardsToClaim)
            } else {
                &&& r == Ok::<u64, EmissionsError>(b.accumulated)
                &&& *final(emission_balance) == (EmissionBalance {
                    accumulated: 0,
                    claimed: (b.claimed + b.accumulated) as u64,
                    ..b
                })
            }
        }),
        r is Err ==> *final(emission_balance) == *old(emission_balance),
{
    if emission_balance.subnet_id != subnet_id {
        return Err(EmissionsError::InvalidSubnet);
    }
    if emission_balance.accumulated == 0 {
        return Err(EmissionsError::NoRewardsToClaim);
    }
    let amount = emission_balance.accumulated;
    emission_balance.accumulated = 0;
    emission_balance.claimed = emission_balance.claimed + amount;
    Ok(amount)
}

/// Accepts cross-subnet allocations only from the hive program itself.
pub fn cross_subnet_allocation(
    hive: &[u8; 32],
    authority: &[u8; 32],
    allocations: &Vec<SubnetAllocation>,
) -> (r: Result<(), EmissionsError>)
    ensures
        r is Ok <==> hive@ == authority@,
        r is Err ==> r == Err::<(), EmissionsError>(EmissionsError::Unauthorized),
{
    if !same_key(hive, authority) {
        return Err(EmissionsError::Unauthorized);
    }
    Ok(())
}

} // verus!
