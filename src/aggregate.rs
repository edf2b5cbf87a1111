use vstd::prelude::*;
use crate::types::{ConsensusEntry, WeightEntry, WeightSubmission};
use crate::median::{weighted_median, weighted_median_spec};
use crate::clip::{clip_outliers, clip_outliers_spec};

verus! {

/// Stake weight of validator `uid` in a table of `(validator_uid, stake)`
/// rows: the first row for `uid`, or 0 when the table has none.
pub open spec fn stake_of(table: Seq<(u16, u64)>, uid: u16) -> u64
    decreases table.len(),
{
    if table.len() == 0 {
        0
    } else if table[0].0 == uid {
        table[0].1
    } else {
        stake_of(table.skip(1), uid)
    }
}

/// The `(miner_uid, weight, stake)` samples of one submission whose
/// validator has stake `stake`.
pub open spec fn submission_samples(sub: WeightSubmission, stake: u64) -> Seq<(u16, u64, u64)> {
    sub.weights@.map_values(|e: WeightEntry| (e.miner_uid, e.weight, stake))
}

/// All samples of all submissions, in submission order, each stake looked up
/// in `table` by the submission's validator.
pub open spec fn samples(subs: Seq<WeightSubmission>, table: Seq<(u16, u64)>) -> Seq<
    (u16, u64, u64),
>
    decreases subs.len(),
{
    if subs.len() == 0 {
        Seq::empty()
    } else {
        samples(subs.drop_last(), table) + submission_samples(
            subs.last(),
            stake_of(table, subs.last().validator_uid),
        )
    }
}

/// The `(weight, stake)` samples about miner `m`, in order.
pub open spec fn miner_samples(obs: Seq<(u16, u64, u64)>, m: u16) -> Seq<(u64, u64)>
    decreases obs.len(),
{
    if obs.len() == 0 {
        Seq::empty()
    } else if obs.last().0 == m {
        miner_samples(obs.drop_last(), m).push((obs.last().1, obs.last().2))
    } else {
        miner_samples(obs.drop_last(), m)
    }
}

/// The miners that the samples mention, each once, in order of first mention.
pub open spec fn miners_in_order(obs: Seq<(u16, u64, u64)>) -> Seq<u16>
    decreases obs.len(),
{
    if obs.len() == 0 {
        Seq::empty()
    } else if miners_in_order(obs.drop_last()).contains(obs.last().0) {
        miners_in_order(obs.drop_last())
    } else {
        miners_in_order(obs.drop_last()).push(obs.last().0)
    }
}

/// The consensus weight of one miner's samples: the clipped mean, falling
/// back to the stake-weighted median.
pub open spec fn consensus_weight_spec(ps: Seq<(u64, u64)>) -> u64 {
    clip_outliers_spec(weighted_median_spec(ps), ps)
}

/// The consensus entry of miner `m`, trust and emission not yet computed.
pub open spec fn miner_entry(obs: Seq<(u16, u64, u64)>, m: u16) -> ConsensusEntry {
    ConsensusEntry {
        uid: m,
        consensus_weight: consensus_weight_spec(miner_samples(obs, m)),
        trust_score: 0,
        emission_share: 0,
    }
}

/// One entry per miner that any submission rates, in order of first mention.
pub open spec fn consensus_entries(subs: Seq<WeightSubmission>, table: Seq<(u16, u64)>) -> Seq<
    ConsensusEntry,
> {
    let obs = samples(subs, table);
    miners_in_order(obs).map_values(|m: u16| miner_entry(obs, m))
}

/// Stake weight of a validator, looked up in a table of
/// `(validator_uid, stake)` rows; a validator without a row has no stake.
pub fn get_validator_stake_weight(validator_uid: u16, stakes: &Vec<(u16, u64)>) -> (r: u64)
    ensures
        r == stake_of(stakes@, validator_uid),
{
    let mut i: usize = 0;
    assert(stakes@.skip(0) =~= stakes@);
    while i < stakes.len()
        invariant
            i <= stakes.len(),
            stake_of(stakes@, validator_uid) == stake_of(stakes@.skip(i as int), validator_uid),
        decreases stakes.len() - i,
    {
        assert(stakes@.skip(i as int)[0] == stakes@[i as int]);
        assert(stakes@.skip(i as int).skip(1) =~= stakes@.skip(i as int + 1));
        if stakes[i].0 == validator_uid {
            return stakes[i].1;
        }
        i = i + 1;
    }
    0
}

/// Flattens the submissions into `(miner_uid, weight, stake)` samples.
fn collect_samples(subs: &Vec<WeightSubmission>, stakes: &Vec<(u16, u64)>) -> (r: Vec<
    (u16, u64, u64),
>)
    ensures
        r@ == samples(subs@, stakes@),
{
    let mut out: Vec<(u16, u64, u64)> = Vec::new();
    let mut i: usize = 0;
    while i < subs.len()
        invariant
            i <= subs.len(),
            out@ == samples(subs@.take(i as int), stakes@),
        decreases subs.len() - i,
    {
        let sub = &subs[i];
        let stake = get_validator_stake_weight(sub.validator_uid, stakes);
        let ghost part = submission_samples(subs@[i as int], stake);
        let mut j: usize = 0;
        while j < sub.weights.len()
            invariant
                i < subs.len(),
                sub == subs@[i as int],
                part == submission_samples(subs@[i as int], stake),
                j <= sub.weights.len(),
                out@ == samples(subs@.take(i as int), stakes@) + part.take(j as int),
            decreases sub.weights.len() - j,
        {
            let e = sub.weights[j];
            out.push((e.miner_uid, e.weight, stake));
            assert(part.take(j as int + 1) =~= part.take(j as int).push(part[j as int]));
            j = j + 1;
        }
        assert(part.take(j as int) =~= part);
        assert(subs@.take(i as int + 1).drop_last() =~= subs@.take(i as int));
        assert(subs@.take(i as int + 1).last() == subs@[i as int]);
        i = i + 1;
    }
    assert(subs@.take(i as int) =~= subs@);
    out
}

fn contains_uid(v: &Vec<u16>, x: u16) -> (r: bool)
    ensures
        r == v@.contains(x),
{
    let mut i: usize = 0;
    while i < v.len()
        invariant
            i <= v.len(),
            forall|k: int| 0 <= k < i ==> v@[k] != x,
        decreases v.len() - i,
    {
        if v[i] == x {
            return true;
        }
        i = i + 1;
    }
    false
}

/// The miners that the samples mention, in order of first mention.
fn distinct_miners(obs: &Vec<(u16, u64, u64)>) -> (r: Vec<u16>)
    ensures
        r@ == miners_in_order(obs@),
{
    let mut out: Vec<u16> = Vec::new();
    let mut i: usize = 0;
    while i < obs.len()
        invariant
            i <= obs.len(),
            out@ == miners_in_order(obs@.take(i as int)),
        decreases obs.len() - i,
    {
        assert(obs@.take(i as int + 1).drop_last() =~= obs@.take(i as int));
        assert(obs@.take(i as int + 1).last() == obs@[i as int]);
        let m = obs[i].0;
        if !contains_uid(&out, m) {
            out.push(m);
        }
        i = i + 1;
    }
    assert(obs@.take(i as int) =~= obs@);
    out
}

/// The `(weight, stake)` samples about miner `m`, in order.
fn samples_of_miner(obs: &Vec<(u16, u64, u64)>, m: u16) -> (r: Vec<(u64, u64)>)
    ensures
        r@ == miner_samples(obs@, m),
{
    let mut out: Vec<(u64, u64)> = Vec::new();
    let mut i: usize = 0;
    while i < obs.len()
        invariant
            i <= obs.len(),
            out@ == miner_samples(obs@.take(i as int), m),
        decreases obs.len() - i,
    {
        assert(obs@.take(i as int + 1).drop_last() =~= obs@.take(i as int));
        assert(obs@.take(i as int + 1).last() == obs@[i as int]);
        if obs[i].0 == m {
            out.push((obs[i].1, obs[i].2));
        }
        i = i + 1;
    }
    assert(obs@.take(i as int) =~= obs@);
    out
}

/// Aggregation: for every miner that any submission rates, its consensus
/// weight, the stake-weighted median of its reports (stake looked up per
/// validator) refined by two-sigma outlier clipping. One entry per miner, in
/// order of first mention; trust and emission share are left at 0.
pub fn compute_weighted_median(submissions: &Vec<WeightSubmission>, stakes: &Vec<(u16, u64)>) -> (r:
    Vec<ConsensusEntry>)
    ensures
        r@ == consensus_entries(submissions@, stakes@),
{
    let obs = collect_samples(submissions, stakes);
    let miners = distinct_miners(&obs);
    let ghost want = consensus_entries(submissions@, stakes@);
    let mut out: Vec<ConsensusEntry> = Vec::new();
    let mut k: usize = 0;
    while k < miners.len()
        invariant
            k <= miners.len(),
            obs@ == samples(submissions@, stakes@),
            miners@ == miners_in_order(obs@),
            want == consensus_entries(submissions@, stakes@),
            want.len() == miners.len(),
            out@ == want.take(k as int),
        decreases miners.len() - k,
    {
        let m = miners[k];
        let ps = samples_of_miner(&obs, m);
        let median = weighted_median(&ps);
        let weight = clip_outliers(median, &ps);
        out.push(ConsensusEntry { uid: m, consensus_weight: weight, trust_score: 0, emission_share: 0 });
        assert(out@ =~= want.take(k as int + 1));
        k = k + 1;
    }
    assert(want.take(k as int) =~= want);
    out
}

} // verus!
