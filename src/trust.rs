use vstd::prelude::*;
use crate::types::{ConsensusEntry, WeightEntry, WeightSubmission};

verus! {

/// The score of a perfect match between a report and the consensus.
pub const FULL_ALIGNMENT: u64 = 10000;

/// Distance between two weights.
pub open spec fn abs_diff(a: u64, b: u64) -> nat {
    if a >= b {
        (a - b) as nat
    } else {
        (b - a) as nat
    }
}

/// `10000 - min(|w - c|, 10000)`.
pub open spec fn alignment_spec(w: u64, c: u64) -> nat {
    if abs_diff(w, c) >= FULL_ALIGNMENT {
        0
    } else {
        (FULL_ALIGNMENT - abs_diff(w, c)) as nat
    }
}

/// Saturating closeness of a reported weight `w` to a consensus weight `c`.
pub fn alignment(w: u64, c: u64) -> (r: u64)
    ensures
        r == alignment_spec(w, c),
        r <= FULL_ALIGNMENT,
{
    let diff = if w > c { w - c } else { c - w };
    if diff >= FULL_ALIGNMENT {
        0
    } else {
        FULL_ALIGNMENT - diff
    }
}

/// Weight of the first entry about miner `m`, if any; later duplicates are
/// ignored.
pub open spec fn first_report(entries: Seq<WeightEntry>, m: u16) -> Option<u64>
    decreases entries.len(),
{
    if entries.len() == 0 {
        None
    } else {
        match first_report(entries.drop_last(), m) {
            Some(w) => Some(w),
            None => if entries.last().miner_uid == m {
                Some(entries.last().weight)
            } else {
                None
            },
        }
    }
}

/// Consensus weight of miner `m` in the first entry for it, if any.
pub open spec fn consensus_of(cs: Seq<ConsensusEntry>, m: u16) -> Option<u64>
    decreases cs.len(),
{
    if cs.len() == 0 {
        None
    } else {
        match consensus_of(cs.drop_last(), m) {
            Some(c) => Some(c),
            None => if cs.last().uid == m {
                Some(cs.last().consensus_weight)
            } else {
                None
            },
        }
    }
}

/// Integer mean, 0 when there is nothing to average.
pub open spec fn average(sum: nat, count: nat) -> nat {
    if count == 0 {
        0
    } else {
        sum / count
    }
}

/// Sum, over the submissions that rate miner `m`, of the alignment of their
/// first report on `m` with the consensus weight `c`.
pub open spec fn miner_alignment_sum(subs: Seq<WeightSubmission>, m: u16, c: u64) -> nat
    decreases subs.len(),
{
    if subs.len() == 0 {
        0
    } else {
        miner_alignment_sum(subs.drop_last(), m, c) + match first_report(subs.last().weights@, m) {
            Some(w) => alignment_spec(w, c),
            None => 0,
        }
    }
}

/// Number of submissions that rate miner `m`.
pub open spec fn miner_report_count(subs: Seq<WeightSubmission>, m: u16) -> nat
    decreases subs.len(),
{
    if subs.len() == 0 {
        0
    } else {
        miner_report_count(subs.drop_last(), m) + if first_report(subs.last().weights@, m) is Some {
            1nat
        } else {
            0
        }
    }
}

/// Trust of miner `m` with consensus weight `c`: the mean alignment of the
/// submissions that rate it, 0 when none does.
pub open spec fn miner_trust_spec(subs: Seq<WeightSubmission>, m: u16, c: u64) -> u64 {
    average(miner_alignment_sum(subs, m, c), miner_report_count(subs, m)) as u64
}

/// Sum of the alignments of a submission's entries with the consensus weight
/// of their miner, over the entries whose miner has one.
pub open spec fn validator_alignment_sum(entries: Seq<WeightEntry>, cs: Seq<ConsensusEntry>) -> nat
    decreases entries.len(),
{
    if entries.len() == 0 {
        0
    } else {
        validator_alignment_sum(entries.drop_last(), cs) + match consensus_of(
            cs,
            entries.last().miner_uid,
        ) {
            Some(c) => alignment_spec(entries.last().weight, c),
            None => 0,
        }
    }
}

/// Number of a submission's entries whose miner has a consensus weight.
pub open spec fn validator_rated_count(entries: Seq<WeightEntry>, cs: Seq<ConsensusEntry>) -> nat
    decreases entries.len(),
{
    if entries.len() == 0 {
        0
    } else {
        validator_rated_count(entries.drop_last(), cs) + if consensus_of(
            cs,
            entries.last().miner_uid,
        ) is Some {
            1nat
        } else {
            0
        }
    }
}

/// Trust of a submission: the mean alignment of its entries with consensus,
/// entries about miners without consensus skipped; 0 when none is left.
pub open spec fn validator_trust_spec(entries: Seq<WeightEntry>, cs: Seq<ConsensusEntry>) -> u64 {
    average(validator_alignment_sum(entries, cs), validator_rated_count(entries, cs)) as u64
}

/// `(uid, trust)` for every miner entry, in the same order.
pub open spec fn miner_trust_seq(subs: Seq<WeightSubmission>, cs: Seq<ConsensusEntry>) -> Seq<
    (u16, u64),
> {
    cs.map_values(|e: ConsensusEntry| (e.uid, miner_trust_spec(subs, e.uid, e.consensus_weight)))
}

/// The trust entry of one submission's validator.
pub open spec fn validator_entry(sub: WeightSubmission, cs: Seq<ConsensusEntry>) -> ConsensusEntry {
    ConsensusEntry {
        uid: sub.validator_uid,
        consensus_weight: 0,
        trust_score: validator_trust_spec(sub.weights@, cs),
        emission_share: 0,
    }
}

/// One trust entry per submission, in submission order.
pub open spec fn validator_trust_seq(subs: Seq<WeightSubmission>, cs: Seq<ConsensusEntry>) -> Seq<
    ConsensusEntry,
> {
    subs.map_values(|s: WeightSubmission| validator_entry(s, cs))
}

/// Trust of every miner entry and of every submission's validator.
pub struct TrustScores {
    pub miner_trust: Vec<(u16, u64)>,
    pub validator_trust: Vec<ConsensusEntry>,
}

proof fn lemma_average_bound(sum: nat, count: nat)
    requires
        sum <= count * FULL_ALIGNMENT,
    ensures
        average(sum, count) <= FULL_ALIGNMENT,
{
    if count > 0 {
        assert(sum / count <= FULL_ALIGNMENT) by (nonlinear_arith)
            requires
                sum <= count * FULL_ALIGNMENT,
                count > 0,
        ;
    }
}

/// Mean of `sum` over `count`, 0 for no samples; at most `FULL_ALIGNMENT`
/// when every sample is.
fn mean_alignment(sum: u128, count: u128) -> (r: u64)
    requires
        sum <= count * FULL_ALIGNMENT,
    ensures
        r == average(sum as nat, count as nat),
        r <= FULL_ALIGNMENT,
{
    proof {
        lemma_average_bound(sum as nat, count as nat);
    }
    if count == 0 {
        0
    } else {
        (sum / count) as u64
    }
}

/// First report on miner `m` in a submission's entries.
fn first_report_of(entries: &Vec<WeightEntry>, m: u16) -> (r: Option<u64>)
    ensures
        r == first_report(entries@, m),
{
    let mut found: Option<u64> = None;
    let mut i: usize = 0;
    while i < entries.len()
        invariant
            i <= entries.len(),
            found == first_report(entries@.take(i as int), m),
        decreases entries.len() - i,
    {
        assert(entries@.take(i as int + 1).drop_last() =~= entries@.take(i as int));
        assert(entries@.take(i as int + 1).last() == entries@[i as int]);
        if found.is_none() && entries[i].miner_uid == m {
            found = Some(entries[i].weight);
        }
        i = i + 1;
    }
    assert(entries@.take(i as int) =~= entries@);
    found
}

/// Consensus weight of miner `m`, from its first entry.
fn consensus_lookup(cs: &Vec<ConsensusEntry>, m: u16) -> (r: Option<u64>)
    ensures
        r == consensus_of(cs@, m),
{
    let mut found: Option<u64> = None;
    let mut i: usize = 0;
    while i < cs.len()
        invariant
            i <= cs.len(),
            found == consensus_of(cs@.take(i as int), m),
        decreases cs.len() - i,
    {
        assert(cs@.take(i as int + 1).drop_last() =~= cs@.take(i as int));
        assert(cs@.take(i as int + 1).last() == cs@[i as int]);
        if found.is_none() && cs[i].uid == m {
            found = Some(cs[i].consensus_weight);
        }
        i = i + 1;
    }
    assert(cs@.take(i as int) =~= cs@);
    found
}

/// Trust of miner `m` whose consensus weight is `c`.
fn miner_trust(subs: &Vec<WeightSubmission>, m: u16, c: u64) -> (r: u64)
    ensures
        r == miner_trust_spec(subs@, m, c),
        r <= FULL_ALIGNMENT,
{
    let mut sum: u128 = 0;
    let mut count: u128 = 0;
    let mut i: usize = 0;
    while i < subs.len()
        invariant
            i <= subs.len(),
            sum == miner_alignment_sum(subs@.take(i as int), m, c),
            count == miner_report_count(subs@.take(i as int), m),
            count <= i,
            sum <= count * FULL_ALIGNMENT,
        decreases subs.len() - i,
    {
        assert(subs@.take(i as int + 1).drop_last() =~= subs@.take(i as int));
        assert(subs@.take(i as int + 1).last() == subs@[i as int]);
        match first_report_of(&subs[i].weights, m) {
            Some(w) => {
                sum = sum + alignment(w, c) as u128;
                count = count + 1;
            },
            None => {},
        }
        i = i + 1;
    }
    assert(subs@.take(i as int) =~= subs@);
    mean_alignment(sum, count)
}

/// Trust of the validator behind a submission with these entries.
fn validator_trust(entries: &Vec<WeightEntry>, cs: &Vec<ConsensusEntry>) -> (r: u64)
    ensures
        r == validator_trust_spec(entries@, cs@),
        r <= FULL_ALIGNMENT,
{
    let mut sum: u128 = 0;
    let mut count: u128 = 0;
    let mut i: usize = 0;
    while i < entries.len()
        invariant
            i <= entries.len(),
            sum == validator_alignment_sum(entries@.take(i as int), cs@),
            count == validator_rated_count(entries@.take(i as int), cs@),
            count <= i,
            sum <= count * FULL_ALIGNMENT,
        decreases entries.len() - i,
    {
        assert(entries@.take(i as int + 1).drop_last() =~= entries@.take(i as int));
        assert(entries@.take(i as int + 1).last() == entries@[i as int]);
        match consensus_lookup(cs, entries[i].miner_uid) {
            Some(c) => {
                sum = sum + alignment(entries[i].weight, c) as u128;
                count = count + 1;
            },
            None => {},
        }
        i = i + 1;
    }
    assert(entries@.take(i as int) =~= entries@);
    mean_alignment(sum, count)
}

/// Trust scoring against the miners' consensus weights: for each miner entry
/// the mean alignment of the first report on it in each submission that rates
/// it; for each submission the mean alignment of its entries about miners
/// with consensus. Means are floored, and 0 when nothing is averaged.
pub fn calculate_trust_scores(submissions: &Vec<WeightSubmission>, miner_consensus: &Vec<
    ConsensusEntry,
>) -> (r: TrustScores)
    ensures
        r.miner_trust@ == miner_trust_seq(submissions@, miner_consensus@),
        r.validator_trust@ == validator_trust_seq(submissions@, miner_consensus@),
{
    let ghost want_m = miner_trust_seq(submissions@, miner_consensus@);
    let mut miners: Vec<(u16, u64)> = Vec::new();
    let mut k: usize = 0;
    while k < miner_consensus.len()
        invariant
            k <= miner_consensus.len(),
            want_m == miner_trust_seq(submissions@, miner_consensus@),
            miners@ == want_m.take(k as int),
        decreases miner_consensus.len() - k,
    {
        let e = miner_consensus[k];
        let t = miner_trust(submissions, e.uid, e.consensus_weight);
        miners.push((e.uid, t));
        assert(miners@ =~= want_m.take(k as int + 1));
        k = k + 1;
    }
    assert(want_m.take(k as int) =~= want_m);
    let ghost want_v = validator_trust_seq(submissions@, miner_consensus@);
    let mut validators: Vec<ConsensusEntry> = Vec::new();
    let mut i: usize = 0;
    while i < submissions.len()
        invariant
            i <= submissions.len(),
            want_v == validator_trust_seq(submissions@, miner_consensus@),
            validators@ == want_v.take(i as int),
        decreases submissions.len() - i,
    {
        let sub = &submissions[i];
        let t = validator_trust(&sub.weights, miner_consensus);
        validators.push(
            ConsensusEntry { uid: sub.validator_uid, consensus_weight: 0, trust_score: t, emission_share: 0 },
        );
        assert(validators@ =~= want_v.take(i as int + 1));
        i = i + 1;
    }
    assert(want_v.take(i as int) =~= want_v);
    TrustScores { miner_trust: miners, validator_trust: validators }
}

} // verus!
