use vstd::prelude::*;
use crate::types::{ConsensusError, WeightEntry, WeightSubmission};
use crate::aggregate::{
    consensus_entries, miner_entry, miner_samples, miners_in_order, samples, stake_of,
    submission_samples,
};
use crate::epoch::{finalize_post, finalized_miners, submit_post, ConsensusState};
use crate::trust::{
    alignment_spec, average, consensus_of, first_report, miner_alignment_sum, miner_report_count,
    miner_trust_spec, validator_alignment_sum, validator_rated_count, validator_trust_spec,
    FULL_ALIGNMENT,
};
use crate::types::ConsensusEntry;
use crate::aggregate::consensus_weight_spec;
use crate::median::{
    is_weighted_median, lemma_all_at_or_below, lemma_weighted_median_unique,
    weighted_median_spec,
};
use crate::clip::{kept_count, kept_sum, lemma_spread_nonnegative, sum_weights, within_two_sigma};

verus! {

/// Alignment is bounded by `0..=10000`, symmetric, and perfect for equal
/// weights.
pub proof fn lemma_alignment_bounds(w: u64, c: u64)
    ensures
        0 <= alignment_spec(w, c) <= FULL_ALIGNMENT,
        alignment_spec(w, c) == alignment_spec(c, w),
        alignment_spec(w, w) == FULL_ALIGNMENT,
{
}

/// Finalizing an epoch a second time fails with `EpochFinalized` and leaves
/// the published entries (and the whole record) as the first call left them.
pub proof fn lemma_finalize_only_once(
    s0: ConsensusState,
    s1: ConsensusState,
    s2: ConsensusState,
    subnet_id: u16,
    epoch: u64,
    stakes1: Seq<(u16, u64)>,
    stakes2: Seq<(u16, u64)>,
    t1: i64,
    t2: i64,
    r2: Result<(), ConsensusError>,
)
    requires
        s0.wf(),
        finalize_post(s0, s1, subnet_id, epoch, stakes1, t1, Ok(())),
        finalize_post(s1, s2, subnet_id, epoch, stakes2, t2, r2),
    ensures
        r2 == Err::<(), ConsensusError>(ConsensusError::EpochFinalized),
        s2 == s1,
        s2.miner_consensus@ == s1.miner_consensus@,
        s2.validator_consensus@ == s1.validator_consensus@,
{
}

/// Once an epoch is finalized, a submission to it fails with
/// `EpochFinalized` and changes nothing, the miner entries included.
pub proof fn lemma_no_submission_after_finalize(
    s0: ConsensusState,
    s1: ConsensusState,
    s2: ConsensusState,
    subnet_id: u16,
    epoch: u64,
    stakes: Seq<(u16, u64)>,
    t1: i64,
    validator_uid: u16,
    weights: Vec<WeightEntry>,
    t2: i64,
    r2: Result<(), ConsensusError>,
)
    requires
        s0.wf(),
        finalize_post(s0, s1, subnet_id, epoch, stakes, t1, Ok(())),
        submit_post(s1, s2, subnet_id, epoch, validator_uid, weights, t2, r2),
    ensures
        r2 == Err::<(), ConsensusError>(ConsensusError::EpochFinalized),
        s2 == s1,
        s2.miner_consensus@ == s1.miner_consensus@,
{
}

/// An open epoch without submissions finalizes successfully, with no miner
/// and no validator entries.
pub proof fn lemma_empty_epoch_finalizes(
    s0: ConsensusState,
    s1: ConsensusState,
    stakes: Seq<(u16, u64)>,
    t: i64,
    r: Result<(), ConsensusError>,
)
    requires
        s0.wf(),
        !s0.finalized,
        s0.submissions@.len() == 0,
        finalize_post(s0, s1, s0.subnet_id, s0.epoch, stakes, t, r),
    ensures
        r == Ok::<(), ConsensusError>(()),
        s1.finalized,
        s1.miner_consensus@.len() == 0,
        s1.validator_consensus@.len() == 0,
{
    assert(samples(s0.submissions@, stakes) =~= Seq::<(u16, u64, u64)>::empty());
}

proof fn lemma_miners_are_mentioned(obs: Seq<(u16, u64, u64)>, m: u16)
    requires
        miners_in_order(obs).contains(m),
    ensures
        exists|i: int| 0 <= i < obs.len() && (#[trigger] obs[i]).0 == m,
    decreases obs.len(),
{
    let p = obs.drop_last();
    if miners_in_order(p).contains(m) {
        lemma_miners_are_mentioned(p, m);
        let i = choose|i: int| 0 <= i < p.len() && (#[trigger] p[i]).0 == m;
        assert(obs[i] == p[i]);
    } else {
        let last = obs.len() - 1;
        assert(miners_in_order(obs) == miners_in_order(p).push(obs.last().0));
        assert(obs[last].0 == m);
    }
}

proof fn lemma_samples_are_rated(subs: Seq<WeightSubmission>, table: Seq<(u16, u64)>, i: int)
    requires
        0 <= i < samples(subs, table).len(),
    ensures
        exists|a: int, b: int|
            0 <= a < subs.len() && 0 <= b < subs[a].weights@.len() && (#[trigger] subs[a].weights@[
            b]).miner_uid == samples(subs, table)[i].0,
    decreases subs.len(),
{
    let p = subs.drop_last();
    let head = samples(p, table);
    let a = subs.len() - 1;
    assert(subs.last() == subs[a]);
    if i < head.len() {
        lemma_samples_are_rated(p, table, i);
        let (x, y) = choose|x: int, y: int|
            0 <= x < p.len() && 0 <= y < p[x].weights@.len() && (#[trigger] p[x].weights@[y]).miner_uid
                == samples(p, table)[i].0;
        assert(p[x] == subs[x]);
        assert(subs[x].weights@[y].miner_uid == samples(subs, table)[i].0);
    } else {
        let b = i - head.len();
        assert(subs[a].weights@[b].miner_uid == samples(subs, table)[i].0);
    }
}

/// A miner that no submission rates gets no consensus entry, neither before
/// nor after trust is merged in.
pub proof fn lemma_unrated_miner_absent(
    subs: Seq<WeightSubmission>,
    table: Seq<(u16, u64)>,
    m: u16,
)
    requires
        forall|a: int, b: int|
            0 <= a < subs.len() && 0 <= b < subs[a].weights@.len() ==> (#[trigger] subs[a].weights@[
            b]).miner_uid != m,
    ensures
        forall|k: int|
            0 <= k < consensus_entries(subs, table).len() ==> (#[trigger] consensus_entries(
                subs,
                table,
            )[k]).uid != m,
        forall|k: int|
            0 <= k < finalized_miners(subs, table).len() ==> (#[trigger] finalized_miners(
                subs,
                table,
            )[k]).uid != m,
{
    let obs = samples(subs, table);
    let ms = miners_in_order(obs);
    if ms.contains(m) {
        lemma_miners_are_mentioned(obs, m);
        let i = choose|i: int| 0 <= i < obs.len() && (#[trigger] obs[i]).0 == m;
        lemma_samples_are_rated(subs, table, i);
    }
    assert forall|k: int| 0 <= k < consensus_entries(subs, table).len() implies (
    #[trigger] consensus_entries(subs, table)[k]).uid != m by {
        assert(consensus_entries(subs, table)[k].uid == ms[k]);
    }
}

pub(crate) proof fn lemma_samples_append(a: Seq<WeightSubmission>, b: Seq<WeightSubmission>, table: Seq<(u16, u64)>)
    ensures
        samples(a + b, table) == samples(a, table) + samples(b, table),
    decreases b.len(),
{
    if b.len() == 0 {
        assert(a + b =~= a);
        assert(samples(a, table) + samples(b, table) =~= samples(a, table));
    } else {
        let b0 = b.drop_last();
        lemma_samples_append(a, b0, table);
        assert((a + b).drop_last() =~= a + b0);
        assert((a + b).last() == b.last());
        let tail = submission_samples(b.last(), stake_of(table, b.last().validator_uid));
        assert(samples(a, table) + samples(b0, table) + tail =~= samples(a, table) + (samples(
            b0,
            table,
        ) + tail));
    }
}

pub(crate) proof fn lemma_miner_samples_append(x: Seq<(u16, u64, u64)>, y: Seq<(u16, u64, u64)>, m: u16)
    ensures
        miner_samples(x + y, m) == miner_samples(x, m) + miner_samples(y, m),
    decreases y.len(),
{
    if y.len() == 0 {
        assert(x + y =~= x);
        assert(miner_samples(x, m) + miner_samples(y, m) =~= miner_samples(x, m));
    } else {
        let y0 = y.drop_last();
        lemma_miner_samples_append(x, y0, m);
        assert((x + y).drop_last() =~= x + y0);
        assert((x + y).last() == y.last());
        if y.last().0 == m {
            let s = (y.last().1, y.last().2);
            assert((miner_samples(x, m) + miner_samples(y0, m)).push(s) =~= miner_samples(x, m) + (
            miner_samples(y0, m).push(s)));
        }
    }
}

proof fn lemma_unrated_samples(entries: Seq<WeightEntry>, stake: u64, m: u16)
    requires
        forall|b: int| 0 <= b < entries.len() ==> (#[trigger] entries[b]).miner_uid != m,
    ensures
        miner_samples(entries.map_values(|e: WeightEntry| (e.miner_uid, e.weight, stake)), m)
            =~= Seq::<(u64, u64)>::empty(),
    decreases entries.len(),
{
    if entries.len() > 0 {
        let p = entries.drop_last();
        assert forall|b: int| 0 <= b < p.len() implies (#[trigger] p[b]).miner_uid != m by {
            assert(p[b] == entries[b]);
        }
        lemma_unrated_samples(p, stake, m);
        let f = |e: WeightEntry| (e.miner_uid, e.weight, stake);
        assert(entries.map_values(f).drop_last() =~= p.map_values(f));
        assert(entries.last() == entries[entries.len() - 1]);
    }
}

/// Inserting, anywhere in the list, a submission that does not rate miner `m`
/// leaves `m`'s samples, and so its consensus entry, exactly as they were:
/// a miner's consensus depends on the reports about it alone.
pub proof fn lemma_unrelated_submission_ignored(
    subs: Seq<WeightSubmission>,
    k: int,
    s: WeightSubmission,
    table: Seq<(u16, u64)>,
    m: u16,
)
    requires
        0 <= k <= subs.len(),
        forall|b: int| 0 <= b < s.weights@.len() ==> (#[trigger] s.weights@[b]).miner_uid != m,
    ensures
        miner_samples(samples(subs.insert(k, s), table), m) == miner_samples(samples(subs, table), m),
        miner_entry(samples(subs.insert(k, s), table), m) == miner_entry(samples(subs, table), m),
{
    let front = subs.take(k);
    let back = subs.skip(k);
    let one = seq![s];
    assert(subs.insert(k, s) =~= front + one + back);
    assert(subs =~= front + back);
    lemma_samples_append(front + one, back, table);
    lemma_samples_append(front, one, table);
    lemma_samples_append(front, back, table);
    assert(one.drop_last() =~= Seq::<WeightSubmission>::empty());
    assert(one.last() == s);
    let so = submission_samples(s, stake_of(table, s.validator_uid));
    assert(samples(one.drop_last(), table) =~= Seq::<(u16, u64, u64)>::empty());
    assert(samples(one, table) == samples(one.drop_last(), table) + so);
    assert(samples(one, table) =~= so);
    lemma_unrated_samples(s.weights@, stake_of(table, s.validator_uid), m);
    let sf = samples(front, table);
    let sb = samples(back, table);
    lemma_miner_samples_append(sf + so, sb, m);
    lemma_miner_samples_append(sf, so, m);
    lemma_miner_samples_append(sf, sb, m);
    assert(miner_samples(sf, m) + miner_samples(so, m) =~= miner_samples(sf, m));
}

proof fn lemma_uniform_sum(qs: Seq<(u64, u64)>, w: u64)
    requires
        forall|i: int| 0 <= i < qs.len() ==> (#[trigger] qs[i]).0 == w,
    ensures
        sum_weights(qs) == qs.len() * w,
    decreases qs.len(),
{
    if qs.len() > 0 {
        let p = qs.drop_last();
        assert forall|i: int| 0 <= i < p.len() implies (#[trigger] p[i]).0 == w by {
            assert(p[i] == qs[i]);
        }
        lemma_uniform_sum(p, w);
        assert(qs.last() == qs[qs.len() - 1]);
        assert(p.len() * w + w == qs.len() * w) by (nonlinear_arith)
            requires
                p.len() + 1 == qs.len(),
        ;
    }
}

proof fn lemma_uniform_kept(ps: Seq<(u64, u64)>, qs: Seq<(u64, u64)>, w: u64)
    requires
        forall|i: int| 0 <= i < qs.len() ==> (#[trigger] qs[i]).0 == w,
        within_two_sigma(ps, w),
    ensures
        kept_sum(qs, ps) == qs.len() * w,
        kept_count(qs, ps) == qs.len(),
    decreases qs.len(),
{
    if qs.len() > 0 {
        let p = qs.drop_last();
        assert forall|i: int| 0 <= i < p.len() implies (#[trigger] p[i]).0 == w by {
            assert(p[i] == qs[i]);
        }
        lemma_uniform_kept(ps, p, w);
        assert(qs.last() == qs[qs.len() - 1]);
        assert(p.len() * w + w == qs.len() * w) by (nonlinear_arith)
            requires
                p.len() + 1 == qs.len(),
        ;
    }
}

/// When every report about a miner carries the same weight `w`, whatever the
/// stakes, its consensus weight is `w`.
pub proof fn lemma_unanimous_consensus(ps: Seq<(u64, u64)>, w: u64)
    requires
        ps.len() > 0,
        forall|i: int| 0 <= i < ps.len() ==> (#[trigger] ps[i]).0 == w,
    ensures
        weighted_median_spec(ps) == w,
        consensus_weight_spec(ps) == w,
{
    lemma_all_at_or_below(ps, w);
    assert(ps[0].0 == w);
    assert(is_weighted_median(ps, w));
    lemma_weighted_median_unique(ps, w);
    lemma_spread_nonnegative(ps);
    lemma_uniform_sum(ps, w);
    let n = ps.len() as int;
    assert(n * w - sum_weights(ps) == 0);
    assert(within_two_sigma(ps, w));
    lemma_uniform_kept(ps, ps, w);
    assert((n * w) / n == w) by (nonlinear_arith)
        requires
            n > 0,
    ;
}

proof fn lemma_full_average(count: nat)
    requires
        count > 0,
    ensures
        average((count * FULL_ALIGNMENT) as nat, count) == FULL_ALIGNMENT,
{
    assert(((count * FULL_ALIGNMENT) as int) / (count as int) == FULL_ALIGNMENT) by (nonlinear_arith)
        requires
            count > 0,
    ;
}

proof fn lemma_agreeing_miner_sum(subs: Seq<WeightSubmission>, m: u16, c: u64)
    requires
        forall|i: int|
            0 <= i < subs.len() ==> (#[trigger] first_report(subs[i].weights@, m) matches Some(w)
                ==> w == c),
    ensures
        miner_alignment_sum(subs, m, c) == miner_report_count(subs, m) * FULL_ALIGNMENT,
    decreases subs.len(),
{
    if subs.len() > 0 {
        let p = subs.drop_last();
        assert forall|i: int| 0 <= i < p.len() implies (#[trigger] first_report(
            p[i].weights@,
            m,
        ) matches Some(w) ==> w == c) by {
            assert(p[i] == subs[i]);
        }
        lemma_agreeing_miner_sum(p, m, c);
        assert(subs.last() == subs[subs.len() - 1]);
    }
}

/// When every submission that rates miner `m` first reports exactly its
/// consensus weight `c`, the miner's trust is full (10000).
pub proof fn lemma_agreement_gives_full_miner_trust(subs: Seq<WeightSubmission>, m: u16, c: u64)
    requires
        forall|i: int|
            0 <= i < subs.len() ==> (#[trigger] first_report(subs[i].weights@, m) matches Some(w)
                ==> w == c),
        miner_report_count(subs, m) > 0,
    ensures
        miner_trust_spec(subs, m, c) == FULL_ALIGNMENT,
{
    lemma_agreeing_miner_sum(subs, m, c);
    lemma_full_average(miner_report_count(subs, m));
}

proof fn lemma_agreeing_validator_sum(entries: Seq<WeightEntry>, cs: Seq<ConsensusEntry>)
    requires
        forall|j: int|
            0 <= j < entries.len() ==> (#[trigger] consensus_of(cs, entries[j].miner_uid) matches Some(
                c,
            ) ==> entries[j].weight == c),
    ensures
        validator_alignment_sum(entries, cs) == validator_rated_count(entries, cs) * FULL_ALIGNMENT,
    decreases entries.len(),
{
    if entries.len() > 0 {
        let p = entries.drop_last();
        assert forall|j: int| 0 <= j < p.len() implies (#[trigger] consensus_of(
            cs,
            p[j].miner_uid,
        ) matches Some(c) ==> p[j].weight == c) by {
            assert(p[j] == entries[j]);
        }
        lemma_agreeing_validator_sum(p, cs);
        assert(entries.last() == entries[entries.len() - 1]);
    }
}

/// When every entry of a submission about a miner with consensus reports
/// exactly that consensus weight, and there is at least one such entry, the
/// validator's trust is full (10000).
pub proof fn lemma_agreement_gives_full_validator_trust(
    entries: Seq<WeightEntry>,
    cs: Seq<ConsensusEntry>,
)
    requires
        forall|j: int|
            0 <= j < entries.len() ==> (#[trigger] consensus_of(cs, entries[j].miner_uid) matches Some(
                c,
            ) ==> entries[j].weight == c),
        validator_rated_count(entries, cs) > 0,
    ensures
        validator_trust_spec(entries, cs) == FULL_ALIGNMENT,
{
    lemma_agreeing_validator_sum(entries, cs);
    lemma_full_average(validator_rated_count(entries, cs));
}

} // verus!
