use vstd::prelude::*;
use vstd::seq_lib::{group_to_multiset_ensures, lemma_multiset_commutative, to_multiset_len};
use crate::types::WeightSubmission;
use crate::median::{
    is_weighted_median, lemma_all_at_or_below, lemma_weighted_median_unique, reaches_half,
    stake_at_or_below, total_stake, weighted_median_spec,
};
use crate::clip::{
    clip_outliers_spec, kept_count, kept_sum, spread, sum_squares, sum_weights, within_two_sigma,
};
use crate::aggregate::{consensus_weight_spec, miner_entry, miner_samples, samples};
use crate::theorems::{lemma_miner_samples_append, lemma_samples_append};

verus! {

broadcast use group_to_multiset_ensures;

/// Sum of `f` over the samples.
pub open spec fn sum_by(ps: Seq<(u64, u64)>, f: spec_fn((u64, u64)) -> int) -> int
    decreases ps.len(),
{
    if ps.len() == 0 {
        0
    } else {
        sum_by(ps.drop_last(), f) + f(ps.last())
    }
}

proof fn lemma_sum_by_remove(ps: Seq<(u64, u64)>, f: spec_fn((u64, u64)) -> int, k: int)
    requires
        0 <= k < ps.len(),
    ensures
        sum_by(ps, f) == sum_by(ps.remove(k), f) + f(ps[k]),
    decreases ps.len(),
{
    if k == ps.len() - 1 {
        assert(ps.remove(k) =~= ps.drop_last());
    } else {
        let p = ps.drop_last();
        lemma_sum_by_remove(p, f, k);
        assert(ps.remove(k).drop_last() =~= p.remove(k));
        assert(ps.remove(k).last() == ps.last());
        assert(p[k] == ps[k]);
    }
}

/// A sum over the samples does not depend on their order.
pub proof fn lemma_sum_by_permutation(
    a: Seq<(u64, u64)>,
    b: Seq<(u64, u64)>,
    f: spec_fn((u64, u64)) -> int,
)
    requires
        a.to_multiset() == b.to_multiset(),
    ensures
        sum_by(a, f) == sum_by(b, f),
    decreases a.len(),
{
    if a.len() == 0 {
        to_multiset_len(a);
        to_multiset_len(b);
        assert(b.len() == 0);
    } else {
        let x = a.last();
        let a0 = a.drop_last();
        assert(a0.push(x) =~= a);
        assert(a.to_multiset().count(x) > 0);
        assert(b.contains(x));
        let k = choose|k: int| 0 <= k < b.len() && b[k] == x;
        assert(b.remove(k).to_multiset() =~= b.to_multiset().remove(x));
        assert(a0.to_multiset() =~= a.to_multiset().remove(x));
        lemma_sum_by_permutation(a0, b.remove(k), f);
        lemma_sum_by_remove(b, f, k);
    }
}

proof fn lemma_total_stake_is_sum(ps: Seq<(u64, u64)>)
    ensures
        total_stake(ps) == sum_by(ps, |p: (u64, u64)| p.1 as int),
    decreases ps.len(),
{
    if ps.len() > 0 {
        lemma_total_stake_is_sum(ps.drop_last());
    }
}

proof fn lemma_stake_below_is_sum(ps: Seq<(u64, u64)>, v: u64)
    ensures
        stake_at_or_below(ps, v) == sum_by(
            ps,
            |p: (u64, u64)|
                if p.0 <= v {
                    p.1 as int
                } else {
                    0
                },
        ),
    decreases ps.len(),
{
    if ps.len() > 0 {
        lemma_stake_below_is_sum(ps.drop_last(), v);
    }
}

proof fn lemma_sum_weights_is_sum(ps: Seq<(u64, u64)>)
    ensures
        sum_weights(ps) == sum_by(ps, |p: (u64, u64)| p.0 as int),
        sum_squares(ps) == sum_by(ps, |p: (u64, u64)| p.0 * p.0),
    decreases ps.len(),
{
    if ps.len() > 0 {
        lemma_sum_weights_is_sum(ps.drop_last());
    }
}

proof fn lemma_kept_is_sum(qs: Seq<(u64, u64)>, ps: Seq<(u64, u64)>)
    ensures
        kept_sum(qs, ps) == sum_by(
            qs,
            |p: (u64, u64)|
                if within_two_sigma(ps, p.0) {
                    p.0 as int
                } else {
                    0
                },
        ),
        kept_count(qs, ps) == sum_by(
            qs,
            |p: (u64, u64)|
                if within_two_sigma(ps, p.0) {
                    1int
                } else {
                    0
                },
        ),
    decreases qs.len(),
{
    if qs.len() > 0 {
        lemma_kept_is_sum(qs.drop_last(), ps);
    }
}

proof fn lemma_kept_same_band(qs: Seq<(u64, u64)>, a: Seq<(u64, u64)>, b: Seq<(u64, u64)>)
    requires
        forall|w: u64| within_two_sigma(a, w) == within_two_sigma(b, w),
    ensures
        kept_sum(qs, a) == kept_sum(qs, b),
        kept_count(qs, a) == kept_count(qs, b),
    decreases qs.len(),
{
    if qs.len() > 0 {
        lemma_kept_same_band(qs.drop_last(), a, b);
        assert(within_two_sigma(a, qs.last().0) == within_two_sigma(b, qs.last().0));
    }
}

proof fn lemma_max_index(ps: Seq<(u64, u64)>) -> (m: int)
    requires
        ps.len() > 0,
    ensures
        0 <= m < ps.len(),
        forall|i: int| 0 <= i < ps.len() ==> #[trigger] ps[i].0 <= ps[m].0,
    decreases ps.len(),
{
    if ps.len() == 1 {
        0
    } else {
        let p = ps.drop_last();
        let m0 = lemma_max_index(p);
        assert forall|i: int| 0 <= i < p.len() implies #[trigger] ps[i].0 <= p[m0].0 by {
            assert(p[i] == ps[i]);
        }
        if ps.last().0 > p[m0].0 {
            ps.len() - 1
        } else {
            m0
        }
    }
}

proof fn lemma_min_reaching(ps: Seq<(u64, u64)>, k: int) -> (r: Option<int>)
    requires
        0 <= k <= ps.len(),
    ensures
        r matches None ==> forall|j: int| 0 <= j < k ==> !reaches_half(ps, #[trigger] ps[j].0),
        r matches Some(j) ==> {
            &&& 0 <= j < k
            &&& reaches_half(ps, ps[j].0)
            &&& forall|i: int| 0 <= i < k && reaches_half(ps, #[trigger] ps[i].0) ==> ps[j].0 <= ps[i].0
        },
    decreases k,
{
    if k == 0 {
        None
    } else {
        let prev = lemma_min_reaching(ps, k - 1);
        let here = reaches_half(ps, ps[k - 1].0);
        match prev {
            None => if here {
                Some(k - 1)
            } else {
                None
            },
            Some(j) => if here && ps[k - 1].0 < ps[j].0 {
                Some(k - 1)
            } else {
                Some(j)
            },
        }
    }
}

/// Non-empty samples have a weighted median.
pub proof fn lemma_weighted_median_exists(ps: Seq<(u64, u64)>)
    requires
        ps.len() > 0,
    ensures
        is_weighted_median(ps, weighted_median_spec(ps)),
{
    let m = lemma_max_index(ps);
    lemma_all_at_or_below(ps, ps[m].0);
    assert(reaches_half(ps, ps[m].0));
    let r = lemma_min_reaching(ps, ps.len() as int);
    let j = r->Some_0;
    assert(is_weighted_median(ps, ps[j].0));
    lemma_weighted_median_unique(ps, ps[j].0);
}

/// The consensus weight of a miner depends only on the multiset of its
/// `(weight, stake)` samples, not on their order.
pub proof fn lemma_consensus_ignores_sample_order(a: Seq<(u64, u64)>, b: Seq<(u64, u64)>)
    requires
        a.to_multiset() == b.to_multiset(),
    ensures
        weighted_median_spec(a) == weighted_median_spec(b),
        consensus_weight_spec(a) == consensus_weight_spec(b),
{
    to_multiset_len(a);
    to_multiset_len(b);
    assert(a.len() == b.len());
    lemma_total_stake_is_sum(a);
    lemma_total_stake_is_sum(b);
    lemma_sum_by_permutation(a, b, |p: (u64, u64)| p.1 as int);
    assert forall|v: u64| reaches_half(a, v) == reaches_half(b, v) by {
        lemma_stake_below_is_sum(a, v);
        lemma_stake_below_is_sum(b, v);
        lemma_sum_by_permutation(
            a,
            b,
            |p: (u64, u64)|
                if p.0 <= v {
                    p.1 as int
                } else {
                    0
                },
        );
    }
    if a.len() > 0 {
        lemma_weighted_median_exists(a);
        let r = weighted_median_spec(a);
        let ja = choose|j: int| 0 <= j < a.len() && #[trigger] a[j].0 == r;
        assert(a.to_multiset().count(a[ja]) > 0);
        assert(b.contains(a[ja]));
        let jb = choose|j: int| 0 <= j < b.len() && b[j] == a[ja];
        assert(b[jb].0 == r);
        assert forall|j: int| 0 <= j < b.len() && reaches_half(b, #[trigger] b[j].0) implies r
            <= b[j].0 by {
            assert(b.to_multiset().count(b[j]) > 0);
            assert(a.contains(b[j]));
            let i = choose|i: int| 0 <= i < a.len() && a[i] == b[j];
            assert(reaches_half(a, a[i].0));
        }
        assert(is_weighted_median(b, r));
        lemma_weighted_median_unique(b, r);
    }
    lemma_sum_weights_is_sum(a);
    lemma_sum_weights_is_sum(b);
    lemma_sum_by_permutation(a, b, |p: (u64, u64)| p.0 as int);
    lemma_sum_by_permutation(a, b, |p: (u64, u64)| p.0 * p.0);
    assert(spread(a) == spread(b));
    assert forall|w: u64| within_two_sigma(a, w) == within_two_sigma(b, w) by {}
    lemma_kept_same_band(a, a, b);
    lemma_kept_is_sum(a, b);
    lemma_kept_is_sum(b, b);
    lemma_sum_by_permutation(
        a,
        b,
        |p: (u64, u64)|
            if within_two_sigma(b, p.0) {
                p.0 as int
            } else {
                0
            },
    );
    lemma_sum_by_permutation(
        a,
        b,
        |p: (u64, u64)|
            if within_two_sigma(b, p.0) {
                1int
            } else {
                0
            },
    );
    assert(clip_outliers_spec(weighted_median_spec(a), a) == clip_outliers_spec(
        weighted_median_spec(b),
        b,
    ));
}

/// Swapping two neighbouring submissions changes no miner's consensus entry:
/// the entry depends on the miner's samples as a multiset.
pub proof fn lemma_submission_swap_ignored(
    subs: Seq<WeightSubmission>,
    k: int,
    table: Seq<(u16, u64)>,
    m: u16,
)
    requires
        0 <= k,
        k + 1 < subs.len(),
    ensures
        miner_entry(samples(subs.update(k, subs[k + 1]).update(k + 1, subs[k]), table), m)
            == miner_entry(samples(subs, table), m),
{
    let swapped = subs.update(k, subs[k + 1]).update(k + 1, subs[k]);
    let pre = subs.take(k);
    let one = seq![subs[k]];
    let two = seq![subs[k + 1]];
    let post = subs.skip(k + 2);
    assert(subs =~= pre + one + two + post);
    assert(swapped =~= pre + two + one + post);
    lemma_samples_append(pre + one + two, post, table);
    lemma_samples_append(pre + one, two, table);
    lemma_samples_append(pre, one, table);
    lemma_samples_append(pre + two + one, post, table);
    lemma_samples_append(pre + two, one, table);
    lemma_samples_append(pre, two, table);
    let (sp, s1, s2, sq) = (
        samples(pre, table),
        samples(one, table),
        samples(two, table),
        samples(post, table),
    );
    lemma_miner_samples_append(sp + s1 + s2, sq, m);
    lemma_miner_samples_append(sp + s1, s2, m);
    lemma_miner_samples_append(sp, s1, m);
    lemma_miner_samples_append(sp + s2 + s1, sq, m);
    lemma_miner_samples_append(sp + s2, s1, m);
    lemma_miner_samples_append(sp, s2, m);
    let (mp, m1, m2, mq) = (
        miner_samples(sp, m),
        miner_samples(s1, m),
        miner_samples(s2, m),
        miner_samples(sq, m),
    );
    let x = mp + m1 + m2 + mq;
    let y = mp + m2 + m1 + mq;
    assert(miner_samples(samples(subs, table), m) == x);
    assert(miner_samples(samples(swapped, table), m) == y);
    lemma_multiset_commutative(mp + m1 + m2, mq);
    lemma_multiset_commutative(mp + m1, m2);
    lemma_multiset_commutative(mp, m1);
    lemma_multiset_commutative(mp + m2 + m1, mq);
    lemma_multiset_commutative(mp + m2, m1);
    lemma_multiset_commutative(mp, m2);
    assert(x.to_multiset() =~= y.to_multiset());
    lemma_consensus_ignores_sample_order(y, x);
}

} // verus!
