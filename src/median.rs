use vstd::prelude::*;

verus! {

/// Sum of the stakes of all samples; a sample is `(weight, stake)`.
pub open spec fn total_stake(ps: Seq<(u64, u64)>) -> nat
    decreases ps.len(),
{
    if ps.len() == 0 {
        0
    } else {
        (total_stake(ps.drop_last()) + ps.last().1) as nat
    }
}

/// Sum of the stakes of the samples whose weight is at most `v`.
pub open spec fn stake_at_or_below(ps: Seq<(u64, u64)>, v: u64) -> nat
    decreases ps.len(),
{
    if ps.len() == 0 {
        0
    } else {
        (stake_at_or_below(ps.drop_last(), v) + if ps.last().0 <= v {
            ps.last().1
        } else {
            0
        }) as nat
    }
}

/// Walking the samples in ascending weight order, the running stake has
/// reached half of the total (floor) once every sample of weight `v` is in.
pub open spec fn reaches_half(ps: Seq<(u64, u64)>, v: u64) -> bool {
    stake_at_or_below(ps, v) >= total_stake(ps) / 2
}

/// `r` is the stake-weighted median of non-empty `ps`: the smallest reported
/// weight at which the stake at or below it reaches half of the total stake.
pub open spec fn is_weighted_median(ps: Seq<(u64, u64)>, r: u64) -> bool {
    &&& exists|j: int| 0 <= j < ps.len() && #[trigger] ps[j].0 == r
    &&& reaches_half(ps, r)
    &&& forall|j: int| 0 <= j < ps.len() && reaches_half(ps, #[trigger] ps[j].0) ==> r <= ps[j].0
}

/// The stake-weighted median of `ps`, or 0 when there are no samples.
pub open spec fn weighted_median_spec(ps: Seq<(u64, u64)>) -> u64 {
    if ps.len() == 0 {
        0
    } else {
        choose|r: u64| is_weighted_median(ps, r)
    }
}

proof fn lemma_total_stake_bound(ps: Seq<(u64, u64)>)
    ensures
        total_stake(ps) <= ps.len() * (u64::MAX as int),
        forall|v: u64| stake_at_or_below(ps, v) <= total_stake(ps),
    decreases ps.len(),
{
    if ps.len() > 0 {
        lemma_total_stake_bound(ps.drop_last());
        assert(total_stake(ps.drop_last()) + ps.last().1 <= ps.len() * (u64::MAX as int))
            by (nonlinear_arith)
            requires
                total_stake(ps.drop_last()) <= (ps.len() - 1) * (u64::MAX as int),
                ps.last().1 <= u64::MAX,
        ;
        assert forall|v: u64| stake_at_or_below(ps, v) <= total_stake(ps) by {
            assert(stake_at_or_below(ps.drop_last(), v) <= total_stake(ps.drop_last()));
        }
    }
}

pub(crate) proof fn lemma_all_at_or_below(ps: Seq<(u64, u64)>, v: u64)
    requires
        forall|i: int| 0 <= i < ps.len() ==> #[trigger] ps[i].0 <= v,
    ensures
        stake_at_or_below(ps, v) == total_stake(ps),
    decreases ps.len(),
{
    if ps.len() > 0 {
        let p = ps.drop_last();
        assert forall|i: int| 0 <= i < p.len() implies #[trigger] p[i].0 <= v by {
            assert(p[i] == ps[i]);
        }
        lemma_all_at_or_below(p, v);
    }
}

pub(crate) proof fn lemma_weighted_median_unique(ps: Seq<(u64, u64)>, r: u64)
    requires
        ps.len() > 0,
        is_weighted_median(ps, r),
    ensures
        weighted_median_spec(ps) == r,
{
    let c = weighted_median_spec(ps);
    assert(is_weighted_median(ps, c));
    let jr = choose|j: int| 0 <= j < ps.len() && #[trigger] ps[j].0 == r;
    let jc = choose|j: int| 0 <= j < ps.len() && #[trigger] ps[j].0 == c;
    assert(c <= ps[jr].0);
    assert(r <= ps[jc].0);
}

/// Stake at or below `v`, computed.
fn stake_up_to(ps: &Vec<(u64, u64)>, v: u64) -> (r: u128)
    ensures
        r == stake_at_or_below(ps@, v),
{
    let mut acc: u128 = 0;
    let mut i: usize = 0;
    while i < ps.len()
        invariant
            i <= ps.len(),
            acc == stake_at_or_below(ps@.take(i as int), v),
        decreases ps.len() - i,
    {
        proof {
            assert(ps@.take(i as int + 1).drop_last() =~= ps@.take(i as int));
            lemma_total_stake_bound(ps@.take(i as int + 1));
            assert(i + 1 <= usize::MAX);
            assert((i + 1) * (u64::MAX as int) <= u128::MAX) by (nonlinear_arith)
                requires
                    i + 1 <= usize::MAX,
                    usize::MAX <= u64::MAX,
            ;
        }
        proof {
            assert(ps@.take(i as int + 1).last() == ps@[i as int]);
            assert(stake_at_or_below(ps@.take(i as int + 1), v) <= total_stake(
                ps@.take(i as int + 1),
            ));
        }
        if ps[i].0 <= v {
            acc = acc + ps[i].1 as u128;
        }
        i = i + 1;
    }
    assert(ps@.take(i as int) =~= ps@);
    acc
}

/// Sum of all stakes, computed.
fn stake_total(ps: &Vec<(u64, u64)>) -> (r: u128)
    ensures
        r == total_stake(ps@),
{
    let mut acc: u128 = 0;
    let mut i: usize = 0;
    while i < ps.len()
        invariant
            i <= ps.len(),
            acc == total_stake(ps@.take(i as int)),
        decreases ps.len() - i,
    {
        proof {
            assert(ps@.take(i as int + 1).drop_last() =~= ps@.take(i as int));
            lemma_total_stake_bound(ps@.take(i as int + 1));
            assert((i + 1) * (u64::MAX as int) <= u128::MAX) by (nonlinear_arith)
                requires
                    i + 1 <= usize::MAX,
                    usize::MAX <= u64::MAX,
            ;
        }
        proof {
            assert(ps@.take(i as int + 1).last() == ps@[i as int]);
            assert(total_stake(ps@.take(i as int + 1)) == acc + ps@[i as int].1);
        }
        acc = acc + ps[i].1 as u128;
        i = i + 1;
    }
    assert(ps@.take(i as int) =~= ps@);
    acc
}

/// The stake-weighted median of `(weight, stake)` samples: the weight of the
/// first sample, in ascending weight order, at which the running stake reaches
/// half of the total stake (floor). With no stake at all this is the smallest
/// weight; with no samples it is 0.
///
/// No sort is needed: samples of equal weight share that weight, so the walk
/// over a stable sort stops at the smallest weight whose stake at or below it
/// reaches half, and that is what is searched for here.
pub fn weighted_median(ps: &Vec<(u64, u64)>) -> (r: u64)
    ensures
        r == weighted_median_spec(ps@),
        ps.len() > 0 ==> is_weighted_median(ps@, r),
{
    if ps.len() == 0 {
        return 0;
    }
    let total = stake_total(ps);
    let target = total / 2;
    let mut best: Option<u64> = None;
    let mut top: usize = 0;
    let mut j: usize = 0;
    while j < ps.len()
        invariant
            0 < ps.len(),
            j <= ps.len(),
            top < ps.len(),
            target == total_stake(ps@) / 2,
            forall|k: int| 0 <= k < j ==> #[trigger] ps@[k].0 <= ps@[top as int].0,
            j > 0 ==> top < j,
            match best {
                None => forall|k: int| 0 <= k < j ==> !reaches_half(ps@, #[trigger] ps@[k].0),
                Some(b) => {
                    &&& exists|k: int| 0 <= k < j && #[trigger] ps@[k].0 == b
                    &&& reaches_half(ps@, b)
                    &&& forall|k: int|
                        0 <= k < j && reaches_half(ps@, #[trigger] ps@[k].0) ==> b <= ps@[k].0
                },
            },
        decreases ps.len() - j,
    {
        let w = ps[j].0;
        if w > ps[top].0 || j == 0 {
            top = j;
        }
        let s = stake_up_to(ps, w);
        if s >= target {
            match best {
                None => {
                    best = Some(w);
                },
                Some(b) => {
                    if w < b {
                        best = Some(w);
                    }
                },
            }
        }
        j = j + 1;
    }
    match best {
        Some(b) => {
            proof {
                lemma_weighted_median_unique(ps@, b);
            }
            b
        },
        None => {
            proof {
                lemma_all_at_or_below(ps@, ps@[top as int].0);
                assert(reaches_half(ps@, ps@[top as int].0));
            }
            0
        },
    }
}

} // verus!
