use vstd::prelude::*;
use crate::wide::{at_least_quarter, from_u128, le, mul_limb, square, wide_add, wide_sub, p256};

verus! {

/// Sum of the weights of `(weight, stake)` samples.
pub open spec fn sum_weights(ps: Seq<(u64, u64)>) -> int
    decreases ps.len(),
{
    if ps.len() == 0 {
        0
    } else {
        sum_weights(ps.drop_last()) + ps.last().0
    }
}

/// Sum of the squared weights.
pub open spec fn sum_squares(ps: Seq<(u64, u64)>) -> int
    decreases ps.len(),
{
    if ps.len() == 0 {
        0
    } else {
        sum_squares(ps.drop_last()) + ps.last().0 * ps.last().0
    }
}

/// `n² · variance` of the weights, with `n` samples: `n·Σw² − (Σw)²`.
pub open spec fn spread(ps: Seq<(u64, u64)>) -> int {
    ps.len() * sum_squares(ps) - sum_weights(ps) * sum_weights(ps)
}

/// `|w − mean| ≤ 2·std_dev` over the weights of `ps` (population standard
/// deviation, stake ignored), multiplied out by `n` and squared so that it is
/// exact: `(n·w − Σw)² ≤ 4·(n·Σw² − (Σw)²)`.
pub open spec fn within_two_sigma(ps: Seq<(u64, u64)>, w: u64) -> bool {
    let d = ps.len() * w - sum_weights(ps);
    d * d <= 4 * spread(ps)
}

/// Sum of the weights among `qs` that lie within two sigma of `ps`.
pub open spec fn kept_sum(qs: Seq<(u64, u64)>, ps: Seq<(u64, u64)>) -> int
    decreases qs.len(),
{
    if qs.len() == 0 {
        0
    } else {
        kept_sum(qs.drop_last(), ps) + if within_two_sigma(ps, qs.last().0) {
            qs.last().0 as int
        } else {
            0
        }
    }
}

/// Number of the weights among `qs` that lie within two sigma of `ps`.
pub open spec fn kept_count(qs: Seq<(u64, u64)>, ps: Seq<(u64, u64)>) -> int
    decreases qs.len(),
{
    if qs.len() == 0 {
        0
    } else {
        kept_count(qs.drop_last(), ps) + if within_two_sigma(ps, qs.last().0) {
            1int
        } else {
            0
        }
    }
}

/// Mean of the weights within two sigma of the mean, or `median` when none is.
pub open spec fn clip_outliers_spec(median: u64, ps: Seq<(u64, u64)>) -> u64 {
    if kept_count(ps, ps) == 0 {
        median
    } else {
        (kept_sum(ps, ps) / kept_count(ps, ps)) as u64
    }
}

proof fn lemma_sums_bound(ps: Seq<(u64, u64)>)
    ensures
        0 <= sum_weights(ps) <= ps.len() * (u64::MAX as int),
        0 <= sum_squares(ps) <= ps.len() * (u64::MAX * u64::MAX),
    decreases ps.len(),
{
    if ps.len() > 0 {
        let p = ps.drop_last();
        lemma_sums_bound(p);
        let y = ps.last().0 as int;
        let n = p.len() as int;
        assert(0 <= y * y <= u64::MAX * u64::MAX) by (nonlinear_arith)
            requires
                0 <= y <= u64::MAX,
        ;
        assert(n * (u64::MAX as int) + u64::MAX == (n + 1) * (u64::MAX as int)) by (nonlinear_arith);
        assert(n * (u64::MAX * u64::MAX) + u64::MAX * u64::MAX == (n + 1) * (u64::MAX
            * u64::MAX)) by (nonlinear_arith);
    }
}

proof fn lemma_squared_deviation(ps: Seq<(u64, u64)>, x: int)
    ensures
        sum_squares(ps) - 2 * x * sum_weights(ps) + ps.len() * (x * x) >= 0,
    decreases ps.len(),
{
    if ps.len() > 0 {
        let p = ps.drop_last();
        lemma_squared_deviation(p, x);
        let y = ps.last().0 as int;
        let q = sum_squares(p);
        let s = sum_weights(p);
        let n = p.len() as int;
        assert((q + y * y) - 2 * x * (s + y) + (n + 1) * (x * x) >= 0) by (nonlinear_arith)
            requires
                q - 2 * x * s + n * (x * x) >= 0,
        ;
    }
}

/// `(Σw)² ≤ n·Σw²`: the spread is never negative.
pub(crate) proof fn lemma_spread_nonnegative(ps: Seq<(u64, u64)>)
    ensures
        spread(ps) >= 0,
    decreases ps.len(),
{
    if ps.len() > 0 {
        let p = ps.drop_last();
        lemma_spread_nonnegative(p);
        let y = ps.last().0 as int;
        lemma_squared_deviation(p, y);
        let q = sum_squares(p);
        let s = sum_weights(p);
        let n = p.len() as int;
        assert((s + y) * (s + y) <= (n + 1) * (q + y * y)) by (nonlinear_arith)
            requires
                s * s <= n * q,
                q - 2 * y * s + n * (y * y) >= 0,
        ;
    }
}

proof fn lemma_kept_bounds(qs: Seq<(u64, u64)>, ps: Seq<(u64, u64)>)
    ensures
        0 <= kept_sum(qs, ps) <= sum_weights(qs),
        0 <= kept_count(qs, ps) <= qs.len(),
        kept_sum(qs, ps) <= kept_count(qs, ps) * (u64::MAX as int),
    decreases qs.len(),
{
    if qs.len() > 0 {
        lemma_kept_bounds(qs.drop_last(), ps);
    }
}

/// Outlier clipping: the mean of the weights that lie within two standard
/// deviations (inclusive) of the mean of all weights, stake ignored; when no
/// weight is kept, `median`. Computed exactly, in 256-bit integers where the
/// squares need them.
pub fn clip_outliers(median: u64, weights: &Vec<(u64, u64)>) -> (r: u64)
    ensures
        r == clip_outliers_spec(median, weights@),
{
    let ghost ps = weights@;
    let len = weights.len();
    let n = len as u128;
    let mut s: u128 = 0;
    let mut q = from_u128(0);
    let mut i: usize = 0;
    while i < len
        invariant
            len == ps.len(),
            ps == weights@,
            n == len,
            i <= len,
            s == sum_weights(ps.take(i as int)),
            q.val() == sum_squares(ps.take(i as int)),
        decreases len - i,
    {
        let w = weights[i].0 as u128;
        proof {
            let t = ps.take(i as int + 1);
            assert(t.drop_last() =~= ps.take(i as int));
            assert(t.last() == ps[i as int]);
            lemma_sums_bound(t);
            assert((i + 1) * (u64::MAX as int) <= u128::MAX) by (nonlinear_arith)
                requires
                    i + 1 <= usize::MAX,
                    usize::MAX <= u64::MAX,
            ;
            assert((i + 1) * (u64::MAX * u64::MAX) < p256()) by (nonlinear_arith)
                requires
                    i + 1 <= usize::MAX,
                    usize::MAX <= u64::MAX,
            ;
            assert(w * w <= u64::MAX * u64::MAX) by (nonlinear_arith)
                requires
                    w <= u64::MAX,
            ;
        }
        s = s + w;
        q = wide_add(&q, &from_u128(w * w));
        i = i + 1;
    }
    proof {
        assert(ps.take(len as int) =~= ps);
        lemma_sums_bound(ps);
        lemma_spread_nonnegative(ps);
        assert(q.val() * n < p256()) by (nonlinear_arith)
            requires
                n <= u64::MAX,
                0 <= q.val() <= n * (u64::MAX * u64::MAX),
        ;
    }
    let nq = mul_limb(&q, len as u64);
    let s2 = square(s);
    proof {
        assert(nq.val() == ps.len() * sum_squares(ps)) by (nonlinear_arith)
            requires
                nq.val() == q.val() * (len as int),
                q.val() == sum_squares(ps),
                len == ps.len(),
        ;
    }
    let spread_n = wide_sub(&nq, &s2);
    let wide_spread = at_least_quarter(&spread_n);
    let mut kept: u128 = 0;
    let mut count: u128 = 0;
    let mut j: usize = 0;
    while j < len
        invariant
            len == ps.len(),
            ps == weights@,
            n == len,
            j <= len,
            s == sum_weights(ps),
            0 <= s <= n * (u64::MAX as int),
            spread_n.val() == spread(ps),
            wide_spread == (spread_n.val() >= p256() / 4),
            kept == kept_sum(ps.take(j as int), ps),
            count == kept_count(ps.take(j as int), ps),
        decreases len - j,
    {
        let w = weights[j].0;
        proof {
            assert(n * w <= n * (u64::MAX as int) <= u128::MAX) by (nonlinear_arith)
                requires
                    w <= u64::MAX,
                    n <= u64::MAX,
            ;
        }
        let nw = n * (w as u128);
        let d = if nw >= s {
            nw - s
        } else {
            s - nw
        };
        proof {
            let t = ps.take(j as int + 1);
            assert(t.drop_last() =~= ps.take(j as int));
            assert(t.last() == ps[j as int]);
            lemma_kept_bounds(ps.take(j as int), ps);
            lemma_sums_bound(t);
            let dd = n * w - sum_weights(ps);
            assert(d * d == dd * dd) by (nonlinear_arith)
                requires
                    d == dd || d == -dd,
            ;
            assert(d * d < p256()) by (nonlinear_arith)
                requires
                    0 <= d <= u128::MAX,
            ;
            assert(kept + w <= sum_weights(t));
            assert(sum_weights(t) <= u128::MAX) by (nonlinear_arith)
                requires
                    sum_weights(t) <= t.len() * (u64::MAX as int),
                    t.len() <= usize::MAX,
                    usize::MAX <= u64::MAX,
            ;
        }
        let keep = if wide_spread {
            true
        } else {
            let four = mul_limb(&spread_n, 4);
            le(&square(d), &four)
        };
        if keep {
            kept = kept + w as u128;
            count = count + 1;
        }
        j = j + 1;
    }
    proof {
        assert(ps.take(len as int) =~= ps);
        lemma_kept_bounds(ps, ps);
        if count > 0 {
            assert(kept / count <= u64::MAX) by (nonlinear_arith)
                requires
                    kept <= count * (u64::MAX as int),
                    count > 0,
            ;
        }
    }
    if count == 0 {
        median
    } else {
        (kept / count) as u64
    }
}

} // verus!
