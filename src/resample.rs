use vstd::prelude::*;

verus! {

/// Largest population the filter works with; it keeps every sum in range.
pub const MAX_PARTICLES: usize = 1_048_576;

/// Sum of the first `k` weights.
pub open spec fn prefix_sum(w: Seq<u64>, k: int) -> int
    decreases k,
{
    if k <= 0 || k > w.len() {
        0
    } else {
        prefix_sum(w, k - 1) + w[k - 1]
    }
}

/// Sum of all weights.
pub open spec fn total_of(w: Seq<u64>) -> int {
    prefix_sum(w, w.len() as int)
}

/// Draw `i` of a systematic resample is the threshold `r + i * mean` on the
/// cumulative weights, where `r = offset / n` and `mean = total / n`. Every
/// side is multiplied by `n` here, so the comparison stays exact in integers.
pub open spec fn covers(w: Seq<u64>, offset: int, i: int, k: int) -> bool {
    w.len() * prefix_sum(w, k + 1) > offset + i * total_of(w)
}

/// `k` is the index that draw `i` picks: the smallest one whose cumulative
/// weight passes the draw's threshold.
pub open spec fn is_selection(w: Seq<u64>, offset: int, i: int, k: int) -> bool {
    &&& 0 <= k < w.len()
    &&& covers(w, offset, i, k)
    &&& forall|j: int| 0 <= j < k ==> !covers(w, offset, i, j)
}

/// `sel` holds, for each draw, the index that it picks.
pub open spec fn is_systematic_selection(w: Seq<u64>, offset: int, sel: Seq<usize>) -> bool {
    &&& sel.len() == w.len()
    &&& forall|i: int| 0 <= i < sel.len() ==> is_selection(w, offset, i, #[trigger] sel[i] as int)
}

proof fn lemma_prefix_sum_bounds(w: Seq<u64>, k: int)
    requires
        0 <= k <= w.len(),
    ensures
        0 <= prefix_sum(w, k) <= k * 0x1_0000_0000_0000_0000,
    decreases k,
{
    if k > 0 {
        lemma_prefix_sum_bounds(w, k - 1);
    }
}

proof fn lemma_prefix_sum_monotone(w: Seq<u64>, a: int, b: int)
    requires
        0 <= a <= b <= w.len(),
    ensures
        prefix_sum(w, a) <= prefix_sum(w, b),
    decreases b - a,
{
    if a < b {
        lemma_prefix_sum_monotone(w, a, b - 1);
    }
}

/// A draw never picks a particle whose weight is zero.
pub proof fn lemma_selection_has_weight(w: Seq<u64>, offset: int, i: int, k: int)
    requires
        0 <= offset,
        0 <= i,
        is_selection(w, offset, i, k),
    ensures
        w[k] > 0,
{
    let n = w.len() as int;
    let t = total_of(w);
    lemma_prefix_sum_bounds(w, n);
    assert(0 <= i * t) by (nonlinear_arith)
        requires
            0 <= i,
            0 <= t,
    ;
    if k == 0 {
        assert(prefix_sum(w, 1) == w[0]) by {
            reveal_with_fuel(prefix_sum, 2);
        }
        assert(n * w[0] > 0);
        assert(w[0] > 0) by (nonlinear_arith)
            requires
                n * w[0] > 0,
                n >= 1,
        ;
    } else {
        assert(!covers(w, offset, i, k - 1));
        assert(prefix_sum(w, k + 1) == prefix_sum(w, k) + w[k]);
    }
}

/// Later draws never pick an earlier index: the thresholds rise with the
/// draw, so the picks walk the population once, in order.
pub proof fn lemma_selection_monotone(w: Seq<u64>, offset: int, i: int, j: int, ki: int, kj: int)
    requires
        0 <= i <= j,
        is_selection(w, offset, i, ki),
        is_selection(w, offset, j, kj),
    ensures
        ki <= kj,
{
    let t = total_of(w);
    lemma_prefix_sum_bounds(w, w.len() as int);
    assert(i * t <= j * t) by (nonlinear_arith)
        requires
            0 <= i <= j,
            0 <= t,
    ;
    if kj < ki {
        assert(covers(w, offset, j, kj));
        assert(covers(w, offset, i, kj));
    }
}

/// Sum of the weights, exactly.
pub fn total_weight(weights: &Vec<u64>) -> (r: u128)
    requires
        weights.len() <= MAX_PARTICLES,
    ensures
        r == total_of(weights@),
{
    let mut sum: u128 = 0;
    let mut k: usize = 0;
    while k < weights.len()
        invariant
            weights.len() <= MAX_PARTICLES,
            k <= weights.len(),
            sum == prefix_sum(weights@, k as int),
        decreases weights.len() - k,
    {
        proof {
            lemma_prefix_sum_bounds(weights@, k as int + 1);
            assert((k as int + 1) * 0x1_0000_0000_0000_0000 <= MAX_PARTICLES * 0x1_0000_0000_0000_0000)
                by (nonlinear_arith)
                requires
                    k as int + 1 <= MAX_PARTICLES,
            ;
        }
        sum = sum + weights[k] as u128;
        k = k + 1;
    }
    sum
}

proof fn lemma_last_index_covers(w: Seq<u64>, offset: int, i: int)
    requires
        1 <= w.len(),
        0 <= offset < total_of(w),
        0 <= i < w.len(),
    ensures
        covers(w, offset, i, w.len() - 1),
{
    let n = w.len() as int;
    let t = total_of(w);
    assert(i * t <= (n - 1) * t) by (nonlinear_arith)
        requires
            0 <= i <= n - 1,
            0 <= t,
    ;
    assert(n * t == (n - 1) * t + t) by (nonlinear_arith);
}

/// Systematic (low-variance) resampling: one random offset and `n` evenly
/// spaced thresholds, walked in a single monotone pass over the cumulative
/// weights. `offset` in `[0, total)` stands for `r * n` with `r` in
/// `[0, mean)`. Entry `i` of the result is the index that draw `i` picks.
pub fn systematic_select(weights: &Vec<u64>, offset: u128) -> (sel: Vec<usize>)
    requires
        1 <= weights.len() <= MAX_PARTICLES,
        offset < total_of(weights@),
    ensures
        is_systematic_selection(weights@, offset as int, sel@),
{
    let ghost w = weights@;
    let n = weights.len();
    let total = total_weight(weights);
    proof {
        lemma_prefix_sum_bounds(w, n as int);
        assert(n * total <= MAX_PARTICLES * (MAX_PARTICLES * 0x1_0000_0000_0000_0000)) by (nonlinear_arith)
            requires
                n <= MAX_PARTICLES,
                total <= n * 0x1_0000_0000_0000_0000,
                0 <= total,
        ;
        assert(MAX_PARTICLES * (MAX_PARTICLES * 0x1_0000_0000_0000_0000) < 0x1_0000_0000_0000_0000_0000_0000_0000);
        assert(prefix_sum(w, 1) == w[0]) by {
            reveal_with_fuel(prefix_sum, 2);
        }
        assert(n * w[0] <= n * 0x1_0000_0000_0000_0000) by (nonlinear_arith)
            requires
                w[0] < 0x1_0000_0000_0000_0000,
                0 <= n,
        ;
        assert(n * 0x1_0000_0000_0000_0000 <= MAX_PARTICLES * 0x1_0000_0000_0000_0000);
    }
    let mut sel: Vec<usize> = Vec::new();
    let mut k: usize = 0;
    let mut cum: u128 = (n as u128) * (weights[0] as u128);
    let mut i: usize = 0;
    while i < n
        invariant
            w == weights@,
            n == w.len(),
            1 <= n <= MAX_PARTICLES,
            total == total_of(w),
            offset < total,
            n * total < 0x1_0000_0000_0000_0000_0000_0000_0000,
            i <= n,
            k < n,
            cum == n * prefix_sum(w, k + 1),
            sel.len() == i,
            forall|m: int| 0 <= m < i ==> is_selection(w, offset as int, m, #[trigger] sel@[m] as int),
            i < n ==> forall|j: int| 0 <= j < k ==> !covers(w, offset as int, i as int, j),
        decreases n - i,
    {
        proof {
            assert(i * total <= (n - 1) * total) by (nonlinear_arith)
                requires
                    i <= n - 1,
                    0 <= total,
            ;
            assert(n * total == (n - 1) * total + total) by (nonlinear_arith);
        }
        let threshold: u128 = offset + (i as u128) * total;
        while cum <= threshold
            invariant
                w == weights@,
                n == w.len(),
                1 <= n <= MAX_PARTICLES,
                total == total_of(w),
                offset < total,
                n * total < 0x1_0000_0000_0000_0000_0000_0000_0000,
                i < n,
                threshold == offset + i * total,
                threshold < n * total,
                k < n,
                cum == n * prefix_sum(w, k + 1),
                forall|j: int| 0 <= j < k ==> !covers(w, offset as int, i as int, j),
            decreases n - k,
        {
            proof {
                lemma_last_index_covers(w, offset as int, i as int);
                assert(k + 1 < n);
                lemma_prefix_sum_monotone(w, k + 2, n as int);
                assert(n * prefix_sum(w, k + 2) <= n * total) by (nonlinear_arith)
                    requires
                        prefix_sum(w, k + 2) <= total,
                        0 <= n,
                ;
                assert(n * prefix_sum(w, k + 2) == n * prefix_sum(w, k + 1) + n * w[k + 1]) by (nonlinear_arith)
                    requires
                        prefix_sum(w, k + 2) == prefix_sum(w, k + 1) + w[k + 1],
                ;
            }
            k = k + 1;
            cum = cum + (n as u128) * (weights[k] as u128);
        }
        sel.push(k);
        proof {
            assert(is_selection(w, offset as int, i as int, k as int));
            if i + 1 < n {
                let ni: int = i + 1;
                assert forall|j: int| 0 <= j < k implies !#[trigger] covers(w, offset as int, ni, j) by {
                    assert(!covers(w, offset as int, i as int, j));
                    assert(i * total <= ni * total) by (nonlinear_arith)
                        requires
                            0 <= total,
                            ni == i + 1,
                    ;
                }
            }
        }
        i = i + 1;
    }
    sel
}

} // verus!
