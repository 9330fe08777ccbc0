//! The counting step of the Lloyd-Max iteration.
//!
//! Each round of the iteration assigns every training sample to the cell of
//! the current quantizer that it falls in (see `quantizer::quantize`) and
//! counts the samples per cell; only cells that received a sample get a new
//! reconstruction level.

use vstd::prelude::*;

verus! {

/// How many entries of `s` equal `v`.
pub open spec fn occurrences(s: Seq<usize>, v: int) -> nat
    decreases s.len(),
{
    if s.len() == 0 {
        0
    } else {
        occurrences(s.drop_last(), v) + if s.last() == v {
            1nat
        } else {
            0nat
        }
    }
}

/// The sum of `occurrences(s, v)` over the cells `v < n`.
pub open spec fn total_occurrences(s: Seq<usize>, n: int) -> nat
    decreases n,
{
    if n <= 0 {
        0
    } else {
        total_occurrences(s, n - 1) + occurrences(s, n - 1)
    }
}

/// The sum of the entries of `s`.
pub open spec fn seq_sum(s: Seq<usize>) -> nat
    decreases s.len(),
{
    if s.len() == 0 {
        0
    } else {
        seq_sum(s.drop_last()) + s.last() as nat
    }
}

proof fn lemma_occurrences_bounded(s: Seq<usize>, v: int)
    ensures
        occurrences(s, v) <= s.len(),
    decreases s.len(),
{
    if s.len() > 0 {
        lemma_occurrences_bounded(s.drop_last(), v);
    }
}

proof fn lemma_occurrences_count_positions(s: Seq<usize>, v: int)
    ensures
        Set::new(|m: int| 0 <= m < s.len() && s[m] == v).finite(),
        occurrences(s, v) == Set::new(|m: int| 0 <= m < s.len() && s[m] == v).len(),
    decreases s.len(),
{
    let here = Set::new(|m: int| 0 <= m < s.len() && s[m] == v);
    if s.len() == 0 {
        assert(here =~= Set::empty());
    } else {
        let t = s.drop_last();
        let before = Set::new(|m: int| 0 <= m < t.len() && t[m] == v);
        lemma_occurrences_count_positions(t, v);
        if s.last() == v {
            assert(here =~= before.insert(s.len() - 1));
        } else {
            assert(here =~= before);
        }
    }
}

/// `occurrences(s, v)` is the number of positions of `s` that hold `v`:
/// the size of any set that holds exactly those positions.
pub proof fn lemma_occurrences_is_position_count(s: Seq<usize>, v: int, positions: Set<int>)
    requires
        forall|m: int| #[trigger] positions.contains(m) <==> (0 <= m < s.len() && s[m] == v),
    ensures
        positions.finite(),
        occurrences(s, v) == positions.len(),
{
    lemma_occurrences_count_positions(s, v);
    assert(positions =~= Set::new(|m: int| 0 <= m < s.len() && s[m] == v));
}

/// Counts, for each of `num_levels` cells, how many of the cell indices
/// name it.
pub fn cell_counts(indices: &[usize], num_levels: usize) -> (counts: Vec<usize>)
    requires
        forall|k: int| 0 <= k < indices@.len() ==> #[trigger] indices@[k] < num_levels,
    ensures
        counts@.len() == num_levels,
        forall|i: int| 0 <= i < num_levels ==> #[trigger] counts@[i] == occurrences(indices@, i),
        forall|i: int|
            0 <= i < num_levels ==> #[trigger] counts@[i] == Set::new(
                |m: int| 0 <= m < indices@.len() && indices@[m] == i,
            ).len(),
{
    let mut counts: Vec<usize> = Vec::new();
    let mut i: usize = 0;
    while i < num_levels
        invariant
            i <= num_levels,
            counts@.len() == i,
            forall|j: int| 0 <= j < i ==> #[trigger] counts@[j] == 0,
        decreases num_levels - i,
    {
        counts.push(0);
        i = i + 1;
    }
    let mut k: usize = 0;
    while k < indices.len()
        invariant
            k <= indices@.len(),
            counts@.len() == num_levels,
            forall|m: int| 0 <= m < indices@.len() ==> #[trigger] indices@[m] < num_levels,
            forall|j: int|
                0 <= j < num_levels ==> #[trigger] counts@[j] == occurrences(
                    indices@.subrange(0, k as int),
                    j,
                ),
        decreases indices@.len() - k,
    {
        let idx = indices[k];
        proof {
            let next = indices@.subrange(0, k + 1);
            assert(next.drop_last() =~= indices@.subrange(0, k as int));
            lemma_occurrences_bounded(indices@.subrange(0, k as int), idx as int);
        }
        let c = counts[idx];
        counts.set(idx, c + 1);
        k = k + 1;
    }
    assert(indices@.subrange(0, indices@.len() as int) =~= indices@);
    proof {
        assert forall|i: int| 0 <= i < num_levels implies #[trigger] counts@[i] == Set::new(
            |m: int| 0 <= m < indices@.len() && indices@[m] == i,
        ).len() by {
            assert(counts@[i] == occurrences(indices@, i));
            let positions = Set::new(|m: int| 0 <= m < indices@.len() && indices@[m] == i);
            lemma_occurrences_is_position_count(indices@, i, positions);
        }
    }
    counts
}

/// Moves the reconstruction level of every cell that received a sample to
/// that cell's centroid, and leaves the level of every empty cell as it was.
pub fn update_levels(levels: &mut Vec<u64>, centroids: &[u64], counts: &[usize])
    requires
        centroids@.len() == old(levels)@.len(),
        counts@.len() == old(levels)@.len(),
    ensures
        final(levels)@.len() == old(levels)@.len(),
        forall|i: int|
            0 <= i < old(levels)@.len() ==> #[trigger] final(levels)@[i] == if counts@[i] > 0 {
                centroids@[i]
            } else {
                old(levels)@[i]
            },
{
    let n = levels.len();
    let mut i: usize = 0;
    while i < n
        invariant
            n == old(levels)@.len(),
            levels@.len() == n,
            centroids@.len() == n,
            counts@.len() == n,
            i <= n,
            forall|j: int|
                0 <= j < i ==> #[trigger] levels@[j] == if counts@[j] > 0 {
                    centroids@[j]
                } else {
                    old(levels)@[j]
                },
            forall|j: int| i <= j < n ==> #[trigger] levels@[j] == old(levels)@[j],
        decreases n - i,
    {
        if counts[i] > 0 {
            levels.set(i, centroids[i]);
        }
        i = i + 1;
    }
}

proof fn lemma_total_push(s: Seq<usize>, v: usize, n: int)
    requires
        0 <= n,
    ensures
        total_occurrences(s.push(v), n) == total_occurrences(s, n) + if v < n {
            1nat
        } else {
            0nat
        },
    decreases n,
{
    assert(s.push(v).drop_last() =~= s);
    if n > 0 {
        lemma_total_push(s, v, n - 1);
    }
}

proof fn lemma_total_is_length(s: Seq<usize>, n: int)
    requires
        0 <= n,
        forall|k: int| 0 <= k < s.len() ==> #[trigger] s[k] < n,
    ensures
        total_occurrences(s, n) == s.len(),
    decreases s.len(),
{
    if s.len() == 0 {
        lemma_total_empty(s, n);
    } else {
        let t = s.drop_last();
        lemma_total_is_length(t, n);
        assert(t.push(s.last()) =~= s);
        lemma_total_push(t, s.last(), n);
    }
}

proof fn lemma_total_empty(s: Seq<usize>, n: int)
    requires
        s.len() == 0,
    ensures
        total_occurrences(s, n) == 0,
    decreases n,
{
    if n > 0 {
        lemma_total_empty(s, n - 1);
    }
}

proof fn lemma_sum_is_total(counts: Seq<usize>, s: Seq<usize>, n: int)
    requires
        0 <= n <= counts.len(),
        forall|i: int| 0 <= i < counts.len() ==> #[trigger] counts[i] == occurrences(s, i),
    ensures
        seq_sum(counts.subrange(0, n)) == total_occurrences(s, n),
    decreases n,
{
    if n > 0 {
        lemma_sum_is_total(counts, s, n - 1);
        assert(counts.subrange(0, n).drop_last() =~= counts.subrange(0, n - 1));
    }
}

/// Every sample is counted in exactly one cell: when all cell indices are
/// below `num_levels`, the counts add up to the number of samples.
pub proof fn lemma_counts_sum_to_samples(indices: Seq<usize>, counts: Seq<usize>, num_levels: int)
    requires
        counts.len() == num_levels,
        forall|k: int| 0 <= k < indices.len() ==> #[trigger] indices[k] < num_levels,
        forall|i: int| 0 <= i < num_levels ==> #[trigger] counts[i] == occurrences(indices, i),
    ensures
        seq_sum(counts) == indices.len(),
{
    lemma_sum_is_total(counts, indices, num_levels);
    assert(counts.subrange(0, num_levels) =~= counts);
    lemma_total_is_length(indices, num_levels);
}

} // verus!
