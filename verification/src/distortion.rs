//! The Hamming distortion between two symbol sequences.
//!
//! The normalized Hamming distance is the share of positions at which two
//! equally long sequences differ. It is returned exactly, as a count of
//! differing positions over the length; turning the fraction into a real number
//! is left to the caller.

use vstd::prelude::*;

verus! {

/// An exact fraction `numerator / denominator` of two counts.
#[derive(Clone, Copy, Debug, PartialEq, Eq, Structural)]
pub struct Ratio {
    pub numerator: usize,
    pub denominator: usize,
}

/// The number of positions below `n` at which `x` and `y` differ.
pub open spec fn mismatches(x: Seq<i32>, y: Seq<i32>, n: int) -> nat
    decreases n,
{
    if n <= 0 {
        0
    } else {
        mismatches(x, y, n - 1) + if x[n - 1] != y[n - 1] {
            1nat
        } else {
            0nat
        }
    }
}

/// The number of positions at which two sequences of equal length differ.
pub open spec fn hamming(x: Seq<i32>, y: Seq<i32>) -> nat {
    mismatches(x, y, x.len() as int)
}

/// Counts the positions at which `x` and `y` differ.
pub fn hamming_mismatches(x: &[i32], y: &[i32]) -> (count: usize)
    requires
        x@.len() == y@.len(),
    ensures
        count == hamming(x@, y@),
        count == Set::new(|i: int| 0 <= i < x@.len() && x@[i] != y@[i]).len(),
{
    proof {
        lemma_hamming_counts_differing_positions(x@, y@);
    }
    let n = x.len();
    let mut count: usize = 0;
    let mut i: usize = 0;
    while i < n
        invariant
            n == x@.len(),
            n == y@.len(),
            i <= n,
            count == mismatches(x@, y@, i as int),
            count <= i,
        decreases n - i,
    {
        if x[i] != y[i] {
            count = count + 1;
        }
        i = i + 1;
    }
    count
}

/// The normalized Hamming distance between two sequences of equal length:
/// the number of differing positions over the length.
///
/// For two empty sequences the fraction is `0 / 0`.
pub fn hamming_distance(x: &[i32], y: &[i32]) -> (d: Ratio)
    requires
        x@.len() == y@.len(),
    ensures
        d.numerator == hamming(x@, y@),
        d.numerator == Set::new(|i: int| 0 <= i < x@.len() && x@[i] != y@[i]).len(),
        d.denominator == x@.len(),
{
    proof {
        lemma_hamming_counts_differing_positions(x@, y@);
    }
    Ratio { numerator: hamming_mismatches(x, y), denominator: x.len() }
}

proof fn lemma_mismatches_count_positions(x: Seq<i32>, y: Seq<i32>, n: int)
    requires
        0 <= n,
    ensures
        Set::new(|i: int| 0 <= i < n && x[i] != y[i]).finite(),
        mismatches(x, y, n) == Set::new(|i: int| 0 <= i < n && x[i] != y[i]).len(),
    decreases n,
{
    let here = Set::new(|i: int| 0 <= i < n && x[i] != y[i]);
    if n == 0 {
        assert(here =~= Set::empty());
    } else {
        let before = Set::new(|i: int| 0 <= i < n - 1 && x[i] != y[i]);
        lemma_mismatches_count_positions(x, y, n - 1);
        if x[n - 1] != y[n - 1] {
            assert(here =~= before.insert(n - 1));
        } else {
            assert(here =~= before);
        }
    }
}

/// The Hamming distance is the number of positions at which the two
/// sequences hold different symbols: each differing position counts once.
pub proof fn lemma_hamming_counts_differing_positions(x: Seq<i32>, y: Seq<i32>)
    ensures
        hamming(x, y) == Set::new(|i: int| 0 <= i < x.len() && x[i] != y[i]).len(),
{
    lemma_mismatches_count_positions(x, y, x.len() as int);
}

/// Two sequences of equal length that differ at every position are at
/// distance equal to their length, so their normalized distance is 1.
pub proof fn lemma_hamming_all_differ(x: Seq<i32>, y: Seq<i32>)
    requires
        x.len() == y.len(),
        forall|i: int| 0 <= i < x.len() ==> x[i] != y[i],
    ensures
        hamming(x, y) == x.len(),
{
    lemma_hamming_counts_differing_positions(x, y);
    vstd::set_lib::lemma_int_range(0, x.len() as int);
    assert(Set::new(|i: int| 0 <= i < x.len() && x[i] != y[i]) =~= vstd::set_lib::set_int_range(
        0,
        x.len() as int,
    ));
}

proof fn lemma_mismatches_append(x1: Seq<i32>, y1: Seq<i32>, x2: Seq<i32>, y2: Seq<i32>, n: int)
    requires
        x1.len() == y1.len(),
        0 <= n <= x2.len(),
        x2.len() == y2.len(),
    ensures
        mismatches(x1 + x2, y1 + y2, x1.len() + n) == hamming(x1, y1) + mismatches(x2, y2, n),
    decreases n,
{
    if n == 0 {
        assert forall|m: int| 0 <= m <= x1.len() implies mismatches(x1 + x2, y1 + y2, m)
            == mismatches(x1, y1, m) by {
            lemma_mismatches_prefix(x1 + x2, y1 + y2, x1, y1, m);
        }
    } else {
        lemma_mismatches_append(x1, y1, x2, y2, n - 1);
    }
}

proof fn lemma_mismatches_prefix(x: Seq<i32>, y: Seq<i32>, u: Seq<i32>, v: Seq<i32>, m: int)
    requires
        0 <= m <= u.len(),
        m <= v.len(),
        m <= x.len(),
        m <= y.len(),
        forall|i: int| 0 <= i < m ==> x[i] == u[i] && y[i] == v[i],
    ensures
        mismatches(x, y, m) == mismatches(u, v, m),
    decreases m,
{
    if m > 0 {
        lemma_mismatches_prefix(x, y, u, v, m - 1);
    }
}

/// The Hamming distance of concatenated sequences is the sum of the
/// distances of the parts.
pub proof fn lemma_hamming_additive(x1: Seq<i32>, y1: Seq<i32>, x2: Seq<i32>, y2: Seq<i32>)
    requires
        x1.len() == y1.len(),
        x2.len() == y2.len(),
    ensures
        hamming(x1 + x2, y1 + y2) == hamming(x1, y1) + hamming(x2, y2),
{
    lemma_mismatches_append(x1, y1, x2, y2, x2.len() as int);
}

/// A prefix never has more mismatches than positions.
pub proof fn lemma_mismatches_bounded(x: Seq<i32>, y: Seq<i32>, n: int)
    requires
        0 <= n,
    ensures
        mismatches(x, y, n) <= n,
    decreases n,
{
    if n > 0 {
        lemma_mismatches_bounded(x, y, n - 1);
    }
}

/// The Hamming distance never exceeds the length, so the normalized
/// distance lies between 0 and 1.
pub proof fn lemma_hamming_at_most_length(x: Seq<i32>, y: Seq<i32>)
    ensures
        hamming(x, y) <= x.len(),
{
    lemma_mismatches_bounded(x, y, x.len() as int);
}

proof fn lemma_mismatches_zero_iff(x: Seq<i32>, y: Seq<i32>, n: int)
    requires
        0 <= n,
    ensures
        mismatches(x, y, n) == 0 <==> forall|i: int| 0 <= i < n ==> x[i] == y[i],
    decreases n,
{
    if n > 0 {
        lemma_mismatches_zero_iff(x, y, n - 1);
    }
}

/// A sequence is at distance zero from another of the same length exactly
/// when the two are equal.
pub proof fn lemma_hamming_zero_iff_equal(x: Seq<i32>, y: Seq<i32>)
    requires
        x.len() == y.len(),
    ensures
        hamming(x, y) == 0 <==> x == y,
{
    lemma_mismatches_zero_iff(x, y, x.len() as int);
    if hamming(x, y) == 0 {
        assert(x =~= y);
    }
}

proof fn lemma_mismatches_symmetric(x: Seq<i32>, y: Seq<i32>, n: int)
    ensures
        mismatches(x, y, n) == mismatches(y, x, n),
    decreases n,
{
    if n > 0 {
        lemma_mismatches_symmetric(x, y, n - 1);
    }
}

/// The Hamming distance is symmetric.
pub proof fn lemma_hamming_symmetric(x: Seq<i32>, y: Seq<i32>)
    requires
        x.len() == y.len(),
    ensures
        hamming(x, y) == hamming(y, x),
{
    lemma_mismatches_symmetric(x, y, x.len() as int);
}

proof fn lemma_mismatches_triangle(x: Seq<i32>, y: Seq<i32>, z: Seq<i32>, n: int)
    ensures
        mismatches(x, z, n) <= mismatches(x, y, n) + mismatches(y, z, n),
    decreases n,
{
    if n > 0 {
        lemma_mismatches_triangle(x, y, z, n - 1);
    }
}

/// The Hamming distance satisfies the triangle inequality.
pub proof fn lemma_hamming_triangle(x: Seq<i32>, y: Seq<i32>, z: Seq<i32>)
    requires
        x.len() == y.len(),
        y.len() == z.len(),
    ensures
        hamming(x, z) <= hamming(x, y) + hamming(y, z),
{
    lemma_mismatches_triangle(x, y, z, x.len() as int);
}

} // verus!
