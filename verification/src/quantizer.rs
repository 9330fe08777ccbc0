//! Scalar quantizers: decision boundaries and reconstruction levels.
//!
//! A quantizer with `n` levels has `n + 1` boundaries. A value falls in the
//! first cell `i` whose upper boundary `boundaries[i + 1]` lies above it; a
//! value above every upper boundary, and NaN, falls in the last cell. The
//! lowest boundary takes no part in the decision.

use vstd::prelude::*;
use crate::float_order::{float_le, float_lt, is_nan, less_than};

verus! {

/// Whether `x` lies below the upper boundary of cell `j`.
pub open spec fn below_upper(x: u64, boundaries: Seq<u64>, j: int) -> bool {
    float_lt(x, boundaries[j + 1])
}

/// Whether `r` is the cell that `x` falls in, among `n` cells with the given
/// boundaries: the first whose upper boundary lies above `x`, else the last.
pub open spec fn is_cell(x: u64, boundaries: Seq<u64>, n: int, r: int) -> bool {
    &&& 0 <= r < n
    &&& forall|j: int| 0 <= j < r ==> !#[trigger] below_upper(x, boundaries, j)
    &&& (r == n - 1 || below_upper(x, boundaries, r))
}

/// Whether the boundaries are numbers in non-decreasing order.
pub open spec fn sorted_boundaries(boundaries: Seq<u64>) -> bool {
    forall|j: int, k: int|
        0 <= j <= k < boundaries.len() ==> float_le(#[trigger] boundaries[j], #[trigger] boundaries[k])
}

/// A scalar quantizer with defined boundaries and reconstruction levels,
/// each held as the bit pattern of an `f64`.
#[derive(Debug)]
pub struct ScalarQuantizer {
    boundaries: Vec<u64>,
    levels: Vec<u64>,
}

impl ScalarQuantizer {
    /// The decision boundaries.
    pub closed spec fn boundary_seq(&self) -> Seq<u64> {
        self.boundaries@
    }

    /// The reconstruction levels.
    pub closed spec fn level_seq(&self) -> Seq<u64> {
        self.levels@
    }

    /// There is one boundary more than there are levels.
    #[verifier::type_invariant]
    spec fn well_formed(&self) -> bool {
        self.boundaries@.len() == self.levels@.len() + 1
    }

    /// Whether `r` is the cell of this quantizer that `x` falls in.
    pub open spec fn is_cell_of(&self, x: u64, r: int) -> bool {
        is_cell(x, self.boundary_seq(), self.level_seq().len() as int, r)
    }

    /// Creates a quantizer from explicit boundaries and levels; there must be
    /// one boundary more than there are levels.
    pub fn new(boundaries: Vec<u64>, levels: Vec<u64>) -> (q: Self)
        requires
            boundaries@.len() == levels@.len() + 1,
        ensures
            q.boundary_seq() == boundaries@,
            q.level_seq() == levels@,
    {
        ScalarQuantizer { boundaries, levels }
    }

    /// Quantizes a value, returning the index of the cell it falls in: the
    /// first cell whose upper boundary lies above `x`, else the last cell.
    pub fn quantize(&self, x: u64) -> (r: usize)
        requires
            self.level_seq().len() >= 1,
        ensures
            self.is_cell_of(x, r as int),
            r < self.level_seq().len(),
            forall|j: int| 1 <= j <= r ==> !float_lt(x, #[trigger] self.boundary_seq()[j]),
            r == self.level_seq().len() - 1 || float_lt(x, self.boundary_seq()[r + 1]),
    {
        proof {
            use_type_invariant(self);
        }
        let n = self.levels.len();
        let mut i: usize = 0;
        while i + 1 < n && !less_than(x, self.boundaries[i + 1])
            invariant
                n == self.levels@.len(),
                n >= 1,
                self.boundaries@.len() == n + 1,
                i < n,
                forall|j: int| 0 <= j < i ==> !#[trigger] below_upper(x, self.boundaries@, j),
            decreases n - i,
        {
            i = i + 1;
        }
        proof {
            lemma_is_cell_exact(x, self.boundaries@, n as int, i as int);
        }
        i
    }

    /// Returns the reconstruction level of a cell.
    pub fn dequantize(&self, idx: usize) -> (level: u64)
        requires
            idx < self.level_seq().len(),
        ensures
            level == self.level_seq()[idx as int],
    {
        self.levels[idx]
    }

    /// The number of quantization levels.
    pub fn num_levels(&self) -> (n: usize)
        ensures
            n == self.level_seq().len(),
    {
        self.levels.len()
    }

    /// The reconstruction levels.
    pub fn levels(&self) -> (s: &[u64])
        ensures
            s@ == self.level_seq(),
    {
        self.levels.as_slice()
    }

    /// The decision boundaries.
    pub fn boundaries(&self) -> (s: &[u64])
        ensures
            s@ == self.boundary_seq(),
            s@.len() == self.level_seq().len() + 1,
    {
        proof {
            use_type_invariant(self);
        }
        self.boundaries.as_slice()
    }
}

impl Clone for ScalarQuantizer {
    /// A quantizer with the same boundaries and levels.
    fn clone(&self) -> (c: Self)
        ensures
            c.boundary_seq() == self.boundary_seq(),
            c.level_seq() == self.level_seq(),
    {
        proof {
            use_type_invariant(self);
        }
        ScalarQuantizer { boundaries: self.boundaries.clone(), levels: self.levels.clone() }
    }
}

/// Quantizes each value of a slice on its own, returning the cell indices:
/// entry `k` is the first cell whose upper boundary lies above `data[k]`,
/// else the last cell, whatever the other values are.
pub fn quantize(data: &[u64], q: &ScalarQuantizer) -> (indices: Vec<usize>)
    requires
        q.level_seq().len() >= 1,
    ensures
        indices@.len() == data@.len(),
        forall|k: int| 0 <= k < data@.len() ==> q.is_cell_of(data@[k], #[trigger] indices@[k] as int),
        forall|k: int|
            0 <= k < data@.len() ==> {
                &&& #[trigger] indices@[k] < q.level_seq().len()
                &&& forall|j: int|
                    1 <= j <= indices@[k] ==> !float_lt(data@[k], #[trigger] q.boundary_seq()[j])
                &&& (indices@[k] == q.level_seq().len() - 1 || float_lt(
                    data@[k],
                    q.boundary_seq()[indices@[k] + 1],
                ))
            },
{
    let mut indices: Vec<usize> = Vec::new();
    let mut k: usize = 0;
    while k < data.len()
        invariant
            k <= data@.len(),
            q.level_seq().len() >= 1,
            indices@.len() == k,
            forall|m: int| 0 <= m < k ==> q.is_cell_of(data@[m], #[trigger] indices@[m] as int),
            forall|m: int|
                0 <= m < k ==> {
                    &&& #[trigger] indices@[m] < q.level_seq().len()
                    &&& forall|j: int|
                        1 <= j <= indices@[m] ==> !float_lt(data@[m], #[trigger] q.boundary_seq()[j])
                    &&& (indices@[m] == q.level_seq().len() - 1 || float_lt(
                        data@[m],
                        q.boundary_seq()[indices@[m] + 1],
                    ))
                },
        decreases data@.len() - k,
    {
        let r = q.quantize(data[k]);
        indices.push(r);
        k = k + 1;
    }
    indices
}

/// Maps each cell index of a slice to its reconstruction level.
pub fn dequantize(indices: &[usize], q: &ScalarQuantizer) -> (values: Vec<u64>)
    requires
        forall|k: int| 0 <= k < indices@.len() ==> #[trigger] indices@[k] < q.level_seq().len(),
    ensures
        values@.len() == indices@.len(),
        forall|k: int| 0 <= k < indices@.len() ==> #[trigger] values@[k] == q.level_seq()[indices@[k] as int],
{
    let mut values: Vec<u64> = Vec::new();
    let mut k: usize = 0;
    while k < indices.len()
        invariant
            k <= indices@.len(),
            forall|m: int| 0 <= m < indices@.len() ==> #[trigger] indices@[m] < q.level_seq().len(),
            values@.len() == k,
            forall|m: int| 0 <= m < k ==> #[trigger] values@[m] == q.level_seq()[indices@[m] as int],
        decreases indices@.len() - k,
    {
        let v = q.dequantize(indices[k]);
        values.push(v);
        k = k + 1;
    }
    values
}

/// `is_cell` says, boundary by boundary, that `r` is a cell index, that no
/// upper boundary of an earlier cell lies above `x`, and that the upper
/// boundary of cell `r` lies above `x` unless `r` is the last cell.
pub proof fn lemma_is_cell_exact(x: u64, boundaries: Seq<u64>, n: int, r: int)
    ensures
        is_cell(x, boundaries, n, r) <==> {
            &&& 0 <= r < n
            &&& forall|j: int| 1 <= j <= r ==> !float_lt(x, #[trigger] boundaries[j])
            &&& (r == n - 1 || float_lt(x, boundaries[r + 1]))
        },
{
    if forall|j: int| 1 <= j <= r ==> !float_lt(x, #[trigger] boundaries[j]) {
        assert forall|j: int| 0 <= j < r implies !#[trigger] below_upper(x, boundaries, j) by {
            assert(!float_lt(x, boundaries[j + 1]));
        }
    }
    if forall|j: int| 0 <= j < r ==> !#[trigger] below_upper(x, boundaries, j) {
        assert forall|j: int| 1 <= j <= r implies !float_lt(x, #[trigger] boundaries[j]) by {
            assert(!below_upper(x, boundaries, j - 1));
        }
    }
}

/// A value falls in exactly one cell.
pub proof fn lemma_cell_unique(x: u64, boundaries: Seq<u64>, n: int, r1: int, r2: int)
    requires
        is_cell(x, boundaries, n, r1),
        is_cell(x, boundaries, n, r2),
    ensures
        r1 == r2,
{
    if r1 < r2 {
        assert(!below_upper(x, boundaries, r1));
    } else if r2 < r1 {
        assert(!below_upper(x, boundaries, r2));
    }
}

/// Quantization is monotone: a value no greater than another never falls in
/// a later cell.
pub proof fn lemma_cell_monotone(
    x: u64,
    y: u64,
    boundaries: Seq<u64>,
    n: int,
    rx: int,
    ry: int,
)
    requires
        float_le(x, y),
        is_cell(x, boundaries, n, rx),
        is_cell(y, boundaries, n, ry),
    ensures
        rx <= ry,
{
    if ry < rx {
        assert(!below_upper(x, boundaries, ry));
        assert(below_upper(y, boundaries, ry));
    }
}

/// A NaN falls in the last cell.
pub proof fn lemma_nan_in_last_cell(x: u64, boundaries: Seq<u64>, n: int, r: int)
    requires
        is_nan(x),
        is_cell(x, boundaries, n, r),
    ensures
        r == n - 1,
{
    if r < n - 1 {
        assert(below_upper(x, boundaries, r));
    }
}

/// With boundaries in order, a value at or above the lower boundary of a
/// cell and below its upper boundary falls in that cell; below the first
/// upper boundary means the first cell whatever the lowest boundary.
pub proof fn lemma_cell_between_boundaries(x: u64, boundaries: Seq<u64>, n: int, i: int)
    requires
        boundaries.len() == n + 1,
        sorted_boundaries(boundaries),
        0 <= i < n,
        i == 0 || float_le(boundaries[i], x),
        float_lt(x, boundaries[i + 1]),
    ensures
        is_cell(x, boundaries, n, i),
{
    assert forall|j: int| 0 <= j < i implies !#[trigger] below_upper(x, boundaries, j) by {
        assert(float_le(boundaries[j + 1], boundaries[i]));
    }
}

/// `is_cell_of` is the cell decision of `quantize`, boundary by boundary:
/// `r` is a level index, no upper boundary of a cell before `r` lies above
/// `x`, and the upper boundary of cell `r` lies above `x` unless `r` is the
/// last cell.
pub proof fn lemma_is_cell_of_exact(q: &ScalarQuantizer, x: u64, r: int)
    ensures
        q.is_cell_of(x, r) <==> {
            &&& 0 <= r < q.level_seq().len()
            &&& forall|j: int| 1 <= j <= r ==> !float_lt(x, #[trigger] q.boundary_seq()[j])
            &&& (r == q.level_seq().len() - 1 || float_lt(x, q.boundary_seq()[r + 1]))
        },
{
    lemma_is_cell_exact(x, q.boundary_seq(), q.level_seq().len() as int, r);
}

/// A value has one cell: two indices that each meet what `quantize` ensures
/// of its result for `x` are equal, so the result of `quantize` (and each
/// entry of the slice `quantize`) is determined by `x` and the quantizer.
pub proof fn lemma_quantize_result_unique(q: &ScalarQuantizer, x: u64, r1: int, r2: int)
    requires
        0 <= r1 < q.level_seq().len(),
        forall|j: int| 1 <= j <= r1 ==> !float_lt(x, #[trigger] q.boundary_seq()[j]),
        r1 == q.level_seq().len() - 1 || float_lt(x, q.boundary_seq()[r1 + 1]),
        0 <= r2 < q.level_seq().len(),
        forall|j: int| 1 <= j <= r2 ==> !float_lt(x, #[trigger] q.boundary_seq()[j]),
        r2 == q.level_seq().len() - 1 || float_lt(x, q.boundary_seq()[r2 + 1]),
    ensures
        r1 == r2,
{
    if r1 < r2 {
        assert(!float_lt(x, q.boundary_seq()[r1 + 1]));
    } else if r2 < r1 {
        assert(!float_lt(x, q.boundary_seq()[r2 + 1]));
    }
}

/// With boundaries in non-decreasing order, a value at or above the lower
/// boundary of cell `i` and below its upper boundary is quantized to `i`
/// (below the first upper boundary means cell 0, whatever the lowest
/// boundary is).
pub proof fn lemma_quantize_between_boundaries(q: &ScalarQuantizer, x: u64, i: int, r: int)
    requires
        q.boundary_seq().len() == q.level_seq().len() + 1,
        forall|j: int, k: int|
            0 <= j <= k < q.boundary_seq().len() ==> float_le(
                #[trigger] q.boundary_seq()[j],
                #[trigger] q.boundary_seq()[k],
            ),
        0 <= i < q.level_seq().len(),
        i == 0 || float_le(q.boundary_seq()[i], x),
        float_lt(x, q.boundary_seq()[i + 1]),
        0 <= r < q.level_seq().len(),
        forall|j: int| 1 <= j <= r ==> !float_lt(x, #[trigger] q.boundary_seq()[j]),
        r == q.level_seq().len() - 1 || float_lt(x, q.boundary_seq()[r + 1]),
    ensures
        r == i,
{
    let b = q.boundary_seq();
    let n = q.level_seq().len() as int;
    lemma_cell_between_boundaries(x, b, n, i);
    lemma_is_cell_exact(x, b, n, i);
    lemma_quantize_result_unique(q, x, i, r);
}

/// Quantization is monotone: when `x <= y`, the cell `quantize` gives `x`
/// is no later than the one it gives `y`.
pub proof fn lemma_quantize_monotone(q: &ScalarQuantizer, x: u64, y: u64, rx: int, ry: int)
    requires
        float_le(x, y),
        0 <= rx < q.level_seq().len(),
        forall|j: int| 1 <= j <= rx ==> !float_lt(x, #[trigger] q.boundary_seq()[j]),
        rx == q.level_seq().len() - 1 || float_lt(x, q.boundary_seq()[rx + 1]),
        0 <= ry < q.level_seq().len(),
        forall|j: int| 1 <= j <= ry ==> !float_lt(y, #[trigger] q.boundary_seq()[j]),
        ry == q.level_seq().len() - 1 || float_lt(y, q.boundary_seq()[ry + 1]),
    ensures
        rx <= ry,
{
    if ry < rx {
        assert(!float_lt(x, q.boundary_seq()[ry + 1]));
    }
}

/// `quantize` puts NaN in the last cell.
pub proof fn lemma_quantize_nan(q: &ScalarQuantizer, x: u64, r: int)
    requires
        is_nan(x),
        0 <= r < q.level_seq().len(),
        r == q.level_seq().len() - 1 || float_lt(x, q.boundary_seq()[r + 1]),
    ensures
        r == q.level_seq().len() - 1,
{
}

} // verus!
