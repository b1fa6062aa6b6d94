//! Splitting the columns of a grid into contiguous ranges, one per worker.

use vstd::prelude::*;

verus! {

/// The columns `start <= x < end`.
#[derive(Clone, Copy, Debug, PartialEq, Eq, Structural)]
pub struct ColumnRange {
    pub start: u32,
    pub end: u32,
}

impl ColumnRange {
    /// Whether column `x` belongs to the range.
    pub open spec fn contains(self, x: int) -> bool {
        self.start <= x < self.end
    }

    /// The number of columns in the range; a range that ends before it
    /// starts is empty.
    pub open spec fn spec_len(self) -> int {
        if self.start <= self.end {
            self.end - self.start
        } else {
            0
        }
    }

    /// The number of columns in the range.
    pub fn len(&self) -> (n: u32)
        ensures
            n == self.spec_len(),
    {
        if self.start <= self.end {
            self.end - self.start
        } else {
            0
        }
    }
}

/// The first column of range `i` when `width` columns are cut into `parts`
/// ranges of nearly equal size.
pub open spec fn boundary(width: int, parts: int, i: int) -> int {
    (i * width) / parts
}

/// The range with index `i` of the cut of `width` columns into `parts`.
pub open spec fn range_of(width: int, parts: int, i: int) -> ColumnRange {
    ColumnRange {
        start: boundary(width, parts, i) as u32,
        end: boundary(width, parts, i + 1) as u32,
    }
}

/// `ranges` cuts the columns `0 <= x < width` into consecutive pieces:
/// the first starts at 0, each starts where the one before ends, and the
/// last ends at `width`.
pub open spec fn tiles(ranges: Seq<ColumnRange>, width: int) -> bool {
    &&& ranges.len() >= 1
    &&& ranges[0].start == 0
    &&& ranges[ranges.len() - 1].end == width
    &&& forall|i: int| 0 <= i < ranges.len() ==> (#[trigger] ranges[i]).start <= ranges[i].end
    &&& forall|i: int|
        0 <= i < ranges.len() - 1 ==> (#[trigger] ranges[i]).end == ranges[i + 1].start
}

/// The cut points never go backwards and stay inside the grid.
pub proof fn lemma_boundary_monotone(width: int, parts: int, i: int, j: int)
    requires
        0 <= width,
        1 <= parts,
        0 <= i <= j <= parts,
    ensures
        0 <= boundary(width, parts, i) <= boundary(width, parts, j) <= width,
        boundary(width, parts, 0) == 0,
        boundary(width, parts, parts) == width,
{
    assert(0 <= i * width <= j * width <= parts * width) by (nonlinear_arith)
        requires
            0 <= width,
            0 <= i <= j <= parts,
    ;
    assert(0 <= (i * width) / parts <= (j * width) / parts <= (parts * width) / parts)
        by (nonlinear_arith)
        requires
            1 <= parts,
            0 <= i * width <= j * width <= parts * width,
    ;
    assert((parts * width) / parts == width) by (nonlinear_arith)
        requires
            1 <= parts,
    ;
    assert((0 * width) / parts == 0) by (nonlinear_arith)
        requires
            1 <= parts,
    ;
}

/// Cuts the columns of a grid `width` wide into `parts` consecutive ranges
/// whose sizes differ by at most one column.
pub fn split_columns(width: u32, parts: u32) -> (out: Vec<ColumnRange>)
    requires
        parts >= 1,
    ensures
        out@.len() == parts,
        forall|i: int|
            0 <= i < parts ==> #[trigger] out@[i] == range_of(width as int, parts as int, i),
        tiles(out@, width as int),
{
    let mut out: Vec<ColumnRange> = Vec::new();
    let mut i: u32 = 0;
    let mut start: u32 = 0;
    proof {
        lemma_boundary_monotone(width as int, parts as int, 0, 0);
    }
    while i < parts
        invariant
            parts >= 1,
            i <= parts,
            out@.len() == i,
            start == boundary(width as int, parts as int, i as int),
            forall|k: int|
                0 <= k < i ==> #[trigger] out@[k] == range_of(width as int, parts as int, k),
        decreases parts - i,
    {
        proof {
            lemma_boundary_monotone(width as int, parts as int, i as int, i + 1);
            assert((i + 1) * width <= parts * width) by (nonlinear_arith)
                requires
                    i + 1 <= parts,
                    0 <= width,
            ;
            assert(parts * width <= 0xffff_ffff * 0xffff_ffff) by (nonlinear_arith)
                requires
                    0 <= parts <= 0xffff_ffff,
                    0 <= width <= 0xffff_ffff,
            ;
        }
        let next: u64 = (i as u64 + 1) * (width as u64) / (parts as u64);
        let end: u32 = next as u32;
        out.push(ColumnRange { start, end });
        start = end;
        i = i + 1;
    }
    proof {
        assert forall|k: int| 0 <= k < out@.len() implies (#[trigger] out@[k]).start
            <= out@[k].end by {
            lemma_boundary_monotone(width as int, parts as int, k, k + 1);
        }
        assert forall|k: int| 0 <= k < out@.len() - 1 implies (#[trigger] out@[k]).end
            == out@[k + 1].start by {
            lemma_boundary_monotone(width as int, parts as int, k, k + 1);
            assert(out@[k + 1] == range_of(width as int, parts as int, k + 1));
        }
        lemma_boundary_monotone(width as int, parts as int, 0, parts as int);
        lemma_boundary_monotone(width as int, parts as int, parts - 1, parts as int);
        assert(out@[parts - 1] == range_of(width as int, parts as int, parts - 1));
        assert(out@[0] == range_of(width as int, parts as int, 0));
    }
    out
}

} // verus!
