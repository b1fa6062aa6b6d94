//! The compute pass: every partition is solved on its own, and the lists
//! that come back are merged into one field.

use vstd::prelude::*;
use crate::field::{
    delivers, in_grid, lemma_write_all_at, lemma_write_all_concat, lemma_write_all_size, lies_at,
    EscapePoint, FieldView, FractalField, Orbit,
};
use crate::partition::{split_columns, tiles, ColumnRange};

verus! {

/// `points` is what a worker owes for `range`: one point per pixel of
/// the range, column after column and top to bottom within a column, each
/// with data that `solve` can return for its pixel.
pub open spec fn solved_by<F: Fn(u32, u32) -> Orbit>(
    points: Seq<EscapePoint>,
    range: ColumnRange,
    height: int,
    solve: &F,
) -> bool {
    &&& points.len() == range.spec_len() * height
    &&& forall|i: int|
        0 <= i < points.len() ==> {
            &&& (#[trigger] points[i]).x == range.start + i / height
            &&& points[i].y == i % height
            &&& call_ensures(solve, (points[i].x, points[i].y), points[i].orbit)
        }
}

/// Solves every pixel of one column range.
pub fn compute_partition<F: Fn(u32, u32) -> Orbit>(
    range: ColumnRange,
    height: u32,
    solve: &F,
) -> (out: Vec<EscapePoint>)
    requires
        forall|x: u32, y: u32| range.contains(x as int) && y < height ==> call_requires(solve, (x, y)),
    ensures
        solved_by(out@, range, height as int, solve),
{
    let mut out: Vec<EscapePoint> = Vec::new();
    let mut x: u32 = range.start;
    while x < range.end
        invariant
            range.start <= x,
            range.start <= range.end ==> x <= range.end,
            range.start > range.end ==> x == range.start,
            forall|x: u32, y: u32|
                range.contains(x as int) && y < height ==> call_requires(solve, (x, y)),
            out@.len() == (x - range.start) * height,
            forall|i: int|
                0 <= i < out@.len() ==> {
                    &&& (#[trigger] out@[i]).x == range.start + i / (height as int)
                    &&& out@[i].y == i % (height as int)
                    &&& call_ensures(solve, (out@[i].x, out@[i].y), out@[i].orbit)
                },
        decreases range.end - x,
    {
        let mut y: u32 = 0;
        while y < height
            invariant
                range.start <= x < range.end,
                y <= height,
                forall|x: u32, y: u32|
                    range.contains(x as int) && y < height ==> call_requires(solve, (x, y)),
                out@.len() == (x - range.start) * height + y,
                forall|i: int|
                    0 <= i < out@.len() ==> {
                        &&& (#[trigger] out@[i]).x == range.start + i / (height as int)
                        &&& out@[i].y == i % (height as int)
                        &&& call_ensures(solve, (out@[i].x, out@[i].y), out@[i].orbit)
                    },
            decreases height - y,
        {
            let orbit: Orbit = solve(x, y);
            proof {
                vstd::arithmetic::div_mod::lemma_fundamental_div_mod_converse(
                    (x - range.start) * height + y,
                    height as int,
                    (x - range.start) as int,
                    y as int,
                );
            }
            out.push(EscapePoint { x, y, orbit });
            y = y + 1;
        }
        proof {
            assert((x - range.start) * height + height == (x + 1 - range.start) * height)
                by (nonlinear_arith);
        }
        x = x + 1;
    }
    proof {
        assert(range.spec_len() == x - range.start);
    }
    out
}

/// The lists of all workers, one after the other.
pub open spec fn gathered(parts: Seq<Vec<EscapePoint>>) -> Seq<EscapePoint>
    decreases parts.len(),
{
    if parts.len() == 0 {
        Seq::empty()
    } else {
        gathered(parts.drop_last()) + parts.last()@
    }
}

/// Merges the lists that the workers returned into one field of the given
/// size, writing each point at its coordinates. Returns `None` when a grid
/// of that size cannot be addressed on this machine.
pub fn merge(width: u32, height: u32, parts: &Vec<Vec<EscapePoint>>) -> (out: Option<
    FractalField,
>)
    ensures
        out is Some <==> width * height <= usize::MAX,
        out is Some ==> out->Some_0@ == FieldView::blank(width as int, height as int).write_all(
            gathered(parts@),
        ),
{
    let mut field: FractalField = match FractalField::new(width, height) {
        Some(f) => f,
        None => {
            return None;
        },
    };
    let ghost blank = FieldView::blank(width as int, height as int);
    let mut i: usize = 0;
    assert(parts@.take(0) =~= Seq::<Vec<EscapePoint>>::empty());
    while i < parts.len()
        invariant
            i <= parts@.len(),
            field@ == blank.write_all(gathered(parts@.take(i as int))),
        decreases parts@.len() - i,
    {
        field.absorb(&parts[i]);
        proof {
            let next = parts@.take(i + 1);
            assert(next.drop_last() =~= parts@.take(i as int));
            assert(next.last() == parts@[i as int]);
            lemma_write_all_concat(blank, gathered(parts@.take(i as int)), parts@[i as int]@);
        }
        i = i + 1;
    }
    assert(parts@.take(i as int) =~= parts@);
    Some(field)
}

/// The pixels in the columns before `done` hold data that `solve` can
/// return for them, and no other pixel holds any.
pub open spec fn covered<F: Fn(u32, u32) -> Orbit>(f: FieldView, done: int, solve: &F) -> bool {
    &&& forall|k: (int, int)| #[trigger]
        f.cells.dom().contains(k) <==> in_grid(done, f.height, k.0, k.1)
    &&& forall|x: u32, y: u32|
        in_grid(done, f.height, x as int, y as int) ==> call_ensures(
            solve,
            (x, y),
            #[trigger] f.cells[(x as int, y as int)],
        )
}

/// `f` is a full field of the given size in which every pixel holds data
/// that `solve` can return for it.
pub open spec fn computed_by<F: Fn(u32, u32) -> Orbit>(
    f: FieldView,
    width: int,
    height: int,
    solve: &F,
) -> bool {
    &&& f.width == width
    &&& f.height == height
    &&& covered(f, width, solve)
}

/// A worker's list delivers the pixels of its range, and no others.
pub proof fn lemma_solved_delivers<F: Fn(u32, u32) -> Orbit>(
    points: Seq<EscapePoint>,
    range: ColumnRange,
    height: int,
    solve: &F,
    k: (int, int),
)
    requires
        solved_by(points, range, height, solve),
        0 <= height,
    ensures
        delivers(points, k) <==> range.contains(k.0) && 0 <= k.1 < height,
{
    if range.contains(k.0) && 0 <= k.1 < height {
        let i = (k.0 - range.start) * height + k.1;
        vstd::arithmetic::div_mod::lemma_fundamental_div_mod_converse(
            i,
            height,
            k.0 - range.start,
            k.1,
        );
        assert(0 <= i < (range.end - range.start) * height) by (nonlinear_arith)
            requires
                i == (k.0 - range.start) * height + k.1,
                0 <= k.0 - range.start < range.end - range.start,
                0 <= k.1 < height,
        ;
        assert(lies_at(points[i], k));
    }
    if delivers(points, k) {
        let i = choose|i: int| 0 <= i < points.len() && lies_at(#[trigger] points[i], k);
        assert(height > 0) by (nonlinear_arith)
            requires
                0 <= i < (range.end - range.start) * height,
                0 <= height,
        ;
        vstd::arithmetic::div_mod::lemma_fundamental_div_mod(i, height);
        vstd::arithmetic::div_mod::lemma_mod_bound(i, height);
        assert(0 <= i / height < range.end - range.start) by (nonlinear_arith)
            requires
                0 <= i < (range.end - range.start) * height,
                height > 0,
                i == height * (i / height) + i % height,
                0 <= i % height < height,
        ;
    }
}

/// Writing the list of the next range extends what is solved by that
/// range.
pub proof fn lemma_absorb_solved<F: Fn(u32, u32) -> Orbit>(
    f: FieldView,
    points: Seq<EscapePoint>,
    range: ColumnRange,
    solve: &F,
)
    requires
        covered(f, range.start as int, solve),
        solved_by(points, range, f.height, solve),
        range.start <= range.end <= f.width,
        0 <= f.height,
    ensures
        f.write_all(points).width == f.width,
        f.write_all(points).height == f.height,
        covered(f.write_all(points), range.end as int, solve),
{
    let after = f.write_all(points);
    lemma_write_all_size(f, points);
    assert forall|k: (int, int)| #[trigger]
        after.cells.dom().contains(k) <==> in_grid(range.end as int, f.height, k.0, k.1) by {
        lemma_write_all_at(f, points, k);
        lemma_solved_delivers(points, range, f.height, solve, k);
    }
    assert forall|x: u32, y: u32|
        in_grid(range.end as int, f.height, x as int, y as int) implies call_ensures(
        solve,
        (x, y),
        #[trigger] after.cells[(x as int, y as int)],
    ) by {
        let k = (x as int, y as int);
        lemma_write_all_at(f, points, k);
        lemma_solved_delivers(points, range, f.height, solve, k);
        if delivers(points, k) {
            let j = choose|j: int|
                0 <= j < points.len() && lies_at(#[trigger] points[j], k) && after.cells[k]
                    == points[j].orbit;
            assert(points[j].x == x && points[j].y == y);
        } else {
            assert(f.cells.dom().contains(k));
        }
    }
}

/// Merging the lists that the workers owe for the ranges of a tiling gives
/// a full field of solved pixels, whatever the tiling.
pub proof fn lemma_merge_of_solved<F: Fn(u32, u32) -> Orbit>(
    width: int,
    height: int,
    ranges: Seq<ColumnRange>,
    parts: Seq<Vec<EscapePoint>>,
    solve: &F,
)
    requires
        0 <= height,
        tiles(ranges, width),
        parts.len() == ranges.len(),
        forall|i: int|
            0 <= i < ranges.len() ==> solved_by((#[trigger] parts[i])@, ranges[i], height, solve),
    ensures
        computed_by(FieldView::blank(width, height).write_all(gathered(parts)), width, height, solve),
{
    lemma_merge_prefix(width, height, ranges, parts, solve, ranges.len() as int);
    assert(parts.take(ranges.len() as int) =~= parts);
}

/// After the lists of the first `n` ranges, the columns of those ranges
/// are solved.
proof fn lemma_merge_prefix<F: Fn(u32, u32) -> Orbit>(
    width: int,
    height: int,
    ranges: Seq<ColumnRange>,
    parts: Seq<Vec<EscapePoint>>,
    solve: &F,
    n: int,
)
    requires
        0 <= height,
        tiles(ranges, width),
        parts.len() == ranges.len(),
        forall|i: int|
            0 <= i < ranges.len() ==> solved_by((#[trigger] parts[i])@, ranges[i], height, solve),
        1 <= n <= ranges.len(),
    ensures
        FieldView::blank(width, height).write_all(gathered(parts.take(n))).width == width,
        FieldView::blank(width, height).write_all(gathered(parts.take(n))).height == height,
        covered(
            FieldView::blank(width, height).write_all(gathered(parts.take(n))),
            ranges[n - 1].end as int,
            solve,
        ),
    decreases n,
{
    let blank = FieldView::blank(width, height);
    let front = gathered(parts.take(n - 1));
    assert(parts.take(n).drop_last() =~= parts.take(n - 1));
    assert(parts.take(n).last() == parts[n - 1]);
    lemma_write_all_concat(blank, front, parts[n - 1]@);
    lemma_tiles_bounds(ranges, width, n - 1);
    if n == 1 {
        assert(parts.take(0) =~= Seq::<Vec<EscapePoint>>::empty());
        assert(covered(blank, 0, solve));
    } else {
        lemma_merge_prefix(width, height, ranges, parts, solve, n - 1);
        assert(ranges[n - 2].end == ranges[n - 2 + 1].start);
    }
    lemma_absorb_solved(blank.write_all(front), parts[n - 1]@, ranges[n - 1], solve);
}

/// The whole compute pass, one partition after the other: cuts the grid
/// into `parts` column ranges, solves each, and merges the lists. Returns
/// `None` when a grid of that size cannot be addressed on this machine.
pub fn compute<F: Fn(u32, u32) -> Orbit>(width: u32, height: u32, parts: u32, solve: &F) -> (out:
    Option<FractalField>)
    requires
        parts >= 1,
        forall|x: u32, y: u32| x < width && y < height ==> call_requires(solve, (x, y)),
    ensures
        out is Some <==> width * height <= usize::MAX,
        out is Some ==> computed_by(out->Some_0@, width as int, height as int, solve),
{
    let mut field: FractalField = match FractalField::new(width, height) {
        Some(f) => f,
        None => {
            return None;
        },
    };
    let ranges: Vec<ColumnRange> = split_columns(width, parts);
    let mut i: usize = 0;
    while i < ranges.len()
        invariant
            i <= ranges@.len(),
            tiles(ranges@, width as int),
            forall|x: u32, y: u32| x < width && y < height ==> call_requires(solve, (x, y)),
            field@.width == width,
            field@.height == height,
            i < ranges@.len() ==> covered(field@, ranges@[i as int].start as int, solve),
            i == ranges@.len() ==> covered(field@, width as int, solve),
        decreases ranges@.len() - i,
    {
        let range: ColumnRange = ranges[i];
        proof {
            lemma_tiles_bounds(ranges@, width as int, i as int);
        }
        let list: Vec<EscapePoint> = compute_partition(range, height, solve);
        let ghost before = field@;
        field.absorb(&list);
        proof {
            lemma_absorb_solved(before, list@, range, solve);
        }
        i = i + 1;
    }
    Some(field)
}

/// Each range of a tiling lies inside the grid.
pub proof fn lemma_tiles_bounds(ranges: Seq<ColumnRange>, width: int, i: int)
    requires
        tiles(ranges, width),
        0 <= i < ranges.len(),
    ensures
        0 <= ranges[i].start <= ranges[i].end <= width,
    decreases ranges.len() - i,
{
    if i < ranges.len() - 1 {
        lemma_tiles_bounds(ranges, width, i + 1);
    }
}

/// `solve` returns one value for each pixel: whatever it can return for
/// a pixel, it returns every time.
pub open spec fn deterministic<F: Fn(u32, u32) -> Orbit>(solve: &F) -> bool {
    forall|x: u32, y: u32, o1: Orbit, o2: Orbit|
        #![trigger call_ensures(solve, (x, y), o1), call_ensures(solve, (x, y), o2)]
        call_ensures(solve, (x, y), o1) && call_ensures(solve, (x, y), o2) ==> o1 == o2
}

/// Two compute passes over the same grid with the same deterministic
/// solver yield the same field, bit for bit.
pub proof fn law_passes_agree<F: Fn(u32, u32) -> Orbit>(
    width: int,
    height: int,
    solve: &F,
    a: FieldView,
    b: FieldView,
)
    requires
        0 <= width <= u32::MAX,
        0 <= height <= u32::MAX,
        deterministic(solve),
        computed_by(a, width, height, solve),
        computed_by(b, width, height, solve),
    ensures
        a == b,
{
    assert forall|k: (int, int)|
        #![trigger a.cells.dom().contains(k)]
        #![trigger b.cells.dom().contains(k)]
        a.cells.dom().contains(k) == b.cells.dom().contains(k) && (a.cells.dom().contains(k)
            ==> a.cells[k] == b.cells[k]) by {
        if a.cells.dom().contains(k) {
            let x = k.0 as u32;
            let y = k.1 as u32;
            assert(call_ensures(solve, (x, y), a.cells[(x as int, y as int)]));
            assert(call_ensures(solve, (x, y), b.cells[(x as int, y as int)]));
        }
    }
    assert(a.cells =~= b.cells);
}

/// The number and the shape of the partitions never change the result:
/// the lists owed for any two tilings of the same grid, solved by the same
/// deterministic solver, merge into the same field.
pub proof fn law_partition_invariance<F: Fn(u32, u32) -> Orbit>(
    width: int,
    height: int,
    solve: &F,
    ranges_a: Seq<ColumnRange>,
    parts_a: Seq<Vec<EscapePoint>>,
    ranges_b: Seq<ColumnRange>,
    parts_b: Seq<Vec<EscapePoint>>,
)
    requires
        0 <= width <= u32::MAX,
        0 <= height <= u32::MAX,
        deterministic(solve),
        tiles(ranges_a, width),
        parts_a.len() == ranges_a.len(),
        forall|i: int|
            0 <= i < ranges_a.len() ==> solved_by(
                (#[trigger] parts_a[i])@,
                ranges_a[i],
                height,
                solve,
            ),
        tiles(ranges_b, width),
        parts_b.len() == ranges_b.len(),
        forall|i: int|
            0 <= i < ranges_b.len() ==> solved_by(
                (#[trigger] parts_b[i])@,
                ranges_b[i],
                height,
                solve,
            ),
    ensures
        FieldView::blank(width, height).write_all(gathered(parts_a)) == FieldView::blank(
            width,
            height,
        ).write_all(gathered(parts_b)),
{
    lemma_merge_of_solved(width, height, ranges_a, parts_a, solve);
    lemma_merge_of_solved(width, height, ranges_b, parts_b, solve);
    law_passes_agree(
        width,
        height,
        solve,
        FieldView::blank(width, height).write_all(gathered(parts_a)),
        FieldView::blank(width, height).write_all(gathered(parts_b)),
    );
}

} // verus!
