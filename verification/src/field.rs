//! The grid of escape data that one compute pass produces.
//!
//! Real numbers are carried as their IEEE-754 binary64 encodings, so that
//! two fields can be compared bit for bit.

use vstd::prelude::*;

verus! {

/// What the iteration of one point of the plane ended with: the smoothed
/// escape count and the last iterate, each as a binary64 encoding.
#[derive(Clone, Copy, Debug, PartialEq, Eq, Structural)]
pub struct Orbit {
    pub escape: u64,
    pub z_re: u64,
    pub z_im: u64,
}

/// The escape data of the pixel in column `x` and row `y`.
#[derive(Clone, Copy, Debug, PartialEq, Eq, Structural)]
pub struct EscapePoint {
    pub x: u32,
    pub y: u32,
    pub orbit: Orbit,
}

/// Whether `(x, y)` names a pixel of a grid `width` by `height`.
pub open spec fn in_grid(width: int, height: int, x: int, y: int) -> bool {
    0 <= x < width && 0 <= y < height
}

/// The place of pixel `(x, y)` in a row-major grid `width` wide.
pub open spec fn cell_index(width: int, x: int, y: int) -> int {
    y * width + x
}

/// Pixels of the grid have places inside it, and different pixels have
/// different places.
pub proof fn lemma_cell_index(width: int, height: int, x: int, y: int)
    requires
        in_grid(width, height, x, y),
    ensures
        0 <= cell_index(width, x, y) < width * height,
        cell_index(width, x, y) / width == y,
        cell_index(width, x, y) % width == x,
{
    assert(0 <= y * width && y * width + x < width * height) by (nonlinear_arith)
        requires
            0 <= x < width,
            0 <= y < height,
    {
        assert(y * width + width <= height * width) by (nonlinear_arith)
            requires
                y + 1 <= height,
                0 <= width,
        ;
    }
    vstd::arithmetic::div_mod::lemma_fundamental_div_mod_converse(
        cell_index(width, x, y),
        width,
        y,
        x,
    );
}

/// The mathematical content of a field: its size and the pixels that hold
/// escape data, each with its data.
pub struct FieldView {
    pub width: int,
    pub height: int,
    pub cells: Map<(int, int), Orbit>,
}

impl FieldView {
    /// The field of the given size in which no pixel holds data.
    pub open spec fn blank(width: int, height: int) -> FieldView {
        FieldView { width, height, cells: Map::empty() }
    }

    /// The field after `p` was written: the pixel at `p`'s coordinates now
    /// holds `p`'s data; a point outside the grid changes nothing.
    pub open spec fn write(self, p: EscapePoint) -> FieldView {
        if in_grid(self.width, self.height, p.x as int, p.y as int) {
            FieldView { cells: self.cells.insert((p.x as int, p.y as int), p.orbit), ..self }
        } else {
            self
        }
    }

    /// The field after the points of `points` were written in order.
    pub open spec fn write_all(self, points: Seq<EscapePoint>) -> FieldView
        decreases points.len(),
    {
        if points.len() == 0 {
            self
        } else {
            self.write_all(points.drop_last()).write(points.last())
        }
    }

    /// What pixel `(x, y)` holds, if anything.
    pub open spec fn at(self, x: int, y: int) -> Option<Orbit> {
        if self.cells.dom().contains((x, y)) {
            Some(self.cells[(x, y)])
        } else {
            None
        }
    }

    /// Every pixel of the grid holds data.
    pub open spec fn complete(self) -> bool {
        forall|x: int, y: int|
            in_grid(self.width, self.height, x, y) ==> self.cells.dom().contains((x, y))
    }
}

/// Whether `p` is the data of pixel `k`.
pub open spec fn lies_at(p: EscapePoint, k: (int, int)) -> bool {
    p.x == k.0 && p.y == k.1
}

/// Whether some point of `points` is the data of pixel `k`.
pub open spec fn delivers(points: Seq<EscapePoint>, k: (int, int)) -> bool {
    exists|i: int| 0 <= i < points.len() && lies_at(#[trigger] points[i], k)
}

/// What writing a list of points does to one pixel: a pixel of the grid
/// that the list delivers ends with the data of one of its points there;
/// every other pixel is left as it was.
pub proof fn lemma_write_all_at(f: FieldView, points: Seq<EscapePoint>, k: (int, int))
    ensures
        in_grid(f.width, f.height, k.0, k.1) && delivers(points, k) ==> {
            &&& f.write_all(points).cells.dom().contains(k)
            &&& exists|i: int|
                0 <= i < points.len() && lies_at(#[trigger] points[i], k) && f.write_all(
                    points,
                ).cells[k] == points[i].orbit
        },
        !(in_grid(f.width, f.height, k.0, k.1) && delivers(points, k)) ==> {
            &&& f.write_all(points).cells.dom().contains(k) == f.cells.dom().contains(k)
            &&& f.cells.dom().contains(k) ==> f.write_all(points).cells[k] == f.cells[k]
        },
    decreases points.len(),
{
    if points.len() > 0 {
        let front = points.drop_last();
        let p = points.last();
        let mid = f.write_all(front);
        lemma_write_all_at(f, front, k);
        lemma_write_all_size(f, front);
        if in_grid(f.width, f.height, k.0, k.1) && delivers(points, k) {
            if lies_at(p, k) {
                assert(lies_at(points[points.len() - 1], k));
            } else {
                let i = choose|i: int| 0 <= i < points.len() && lies_at(#[trigger] points[i], k);
                assert(lies_at(front[i], k));
                let j = choose|j: int|
                    0 <= j < front.len() && lies_at(#[trigger] front[j], k) && mid.cells[k]
                        == front[j].orbit;
                assert(lies_at(points[j], k));
            }
        } else {
            if delivers(front, k) {
                let i = choose|i: int| 0 <= i < front.len() && lies_at(#[trigger] front[i], k);
                assert(lies_at(points[i], k));
            }
        }
    }
}

/// Writing points never changes the size of a field.
pub proof fn lemma_write_all_size(f: FieldView, points: Seq<EscapePoint>)
    ensures
        f.write_all(points).width == f.width,
        f.write_all(points).height == f.height,
    decreases points.len(),
{
    if points.len() > 0 {
        lemma_write_all_size(f, points.drop_last());
    }
}

/// Writing two lists one after the other is writing their concatenation.
pub proof fn lemma_write_all_concat(f: FieldView, a: Seq<EscapePoint>, b: Seq<EscapePoint>)
    ensures
        f.write_all(a + b) == f.write_all(a).write_all(b),
    decreases b.len(),
{
    if b.len() == 0 {
        assert(a + b =~= a);
    } else {
        lemma_write_all_concat(f, a, b.drop_last());
        assert((a + b).drop_last() =~= a + b.drop_last());
    }
}

/// No pixel is delivered with two different data.
pub open spec fn consistent(points: Seq<EscapePoint>) -> bool {
    forall|i: int, j: int|
        0 <= i < points.len() && 0 <= j < points.len() && (#[trigger] points[i]).x == (
        #[trigger] points[j]).x && points[i].y == points[j].y ==> points[i].orbit
            == points[j].orbit
}

/// The merged field does not depend on the order in which points arrive,
/// nor on how often one arrives: two lists that hold the same points, with
/// no pixel delivered twice with different data, write the same field.
pub proof fn law_merge_ignores_order(f: FieldView, a: Seq<EscapePoint>, b: Seq<EscapePoint>)
    requires
        consistent(a),
        forall|p: EscapePoint| a.contains(p) <==> b.contains(p),
    ensures
        f.write_all(a) == f.write_all(b),
{
    let ga = f.write_all(a);
    let gb = f.write_all(b);
    assert forall|k: (int, int)|
        #![trigger ga.cells.dom().contains(k)]
        #![trigger gb.cells.dom().contains(k)]
        ga.cells.dom().contains(k) == gb.cells.dom().contains(k) && (ga.cells.dom().contains(k)
            ==> ga.cells[k] == gb.cells[k]) by {
        lemma_write_all_at(f, a, k);
        lemma_write_all_at(f, b, k);
        if delivers(a, k) {
            let i = choose|i: int| 0 <= i < a.len() && lies_at(#[trigger] a[i], k);
            assert(a.contains(a[i]));
            let j = choose|j: int| 0 <= j < b.len() && b[j] == a[i];
            assert(lies_at(b[j], k));
        }
        if delivers(b, k) {
            let j = choose|j: int| 0 <= j < b.len() && lies_at(#[trigger] b[j], k);
            assert(b.contains(b[j]));
            let i = choose|i: int| 0 <= i < a.len() && a[i] == b[j];
            assert(lies_at(a[i], k));
        }
        if in_grid(f.width, f.height, k.0, k.1) && delivers(a, k) {
            let i = choose|i: int|
                0 <= i < a.len() && lies_at(#[trigger] a[i], k) && ga.cells[k] == a[i].orbit;
            let j = choose|j: int|
                0 <= j < b.len() && lies_at(#[trigger] b[j], k) && gb.cells[k] == b[j].orbit;
            assert(b.contains(b[j]));
            let m = choose|m: int| 0 <= m < a.len() && a[m] == b[j];
            assert(a[i].orbit == a[m].orbit);
        }
    }
    assert(ga.cells =~= gb.cells);
    lemma_write_all_size(f, a);
    lemma_write_all_size(f, b);
}

/// A grid of escape data, `width` by `height`. A pixel whose worker never
/// delivered holds nothing.
#[derive(Debug, PartialEq, Eq)]
pub struct FractalField {
    width: u32,
    height: u32,
    cells: Vec<Option<Orbit>>,
}

impl View for FractalField {
    type V = FieldView;

    closed spec fn view(&self) -> FieldView {
        FieldView {
            width: self.width as int,
            height: self.height as int,
            cells: Map::new(
                |k: (int, int)|
                    in_grid(self.width as int, self.height as int, k.0, k.1)
                        && self.cells@[cell_index(self.width as int, k.0, k.1)] is Some,
                |k: (int, int)| self.cells@[cell_index(self.width as int, k.0, k.1)]->Some_0,
            ),
        }
    }
}

impl FractalField {
    /// There is one cell per pixel.
    #[verifier::type_invariant]
    spec fn wf(&self) -> bool {
        self.cells@.len() == self.width * self.height
    }

    /// Only pixels of the grid hold data.
    pub proof fn lemma_cells_in_grid(&self)
        ensures
            forall|x: int, y: int|
                self@.cells.dom().contains((x, y)) ==> in_grid(self@.width, self@.height, x, y),
            0 <= self@.width <= u32::MAX,
            0 <= self@.height <= u32::MAX,
    {
    }

    /// A field of the given size with no data yet, or `None` when a grid of
    /// that size cannot be addressed on this machine.
    pub fn new(width: u32, height: u32) -> (out: Option<FractalField>)
        ensures
            out is Some <==> width * height <= usize::MAX,
            out is Some ==> out->Some_0@ == FieldView::blank(width as int, height as int),
    {
        assert(width * height <= 0xffff_ffff * 0xffff_ffff) by (nonlinear_arith)
            requires
                0 <= width <= 0xffff_ffff,
                0 <= height <= 0xffff_ffff,
        ;
        let total: u64 = (width as u64) * (height as u64);
        if total > usize::MAX as u64 {
            return None;
        }
        let n: usize = total as usize;
        let mut cells: Vec<Option<Orbit>> = Vec::new();
        let mut i: usize = 0;
        while i < n
            invariant
                i <= n,
                cells@.len() == i,
                forall|k: int| 0 <= k < i ==> cells@[k] is None,
            decreases n - i,
        {
            cells.push(None);
            i = i + 1;
        }
        let field = FractalField { width, height, cells };
        proof {
            assert forall|k: (int, int)| !(#[trigger] field@.cells.dom().contains(k)) by {
                if in_grid(width as int, height as int, k.0, k.1) {
                    lemma_cell_index(width as int, height as int, k.0, k.1);
                }
            }
            assert(field@.cells =~= Map::<(int, int), Orbit>::empty());
        }
        Some(field)
    }

    /// The number of columns.
    pub fn width(&self) -> (w: u32)
        ensures
            w == self@.width,
    {
        self.width
    }

    /// The number of rows.
    pub fn height(&self) -> (h: u32)
        ensures
            h == self@.height,
    {
        self.height
    }

    /// The data of pixel `(x, y)`: `None` outside the grid and where
    /// nothing was written.
    pub fn get(&self, x: u32, y: u32) -> (out: Option<Orbit>)
        ensures
            out is Some <==> self@.cells.dom().contains((x as int, y as int)),
            out is Some ==> out->Some_0 == self@.cells[(x as int, y as int)],
    {
        if x < self.width && y < self.height {
            let i: usize = self.place(x, y);
            self.cells[i]
        } else {
            None
        }
    }

    /// Writes `p` into the field. Returns whether `p` lies in the grid; a
    /// point outside it is dropped.
    pub fn insert(&mut self, p: EscapePoint) -> (inside: bool)
        ensures
            final(self)@ == old(self)@.write(p),
            inside == in_grid(old(self)@.width, old(self)@.height, p.x as int, p.y as int),
    {
        if p.x < self.width && p.y < self.height {
            let i: usize = self.place(p.x, p.y);
            let ghost before = *self;
            proof {
                use_type_invariant(&*self);
            }
            self.cells[i] = Some(p.orbit);
            proof {
                let w = self.width as int;
                let h = self.height as int;
                lemma_cell_index(w, h, p.x as int, p.y as int);
                let target = before@.cells.insert((p.x as int, p.y as int), p.orbit);
                assert forall|k: (int, int)|
                    self@.cells.dom().contains(k) == #[trigger] target.dom().contains(k) && (
                    self@.cells.dom().contains(k) ==> self@.cells[k] == target[k]) by {
                    if in_grid(w, h, k.0, k.1) {
                        lemma_cell_index(w, h, k.0, k.1);
                    }
                }
                assert(self@.cells =~= before@.cells.insert((p.x as int, p.y as int), p.orbit));
            }
            true
        } else {
            false
        }
    }

    /// Writes the points of one worker's list, in order.
    pub fn absorb(&mut self, points: &Vec<EscapePoint>)
        ensures
            final(self)@ == old(self)@.write_all(points@),
    {
        let mut i: usize = 0;
        while i < points.len()
            invariant
                i <= points@.len(),
                self@ == old(self)@.write_all(points@.take(i as int)),
            decreases points@.len() - i,
        {
            let p: EscapePoint = points[i];
            self.insert(p);
            proof {
                assert(points@.take(i + 1).drop_last() =~= points@.take(i as int));
            }
            i = i + 1;
        }
        proof {
            assert(points@.take(i as int) =~= points@);
        }
    }

    /// Whether every pixel of the grid holds data.
    pub fn is_complete(&self) -> (out: bool)
        ensures
            out == self@.complete(),
    {
        proof {
            use_type_invariant(self);
        }
        let mut i: usize = 0;
        while i < self.cells.len()
            invariant
                i <= self.cells@.len(),
                self.wf(),
                forall|k: int| 0 <= k < i ==> self.cells@[k] is Some,
            decreases self.cells@.len() - i,
        {
            if self.cells[i].is_none() {
                proof {
                    self.lemma_place_is_pixel(i as int);
                    let x = i as int % (self.width as int);
                    let y = i as int / (self.width as int);
                    assert(in_grid(self@.width, self@.height, x, y));
                    assert(!self@.cells.dom().contains((x, y)));
                }
                return false;
            }
            i = i + 1;
        }
        proof {
            assert forall|x: int, y: int|
                in_grid(self@.width, self@.height, x, y) implies self@.cells.dom().contains(
                (x, y),
            ) by {
                lemma_cell_index(self.width as int, self.height as int, x, y);
            }
        }
        true
    }

    /// Every cell is the place of a pixel of the grid.
    proof fn lemma_place_is_pixel(&self, i: int)
        requires
            self.wf(),
            0 <= i < self.cells@.len(),
        ensures
            in_grid(self.width as int, self.height as int, i % (self.width as int), i / (
                self.width as int
            )),
            cell_index(self.width as int, i % (self.width as int), i / (self.width as int)) == i,
    {
        let w = self.width as int;
        let h = self.height as int;
        assert(w > 0) by (nonlinear_arith)
            requires
                0 <= w,
                0 <= i < w * h,
        ;
        vstd::arithmetic::div_mod::lemma_fundamental_div_mod(i, w);
        vstd::arithmetic::div_mod::lemma_mod_bound(i, w);
        assert(0 <= i / w < h) by (nonlinear_arith)
            requires
                0 <= i < w * h,
                w > 0,
                i == w * (i / w) + i % w,
                0 <= i % w < w,
        ;
        assert((i / w) * w == w * (i / w)) by (nonlinear_arith);
    }

    /// What the pixel at place `i` holds, counting row by row.
    pub fn cell(&self, i: usize) -> (out: Option<Orbit>)
        requires
            i < self@.width * self@.height,
        ensures
            out == self@.at(i as int % self@.width, i as int / self@.width),
    {
        proof {
            use_type_invariant(self);
            self.lemma_place_is_pixel(i as int);
        }
        self.cells[i]
    }

    /// The place of a pixel of the grid among the cells.
    fn place(&self, x: u32, y: u32) -> (i: usize)
        requires
            in_grid(self.width as int, self.height as int, x as int, y as int),
        ensures
            i == cell_index(self.width as int, x as int, y as int),
            i < self.cells@.len(),
    {
        let n: usize = self.cells.len();
        proof {
            use_type_invariant(self);
            lemma_cell_index(self.width as int, self.height as int, x as int, y as int);
            assert(0 <= y * self.width <= y * self.width + x) by (nonlinear_arith)
                requires
                    0 <= y,
                    0 <= self.width,
                    0 <= x,
            ;
        }
        (y as usize) * (self.width as usize) + (x as usize)
    }
}

} // verus!
