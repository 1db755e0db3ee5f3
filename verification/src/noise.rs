//! The noise field: a dense grid of independent draws from `[0, 1)`, read
//! as if it repeated forever in both directions.

use vstd::prelude::*;
use vstd::arithmetic::div_mod::{lemma_mod_add_multiples_vanish, lemma_small_mod};
use crate::binary64::in_unit_interval;
use crate::error::InvalidParameter;
use crate::grid::{lemma_row_major_in_bounds, row_major};

verus! {

/// The index that coordinate `i` lands on in a ring of `n` cells.
pub open spec fn wrap(i: int, n: int) -> int {
    (i + n) % n
}

/// The index one step before `i` in a ring of `n` cells.
pub open spec fn step_back(i: int, n: int) -> int {
    (i + n - 1) % n
}

/// What a noise field is: its dimensions and its cells, row by row, each the
/// binary64 encoding of a number in `[0, 1)`.
pub struct NoiseModel {
    pub width: nat,
    pub height: nat,
    pub cells: Seq<u64>,
}

impl NoiseModel {
    /// Both dimensions are positive, there is one cell per grid position and
    /// every cell lies in `[0, 1)`.
    pub open spec fn wf(self) -> bool {
        &&& self.width > 0
        &&& self.height > 0
        &&& self.cells.len() == self.width * self.height
        &&& forall|i: int| 0 <= i < self.cells.len() ==> in_unit_interval(#[trigger] self.cells[i])
    }

    /// The cell in row `row`, column `col`.
    pub open spec fn cell(self, row: int, col: int) -> u64 {
        self.cells[row_major(self.width as int, col, row)]
    }

    /// The four cells around the point whose integer coordinates are
    /// `(col, row)`: the cell the point wraps onto and its neighbours one
    /// step back along each axis. They are listed in the order in which a
    /// point with fractional parts `fx`, `fy` weighs them:
    /// `fx * fy`, `(1 - fx) * fy`, `fx * (1 - fy)`, `(1 - fx) * (1 - fy)`.
    pub open spec fn corners(self, col: int, row: int) -> Seq<u64> {
        let x1 = wrap(col, self.width as int);
        let y1 = wrap(row, self.height as int);
        let x2 = step_back(x1, self.width as int);
        let y2 = step_back(y1, self.height as int);
        seq![self.cell(y1, x1), self.cell(y1, x2), self.cell(y2, x1), self.cell(y2, x2)]
    }
}

/// Wrapping lands inside the ring, and so does the step back from there.
pub proof fn lemma_wrap_in_range(i: int, n: int)
    requires
        0 <= i,
        0 < n,
    ensures
        wrap(i, n) == i % n,
        0 <= wrap(i, n) < n,
        0 <= step_back(wrap(i, n), n) < n,
        step_back(wrap(i, n), n) == if wrap(i, n) == 0 {
            n - 1
        } else {
            wrap(i, n) - 1
        },
{
    lemma_mod_add_multiples_vanish(i, n);
    let w = wrap(i, n);
    if w == 0 {
        lemma_small_mod((n - 1) as nat, n as nat);
    } else {
        lemma_mod_add_multiples_vanish(w - 1, n);
        lemma_small_mod((w - 1) as nat, n as nat);
    }
}

/// The field is periodic: moving a point by a whole width, or a whole
/// height, leaves its four corner cells unchanged. In particular the
/// corners at column `width` are those at column 0.
pub proof fn lemma_corners_periodic(field: NoiseModel, col: int, row: int)
    requires
        field.wf(),
        0 <= col,
        0 <= row,
    ensures
        field.corners(col + field.width, row) == field.corners(col, row),
        field.corners(col, row + field.height) == field.corners(col, row),
{
    lemma_mod_add_multiples_vanish(col + field.width, field.width as int);
    lemma_mod_add_multiples_vanish(row + field.height, field.height as int);
}

/// A noise field. Cells are kept as binary64 encodings, row by row.
pub struct Noise {
    width: usize,
    height: usize,
    data: Vec<u64>,
}

impl View for Noise {
    type V = NoiseModel;

    closed spec fn view(&self) -> NoiseModel {
        NoiseModel { width: self.width as nat, height: self.height as nat, cells: self.data@ }
    }
}

impl Noise {
    #[verifier::type_invariant]
    spec fn inv(&self) -> bool {
        self@.wf()
    }

    /// Builds a `width` by `height` field, filling every cell with its own
    /// draw from `source`, which yields encodings of numbers in `[0, 1)`.
    /// Fails if either dimension is zero.
    pub fn build<F: Fn() -> u64>(width: usize, height: usize, source: F) -> (r: Result<
        Noise,
        InvalidParameter,
    >)
        requires
            width * height <= usize::MAX,
            call_requires(source, ()),
            forall|v: u64| call_ensures(source, (), v) ==> in_unit_interval(v),
        ensures
            r is Err <==> width == 0 || height == 0,
            r matches Ok(field) ==> {
                &&& field@.wf()
                &&& field@.width == width
                &&& field@.height == height
                &&& forall|i: int|
                    0 <= i < field@.cells.len() ==> call_ensures(
                        source,
                        (),
                        #[trigger] field@.cells[i],
                    )
            },
    {
        if width == 0 || height == 0 {
            return Err(InvalidParameter);
        }
        let total: usize = width * height;
        let mut data: Vec<u64> = Vec::new();
        while data.len() < total
            invariant
                data@.len() <= total,
                call_requires(source, ()),
                forall|v: u64| call_ensures(source, (), v) ==> in_unit_interval(v),
                forall|i: int| 0 <= i < data@.len() ==> call_ensures(source, (), #[trigger] data@[i]),
            decreases total - data@.len(),
        {
            let drawn = source();
            data.push(drawn);
        }
        Ok(Noise { width, height, data })
    }

    /// Number of columns.
    pub fn width(&self) -> (w: usize)
        ensures
            w == self@.width,
            self@.wf(),
    {
        proof {
            use_type_invariant(self);
        }
        self.width
    }

    /// Number of rows.
    pub fn height(&self) -> (h: usize)
        ensures
            h == self@.height,
            self@.wf(),
    {
        proof {
            use_type_invariant(self);
        }
        self.height
    }

    /// The cell in row `row`, column `col`.
    pub fn get(&self, row: usize, col: usize) -> (cell: u64)
        requires
            row < self@.height,
            col < self@.width,
        ensures
            cell == self@.cell(row as int, col as int),
            in_unit_interval(cell),
    {
        proof {
            use_type_invariant(self);
            lemma_row_major_in_bounds(self.width as int, self.height as int, col as int, row as int);
            assert(row * self.width == row as int * self.width as int) by (nonlinear_arith);
            assert(self.data@.len() == self.data.len());
        }
        self.data[row * self.width + col]
    }

    /// The four cells that a smooth sample at integer coordinates
    /// `(col, row)` blends, wrapped around the edges of the field.
    pub fn corners(&self, col: usize, row: usize) -> (cells: [u64; 4])
        ensures
            cells@ == self@.corners(col as int, row as int),
            forall|k: int| 0 <= k < 4 ==> in_unit_interval(#[trigger] cells@[k]),
    {
        proof {
            use_type_invariant(self);
            lemma_wrap_in_range(col as int, self.width as int);
            lemma_wrap_in_range(row as int, self.height as int);
        }
        let x1 = col % self.width;
        let y1 = row % self.height;
        let x2 = if x1 == 0 {
            self.width - 1
        } else {
            x1 - 1
        };
        let y2 = if y1 == 0 {
            self.height - 1
        } else {
            y1 - 1
        };
        let cells = [self.get(y1, x1), self.get(y1, x2), self.get(y2, x1), self.get(y2, x2)];
        assert(cells@ =~= self@.corners(col as int, row as int));
        cells
    }
}

} // verus!
