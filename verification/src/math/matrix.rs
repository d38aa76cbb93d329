use vstd::prelude::*;

verus! {

broadcast use vstd::slice::axiom_spec_len;

/// Largest cell magnitude under which a product of two matrices cannot
/// overflow a 64-bit cell.
pub const CELL_LIMIT: i64 = 1_000_000_000;

/// A square matrix of integer scalars.
pub trait Matrix: Sized {
    /// The number of rows and columns.
    spec fn order() -> int;

    /// The cell at `(row, col)`, as contracts see it.
    spec fn spec_get(&self, row: int, col: int) -> i64;

    /// Gets the element at the given index.
    fn get(&self, row: usize, col: usize) -> (v: i64)
        requires
            row < Self::order(),
            col < Self::order(),
        ensures
            v == self.spec_get(row as int, col as int),
    ;

    /// Sets a value inside the matrix.
    fn set(&mut self, row: usize, col: usize, val: i64)
        requires
            row < Self::order(),
            col < Self::order(),
        ensures
            final (self).spec_get(row as int, col as int) == val,
            forall|r: int, c: int|
                0 <= r < Self::order() && 0 <= c < Self::order() && !(r == row && c == col)
                    ==> #[trigger] final (self).spec_get(r, c) == old(self).spec_get(r, c),
    ;

    /// Gets the identity matrix.
    fn identity() -> (m: Self)
        ensures
            forall|r: int, c: int|
                0 <= r < Self::order() && 0 <= c < Self::order() ==> #[trigger] m.spec_get(r, c)
                    == if r == c {
                    1i64
                } else {
                    0i64
                },
    ;

    /// A view of one row.
    fn row<'a>(&'a self, num: usize) -> (r: Row<'a, i64>)
        requires
            num < Self::order(),
        ensures
            r.wf(),
            r.spec_width() == Self::order(),
            forall|c: int| 0 <= c < Self::order() ==> #[trigger] r.spec_cell(c) == self.spec_get(
                num as int,
                c,
            ),
    ;

    /// A view of one column.
    fn col<'a>(&'a self, num: usize) -> (r: Column<'a, i64>)
        requires
            num < Self::order(),
        ensures
            r.wf(),
            r.spec_height() == Self::order(),
            forall|w: int| 0 <= w < Self::order() ==> #[trigger] r.spec_cell(w) == self.spec_get(
                w,
                num as int,
            ),
    ;
}

/// A row of a matrix: a view into its cell slice.
#[derive(Clone, Copy)]
pub struct Row<'a, T> {
    cells: &'a [T],
    row_num: usize,
    width: usize,
}

impl<'a, T: Copy> Row<'a, T> {
    pub closed spec fn spec_width(&self) -> int {
        self.width as int
    }

    /// The row fits inside the cell slice.
    pub closed spec fn wf(&self) -> bool {
        (self.row_num + 1) * self.width <= self.cells@.len()
    }

    /// The cell in column `c` of this row.
    pub closed spec fn spec_cell(&self, c: int) -> T {
        self.cells@[self.row_num * self.width + c]
    }

    pub fn new(cells: &'a [T], row_num: usize, width: usize) -> (r: Self)
        requires
            (row_num + 1) * width <= cells@.len(),
        ensures
            r.wf(),
            r.spec_width() == width,
            forall|c: int| 0 <= c < width ==> #[trigger] r.spec_cell(c) == cells@[row_num * width
                + c],
    {
        Row { cells, row_num, width }
    }

    /// An iterator over the row's cells.
    pub fn iter(&self) -> (it: Iter<'a, T>)
        requires
            self.wf(),
        ensures
            it.wf(),
            it.spec_remaining() == self.spec_width(),
            forall|c: int| 0 <= c < self.spec_width() ==> #[trigger] it.spec_cell(c)
                == self.spec_cell(c),
    {
        proof {
            assert(self.cells@.len() <= usize::MAX) by {
                assert(vstd::slice::spec_slice_len(self.cells) == self.cells@.len());
            }
            assert(self.row_num * self.width + self.width <= self.cells@.len())
                by (nonlinear_arith)
                requires
                    (self.row_num + 1) * self.width <= self.cells@.len(),
            ;
            assert(self.row_num * self.width >= 0) by (nonlinear_arith);
        }
        Iter { cells: self.cells, cur: self.row_num * self.width, step: 1, left: self.width }
    }
}

/// A column of a matrix: a view into its cell slice.
#[derive(Clone, Copy)]
pub struct Column<'a, T> {
    cells: &'a [T],
    col_num: usize,
    width: usize,
    height: usize,
}

impl<'a, T: Copy> Column<'a, T> {
    pub closed spec fn spec_height(&self) -> int {
        self.height as int
    }

    /// The column fits inside the cell slice.
    pub closed spec fn wf(&self) -> bool {
        &&& self.height * self.width <= self.cells@.len()
        &&& self.col_num < self.width
    }

    /// The cell in row `w` of this column.
    pub closed spec fn spec_cell(&self, w: int) -> T {
        self.cells@[w * self.width + self.col_num]
    }

    pub fn new(cells: &'a [T], col_num: usize, width: usize, height: usize) -> (r: Self)
        requires
            height * width <= cells@.len(),
            col_num < width,
        ensures
            r.wf(),
            r.spec_height() == height,
            forall|w: int| 0 <= w < height ==> #[trigger] r.spec_cell(w) == cells@[w * width
                + col_num],
    {
        Column { cells, col_num, width, height }
    }

    /// An iterator over the column's cells.
    pub fn iter(&self) -> (it: Iter<'a, T>)
        requires
            self.wf(),
        ensures
            it.wf(),
            it.spec_remaining() == self.spec_height(),
            forall|w: int| 0 <= w < self.spec_height() ==> #[trigger] it.spec_cell(w)
                == self.spec_cell(w),
    {
        proof {
            assert(self.cells@.len() <= usize::MAX) by {
                assert(vstd::slice::spec_slice_len(self.cells) == self.cells@.len());
            }
            assert(forall|w: int|
                0 <= w < self.height ==> self.col_num + w * self.width == #[trigger] (w
                    * self.width) + self.col_num);
            assert(forall|w: int|
                0 <= w < self.height ==> 0 <= #[trigger] (w * self.width)) by (nonlinear_arith);
            assert(forall|w: int|
                0 <= w < self.height ==> #[trigger] (w * self.width) + self.width <= self.height
                    * self.width) by (nonlinear_arith);
        }
        Iter { cells: self.cells, cur: self.col_num, step: self.width, left: self.height }
    }
}

/// A strided iterator over matrix cells: `left` cells starting at
/// `cur`, each `step` apart.
pub struct Iter<'a, T> {
    cells: &'a [T],
    cur: usize,
    step: usize,
    left: usize,
}

impl<'a, T: Copy> Iter<'a, T> {
    pub closed spec fn spec_remaining(&self) -> int {
        self.left as int
    }

    /// The `k`-th cell still to come.
    pub closed spec fn spec_cell(&self, k: int) -> T {
        self.cells@[self.cur + k * self.step]
    }

    /// Every remaining cell lies inside the slice.
    pub closed spec fn wf(&self) -> bool {
        &&& self.step >= 1
        &&& self.left >= 1 ==> self.cur + (self.left - 1) * self.step < self.cells@.len()
    }

    /// The next cell, or `None` at the end of the row or column.
    pub fn next(&mut self) -> (r: Option<T>)
        requires
            old(self).wf(),
        ensures
            final (self).wf(),
            old(self).spec_remaining() == 0 ==> r is None && *final (self) == *old(self),
            old(self).spec_remaining() > 0 ==> {
                &&& r == Some(old(self).spec_cell(0))
                &&& final (self).spec_remaining() == old(self).spec_remaining() - 1
                &&& forall|k: int|
                    0 <= k < final (self).spec_remaining() ==> #[trigger] final (self).spec_cell(k)
                        == old(self).spec_cell(k + 1)
            },
    {
        if self.left == 0 {
            return None;
        }
        proof {
            assert((self.left - 1) * self.step >= 0) by (nonlinear_arith)
                requires
                    self.left >= 1,
                    self.step >= 1,
            ;
            assert(forall|k: int|
                1 <= k <= self.left - 1 ==> #[trigger] (k * self.step) == (k - 1) * self.step
                    + self.step) by (nonlinear_arith);
        }
        let v = self.cells[self.cur];
        self.left = self.left - 1;
        if self.left > 0 {
            self.cur = self.cur + self.step;
        }
        Some(v)
    }
}

} // verus!
