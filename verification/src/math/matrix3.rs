use vstd::prelude::*;

use crate::math::matrix::{Column, Matrix, Row, CELL_LIMIT};
use crate::math::util::kronecker_delta;

verus! {

/// A 3 by 3 matrix of integer scalars, row major.
#[derive(Copy, Clone, Debug, PartialEq, Eq)]
pub struct Matrix3 {
    m: [i64; 9],
}

impl Matrix3 {
    pub fn new(
        m11: i64,
        m12: i64,
        m13: i64,
        m21: i64,
        m22: i64,
        m23: i64,
        m31: i64,
        m32: i64,
        m33: i64,
    ) -> (r: Self)
        ensures
            r.spec_get(0, 0) == m11 && r.spec_get(0, 1) == m12 && r.spec_get(0, 2) == m13,
            r.spec_get(1, 0) == m21 && r.spec_get(1, 1) == m22 && r.spec_get(1, 2) == m23,
            r.spec_get(2, 0) == m31 && r.spec_get(2, 1) == m32 && r.spec_get(2, 2) == m33,
    {
        Matrix3 { m: [m11, m12, m13, m21, m22, m23, m31, m32, m33] }
    }

    /// Every cell small enough that a product cannot overflow.
    pub open spec fn fits(self) -> bool {
        forall|r: int, c: int|
            0 <= r < 3 && 0 <= c < 3 ==> -CELL_LIMIT <= #[trigger] self.spec_get(r, c)
                <= CELL_LIMIT
    }

    /// Creates a matrix from a function taking row and column numbers.
    pub fn from_fn<F: Fn(usize, usize) -> i64>(f: F) -> (r: Self)
        requires
            forall|rr: usize, cc: usize| rr < 3 && cc < 3 ==> call_requires(f, (rr, cc)),
        ensures
            forall|rr: int, cc: int|
                0 <= rr < 3 && 0 <= cc < 3 ==> #[trigger] call_ensures(
                    f,
                    ((rr as usize), (cc as usize)),
                    r.spec_get(rr, cc),
                ),
    {
        let c00 = f(0, 0);
        let c01 = f(0, 1);
        let c02 = f(0, 2);
        let c10 = f(1, 0);
        let c11 = f(1, 1);
        let c12 = f(1, 2);
        let c20 = f(2, 0);
        let c21 = f(2, 1);
        let c22 = f(2, 2);
        Matrix3 { m: [c00, c01, c02, c10, c11, c12, c20, c21, c22] }
    }

    /// The matrix product.
    #[verifier::loop_isolation(false)]
    pub fn mul(self, rhs: Self) -> (r: Self)
        requires
            self.fits(),
            rhs.fits(),
        ensures
            forall|i: int, j: int|
                0 <= i < 3 && 0 <= j < 3 ==> #[trigger] r.spec_get(i, j) == self.spec_get(i, 0)
                    * rhs.spec_get(0, j) + self.spec_get(i, 1) * rhs.spec_get(1, j) + self.spec_get(
                    i,
                    2,
                ) * rhs.spec_get(2, j),
    {
        let mut out = Matrix3 { m: [0, 0, 0, 0, 0, 0, 0, 0, 0] };
        let mut i: usize = 0;
        while i < 3
            invariant
                0 <= i <= 3,
                forall|a: int, b: int|
                    0 <= a < i && 0 <= b < 3 ==> #[trigger] out.spec_get(a, b) == self.spec_get(
                        a,
                        0,
                    ) * rhs.spec_get(0, b) + self.spec_get(a, 1) * rhs.spec_get(1, b)
                        + self.spec_get(a, 2) * rhs.spec_get(2, b),
            decreases 3 - i,
        {
            let mut j: usize = 0;
            while j < 3
                invariant
                    0 <= i < 3,
                    0 <= j <= 3,
                    forall|a: int, b: int|
                        (0 <= a < i && 0 <= b < 3) || (a == i && 0 <= b < j)
                            ==> #[trigger] out.spec_get(a, b) == self.spec_get(a, 0) * rhs.spec_get(
                            0,
                            b,
                        ) + self.spec_get(a, 1) * rhs.spec_get(1, b) + self.spec_get(a, 2)
                            * rhs.spec_get(2, b),
                decreases 3 - j,
            {
                let v = dot3(
                    self.get(i, 0),
                    self.get(i, 1),
                    self.get(i, 2),
                    rhs.get(0, j),
                    rhs.get(1, j),
                    rhs.get(2, j),
                );
                out.set(i, j, v);
                j = j + 1;
            }
            i = i + 1;
        }
        out
    }
}

/// The cell offset of `(row, col)` within the row-major cell array.
fn calculate_index(row: usize, col: usize) -> (r: usize)
    requires
        row < 3,
        col < 3,
    ensures
        r == row * 3 + col,
{
    row * 3 + col
}

/// A three-term dot product of bounded scalars.
fn dot3(a0: i64, a1: i64, a2: i64, b0: i64, b1: i64, b2: i64) -> (r: i64)
    requires
        -CELL_LIMIT <= a0 <= CELL_LIMIT,
        -CELL_LIMIT <= a1 <= CELL_LIMIT,
        -CELL_LIMIT <= a2 <= CELL_LIMIT,
        -CELL_LIMIT <= b0 <= CELL_LIMIT,
        -CELL_LIMIT <= b1 <= CELL_LIMIT,
        -CELL_LIMIT <= b2 <= CELL_LIMIT,
    ensures
        r == a0 * b0 + a1 * b1 + a2 * b2,
{
    proof {
        assert(-0x0de0b6b3a7640000 <= a0 * b0 <= 0x0de0b6b3a7640000) by (nonlinear_arith)
            requires
                -CELL_LIMIT <= a0 <= CELL_LIMIT,
                -CELL_LIMIT <= b0 <= CELL_LIMIT,
        ;
        assert(-0x0de0b6b3a7640000 <= a1 * b1 <= 0x0de0b6b3a7640000) by (nonlinear_arith)
            requires
                -CELL_LIMIT <= a1 <= CELL_LIMIT,
                -CELL_LIMIT <= b1 <= CELL_LIMIT,
        ;
        assert(-0x0de0b6b3a7640000 <= a2 * b2 <= 0x0de0b6b3a7640000) by (nonlinear_arith)
            requires
                -CELL_LIMIT <= a2 <= CELL_LIMIT,
                -CELL_LIMIT <= b2 <= CELL_LIMIT,
        ;
    }
    a0 * b0 + a1 * b1 + a2 * b2
}

impl Matrix for Matrix3 {
    open spec fn order() -> int {
        3
    }

    closed spec fn spec_get(&self, row: int, col: int) -> i64 {
        self.m@[row * 3 + col]
    }

    fn get(&self, row: usize, col: usize) -> i64 {
        self.m[calculate_index(row, col)]
    }

    fn set(&mut self, row: usize, col: usize, val: i64) {
        let idx = calculate_index(row, col);
        self.m[idx] = val;
    }

    fn identity() -> Self {
        let one = kronecker_delta(0, 0);
        let zero = kronecker_delta(0, 1);
        Matrix3::new(one, zero, zero, zero, one, zero, zero, zero, one)
    }

    fn row<'a>(&'a self, num: usize) -> Row<'a, i64> {
        Row::new(self.m.as_slice(), num, 3)
    }

    fn col<'a>(&'a self, num: usize) -> Column<'a, i64> {
        Column::new(self.m.as_slice(), num, 3, 3)
    }
}

} // verus!
