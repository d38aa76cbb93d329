use vstd::prelude::*;

use crate::math::matrix::{Column, Matrix, Row, CELL_LIMIT};
use crate::math::util::kronecker_delta;

verus! {

/// A 4 by 4 matrix of integer scalars, row major.
#[derive(Copy, Clone, Debug, PartialEq, Eq)]
pub struct Matrix4 {
    m: [i64; 16],
}

impl Matrix4 {
    pub fn new(
        m11: i64,
        m12: i64,
        m13: i64,
        m14: i64,
        m21: i64,
        m22: i64,
        m23: i64,
        m24: i64,
        m31: i64,
        m32: i64,
        m33: i64,
        m34: i64,
        m41: i64,
        m42: i64,
        m43: i64,
        m44: i64,
    ) -> (r: Self)
        ensures
            r.spec_get(0, 0) == m11 && r.spec_get(0, 1) == m12 && r.spec_get(0, 2) == m13
                && r.spec_get(0, 3) == m14,
            r.spec_get(1, 0) == m21 && r.spec_get(1, 1) == m22 && r.spec_get(1, 2) == m23
                && r.spec_get(1, 3) == m24,
            r.spec_get(2, 0) == m31 && r.spec_get(2, 1) == m32 && r.spec_get(2, 2) == m33
                && r.spec_get(2, 3) == m34,
            r.spec_get(3, 0) == m41 && r.spec_get(3, 1) == m42 && r.spec_get(3, 2) == m43
                && r.spec_get(3, 3) == m44,
    {
        Matrix4 { m: [m11, m12, m13, m14, m21, m22, m23, m24, m31, m32, m33, m34, m41, m42, m43, m44] }
    }

    /// Every cell small enough that a product cannot overflow.
    pub open spec fn fits(self) -> bool {
        forall|r: int, c: int|
            0 <= r < 4 && 0 <= c < 4 ==> -CELL_LIMIT <= #[trigger] self.spec_get(r, c)
                <= CELL_LIMIT
    }

    /// Creates a matrix from a function taking row and column numbers.
    pub fn from_fn<F: Fn(usize, usize) -> i64>(f: F) -> (r: Self)
        requires
            forall|rr: usize, cc: usize| rr < 4 && cc < 4 ==> call_requires(f, (rr, cc)),
        ensures
            forall|rr: int, cc: int|
                0 <= rr < 4 && 0 <= cc < 4 ==> #[trigger] call_ensures(
                    f,
                    ((rr as usize), (cc as usize)),
                    r.spec_get(rr, cc),
                ),
    {
        let c00 = f(0, 0);
        let c01 = f(0, 1);
        let c02 = f(0, 2);
        let c03 = f(0, 3);
        let c10 = f(1, 0);
        let c11 = f(1, 1);
        let c12 = f(1, 2);
        let c13 = f(1, 3);
        let c20 = f(2, 0);
        let c21 = f(2, 1);
        let c22 = f(2, 2);
        let c23 = f(2, 3);
        let c30 = f(3, 0);
        let c31 = f(3, 1);
        let c32 = f(3, 2);
        let c33 = f(3, 3);
        Matrix4 {
            m: [c00, c01, c02, c03, c10, c11, c12, c13, c20, c21, c22, c23, c30, c31, c32, c33],
        }
    }

    /// The matrix product.
    #[verifier::loop_isolation(false)]
    pub fn mul(self, rhs: Self) -> (r: Self)
        requires
            self.fits(),
            rhs.fits(),
        ensures
            forall|i: int, j: int|
                0 <= i < 4 && 0 <= j < 4 ==> #[trigger] r.spec_get(i, j) == self.spec_get(i, 0)
                    * rhs.spec_get(0, j) + self.spec_get(i, 1) * rhs.spec_get(1, j) + self.spec_get(
                    i,
                    2,
                ) * rhs.spec_get(2, j) + self.spec_get(i, 3) * rhs.spec_get(3, j),
    {
        let mut out = Matrix4 { m: [0, 0, 0, 0, 0, 0, 0, 0, 0, 0, 0, 0, 0, 0, 0, 0] };
        let mut i: usize = 0;
        while i < 4
            invariant
                0 <= i <= 4,
                forall|a: int, b: int|
                    0 <= a < i && 0 <= b < 4 ==> #[trigger] out.spec_get(a, b) == self.spec_get(
                        a,
                        0,
                    ) * rhs.spec_get(0, b) + self.spec_get(a, 1) * rhs.spec_get(1, b)
                        + self.spec_get(a, 2) * rhs.spec_get(2, b) + self.spec_get(a, 3)
                        * rhs.spec_get(3, b),
            decreases 4 - i,
        {
            let mut j: usize = 0;
            while j < 4
                invariant
                    0 <= i < 4,
                    0 <= j <= 4,
                    forall|a: int, b: int|
                        (0 <= a < i && 0 <= b < 4) || (a == i && 0 <= b < j)
                            ==> #[trigger] out.spec_get(a, b) == self.spec_get(a, 0) * rhs.spec_get(
                            0,
                            b,
                        ) + self.spec_get(a, 1) * rhs.spec_get(1, b) + self.spec_get(a, 2)
                            * rhs.spec_get(2, b) + self.spec_get(a, 3) * rhs.spec_get(3, b),
                decreases 4 - j,
            {
                let v = dot4(
                    self.get(i, 0),
                    self.get(i, 1),
                    self.get(i, 2),
                    self.get(i, 3),
                    rhs.get(0, j),
                    rhs.get(1, j),
                    rhs.get(2, j),
                    rhs.get(3, j),
                );
                out.set(i, j, v);
                j = j + 1;
            }
            i = i + 1;
        }
        out
    }
}

/// The cell offset of `(row, col)` within the row-major cell array.
fn calculate_index(row: usize, col: usize) -> (r: usize)
    requires
        row < 4,
        col < 4,
    ensures
        r == row * 4 + col,
{
    row * 4 + col
}

/// A four-term dot product of bounded scalars.
fn dot4(a0: i64, a1: i64, a2: i64, a3: i64, b0: i64, b1: i64, b2: i64, b3: i64) -> (r: i64)
    requires
        -CELL_LIMIT <= a0 <= CELL_LIMIT,
        -CELL_LIMIT <= a1 <= CELL_LIMIT,
        -CELL_LIMIT <= a2 <= CELL_LIMIT,
        -CELL_LIMIT <= a3 <= CELL_LIMIT,
        -CELL_LIMIT <= b0 <= CELL_LIMIT,
        -CELL_LIMIT <= b1 <= CELL_LIMIT,
        -CELL_LIMIT <= b2 <= CELL_LIMIT,
        -CELL_LIMIT <= b3 <= CELL_LIMIT,
    ensures
        r == a0 * b0 + a1 * b1 + a2 * b2 + a3 * b3,
{
    proof {
        assert(-0x0de0b6b3a7640000 <= a0 * b0 <= 0x0de0b6b3a7640000) by (nonlinear_arith)
            requires
                -CELL_LIMIT <= a0 <= CELL_LIMIT,
                -CELL_LIMIT <= b0 <= CELL_LIMIT,
        ;
        assert(-0x0de0b6b3a7640000 <= a1 * b1 <= 0x0de0b6b3a7640000) by (nonlinear_arith)
            requires
                -CELL_LIMIT <= a1 <= CELL_LIMIT,
                -CELL_LIMIT <= b1 <= CELL_LIMIT,
        ;
        assert(-0x0de0b6b3a7640000 <= a2 * b2 <= 0x0de0b6b3a7640000) by (nonlinear_arith)
            requires
                -CELL_LIMIT <= a2 <= CELL_LIMIT,
                -CELL_LIMIT <= b2 <= CELL_LIMIT,
        ;
        assert(-0x0de0b6b3a7640000 <= a3 * b3 <= 0x0de0b6b3a7640000) by (nonlinear_arith)
            requires
                -CELL_LIMIT <= a3 <= CELL_LIMIT,
                -CELL_LIMIT <= b3 <= CELL_LIMIT,
        ;
    }
    a0 * b0 + a1 * b1 + a2 * b2 + a3 * b3
}

impl Matrix for Matrix4 {
    open spec fn order() -> int {
        4
    }

    closed spec fn spec_get(&self, row: int, col: int) -> i64 {
        self.m@[row * 4 + col]
    }

    fn get(&self, row: usize, col: usize) -> i64 {
        self.m[calculate_index(row, col)]
    }

    fn set(&mut self, row: usize, col: usize, val: i64) {
        let idx = calculate_index(row, col);
        self.m[idx] = val;
    }

    fn identity() -> Self {
        let one = kronecker_delta(0, 0);
        let zero = kronecker_delta(0, 1);
        Matrix4::new(
            one,
            zero,
            zero,
            zero,
            zero,
            one,
            zero,
            zero,
            zero,
            zero,
            one,
            zero,
            zero,
            zero,
            zero,
            one,
        )
    }

    fn row<'a>(&'a self, num: usize) -> Row<'a, i64> {
        Row::new(self.m.as_slice(), num, 4)
    }

    fn col<'a>(&'a self, num: usize) -> Column<'a, i64> {
        Column::new(self.m.as_slice(), num, 4, 4)
    }
}

} // verus!
