use vstd::prelude::*;

verus! {

/// An earlier 4 by 4 matrix of integer scalars, row major; kept beside
/// `Matrix4` for its element-wise interface.
#[derive(Copy, Clone, Debug, PartialEq, Eq)]
pub struct Matrix4x4 {
    m: [i64; 16],
}

impl Matrix4x4 {
    /// The cell at `(row, col)`, as contracts see it.
    pub closed spec fn spec_element(&self, row: int, col: int) -> i64 {
        self.m@[row * 4 + col]
    }

    pub fn new(
        m11: i64,
        m12: i64,
        m13: i64,
        m14: i64,
        m21: i64,
        m22: i64,
        m23: i64,
        m24: i64,
        m31: i64,
        m32: i64,
        m33: i64,
        m34: i64,
        m41: i64,
        m42: i64,
        m43: i64,
        m44: i64,
    ) -> (r: Self)
        ensures
            r.spec_element(0, 0) == m11 && r.spec_element(0, 1) == m12 && r.spec_element(0, 2)
                == m13 && r.spec_element(0, 3) == m14,
            r.spec_element(1, 0) == m21 && r.spec_element(1, 1) == m22 && r.spec_element(1, 2)
                == m23 && r.spec_element(1, 3) == m24,
            r.spec_element(2, 0) == m31 && r.spec_element(2, 1) == m32 && r.spec_element(2, 2)
                == m33 && r.spec_element(2, 3) == m34,
            r.spec_element(3, 0) == m41 && r.spec_element(3, 1) == m42 && r.spec_element(3, 2)
                == m43 && r.spec_element(3, 3) == m44,
    {
        Matrix4x4 {
            m: [m11, m12, m13, m14, m21, m22, m23, m24, m31, m32, m33, m34, m41, m42, m43, m44],
        }
    }

    /// Creates a matrix from a function taking row and column numbers.
    pub fn from_fn<F: Fn(usize, usize) -> i64>(f: F) -> (r: Self)
        requires
            forall|rr: usize, cc: usize| rr < 4 && cc < 4 ==> call_requires(f, (rr, cc)),
        ensures
            forall|rr: int, cc: int|
                0 <= rr < 4 && 0 <= cc < 4 ==> #[trigger] call_ensures(
                    f,
                    ((rr as usize), (cc as usize)),
                    r.spec_element(rr, cc),
                ),
    {
        let c00 = f(0, 0);
        let c01 = f(0, 1);
        let c02 = f(0, 2);
        let c03 = f(0, 3);
        let c10 = f(1, 0);
        let c11 = f(1, 1);
        let c12 = f(1, 2);
        let c13 = f(1, 3);
        let c20 = f(2, 0);
        let c21 = f(2, 1);
        let c22 = f(2, 2);
        let c23 = f(2, 3);
        let c30 = f(3, 0);
        let c31 = f(3, 1);
        let c32 = f(3, 2);
        let c33 = f(3, 3);
        Matrix4x4 {
            m: [c00, c01, c02, c03, c10, c11, c12, c13, c20, c21, c22, c23, c30, c31, c32, c33],
        }
    }

    /// Gets the element at the given index.
    pub fn element(&self, row: usize, col: usize) -> (v: i64)
        requires
            row < 4,
            col < 4,
        ensures
            v == self.spec_element(row as int, col as int),
    {
        self.m[calculate_index(row, col)]
    }
}

/// The cell offset of `(row, col)` within the row-major cell array.
fn calculate_index(row: usize, col: usize) -> (r: usize)
    requires
        row < 4,
        col < 4,
    ensures
        r == row * 4 + col,
{
    row * 4 + col
}

} // verus!
