use vstd::prelude::*;

use crate::math::Scalar;

verus! {

/// A 3-component vector with exact integer components.
#[derive(Copy, Clone, Debug, PartialEq, Eq, Structural)]
pub struct Vector3(pub Scalar, pub Scalar, pub Scalar);

impl Vector3 {
    /// Creates a vector with identical components.
    pub fn with_components(val: Scalar) -> (r: Self)
        ensures
            r == (Vector3 { 0: val, 1: val, 2: val }),
    {
        Vector3(val, val, val)
    }

    /// Maps every component through a function.
    pub fn map<F: Fn(Scalar) -> Scalar>(self, f: F) -> (r: Self)
        requires
            call_requires(f, (self.0,)),
            call_requires(f, (self.1,)),
            call_requires(f, (self.2,)),
        ensures
            call_ensures(f, (self.0,), r.0),
            call_ensures(f, (self.1,), r.1),
            call_ensures(f, (self.2,), r.2),
    {
        let x = f(self.0);
        let y = f(self.1);
        let z = f(self.2);
        Vector3(x, y, z)
    }

    /// The components as a tuple.
    pub fn xyz(self) -> (r: (Scalar, Scalar, Scalar))
        ensures
            r == ((self.0, self.1, self.2)),
    {
        (self.0, self.1, self.2)
    }

    /// The first two components as a tuple.
    pub fn xy(self) -> (r: (Scalar, Scalar))
        ensures
            r == ((self.0, self.1)),
    {
        (self.0, self.1)
    }

    pub fn x(self) -> (r: Scalar)
        ensures
            r == self.0,
    {
        self.0
    }

    pub fn y(self) -> (r: Scalar)
        ensures
            r == self.1,
    {
        self.1
    }

    pub fn z(self) -> (r: Scalar)
        ensures
            r == self.2,
    {
        self.2
    }

    /// The dot product.
    pub fn dot(self, other: Self) -> (r: Scalar)
        requires
            i64::MIN <= self.0 * other.0 <= i64::MAX,
            i64::MIN <= self.1 * other.1 <= i64::MAX,
            i64::MIN <= self.2 * other.2 <= i64::MAX,
            i64::MIN <= self.0 * other.0 + self.1 * other.1 <= i64::MAX,
            i64::MIN <= self.0 * other.0 + self.1 * other.1 + self.2 * other.2 <= i64::MAX,
        ensures
            r == self.0 * other.0 + self.1 * other.1 + self.2 * other.2,
    {
        self.0 * other.0 + self.1 * other.1 + self.2 * other.2
    }

    /// The cross product.
    pub fn cross(self, other: Self) -> (r: Self)
        requires
            i64::MIN <= self.1 * other.2 <= i64::MAX,
            i64::MIN <= self.2 * other.1 <= i64::MAX,
            i64::MIN <= self.2 * other.0 <= i64::MAX,
            i64::MIN <= self.0 * other.2 <= i64::MAX,
            i64::MIN <= self.0 * other.1 <= i64::MAX,
            i64::MIN <= self.1 * other.0 <= i64::MAX,
            i64::MIN <= self.1 * other.2 - self.2 * other.1 <= i64::MAX,
            i64::MIN <= self.2 * other.0 - self.0 * other.2 <= i64::MAX,
            i64::MIN <= self.0 * other.1 - self.1 * other.0 <= i64::MAX,
        ensures
            r.0 == self.1 * other.2 - self.2 * other.1,
            r.1 == self.2 * other.0 - self.0 * other.2,
            r.2 == self.0 * other.1 - self.1 * other.0,
    {
        let x = self.1 * other.2 - self.2 * other.1;
        let y = self.2 * other.0 - self.0 * other.2;
        let z = self.0 * other.1 - self.1 * other.0;
        Vector3(x, y, z)
    }

    /// The squared length of the vector.
    pub fn length_squared(self) -> (r: Scalar)
        requires
            self.0 * self.0 + self.1 * self.1 + self.2 * self.2 <= i64::MAX,
        ensures
            r == self.0 * self.0 + self.1 * self.1 + self.2 * self.2,
    {
        proof {
            assert(self.0 * self.0 >= 0) by (nonlinear_arith);
            assert(self.1 * self.1 >= 0) by (nonlinear_arith);
            assert(self.2 * self.2 >= 0) by (nonlinear_arith);
        }
        self.0 * self.0 + self.1 * self.1 + self.2 * self.2
    }

    /// Takes the absolute value of all of the components.
    pub fn as_positive(self) -> (r: Self)
        requires
            self.0 != i64::MIN,
            self.1 != i64::MIN,
            self.2 != i64::MIN,
        ensures
            r.0 == if self.0 < 0 { -(self.0 as int) } else { self.0 as int },
            r.1 == if self.1 < 0 { -(self.1 as int) } else { self.1 as int },
            r.2 == if self.2 < 0 { -(self.2 as int) } else { self.2 as int },
    {
        let x = if self.0 < 0 { -self.0 } else { self.0 };
        let y = if self.1 < 0 { -self.1 } else { self.1 };
        let z = if self.2 < 0 { -self.2 } else { self.2 };
        Vector3(x, y, z)
    }

    /// Componentwise sum.
    pub fn add(self, rhs: Self) -> (r: Self)
        requires
            i64::MIN <= self.0 + rhs.0 <= i64::MAX,
            i64::MIN <= self.1 + rhs.1 <= i64::MAX,
            i64::MIN <= self.2 + rhs.2 <= i64::MAX,
        ensures
            r.0 == self.0 + rhs.0,
            r.1 == self.1 + rhs.1,
            r.2 == self.2 + rhs.2,
    {
        Vector3(self.0 + rhs.0, self.1 + rhs.1, self.2 + rhs.2)
    }

    /// Componentwise difference.
    pub fn sub(self, rhs: Self) -> (r: Self)
        requires
            i64::MIN <= self.0 - rhs.0 <= i64::MAX,
            i64::MIN <= self.1 - rhs.1 <= i64::MAX,
            i64::MIN <= self.2 - rhs.2 <= i64::MAX,
        ensures
            r.0 == self.0 - rhs.0,
            r.1 == self.1 - rhs.1,
            r.2 == self.2 - rhs.2,
    {
        Vector3(self.0 - rhs.0, self.1 - rhs.1, self.2 - rhs.2)
    }

    /// Componentwise product.
    pub fn mul(self, rhs: Self) -> (r: Self)
        requires
            i64::MIN <= self.0 * rhs.0 <= i64::MAX,
            i64::MIN <= self.1 * rhs.1 <= i64::MAX,
            i64::MIN <= self.2 * rhs.2 <= i64::MAX,
        ensures
            r.0 == self.0 * rhs.0,
            r.1 == self.1 * rhs.1,
            r.2 == self.2 * rhs.2,
    {
        Vector3(self.0 * rhs.0, self.1 * rhs.1, self.2 * rhs.2)
    }

    /// Scales every component by a scalar.
    pub fn scale(self, rhs: Scalar) -> (r: Self)
        requires
            i64::MIN <= self.0 * rhs <= i64::MAX,
            i64::MIN <= self.1 * rhs <= i64::MAX,
            i64::MIN <= self.2 * rhs <= i64::MAX,
        ensures
            r.0 == self.0 * rhs,
            r.1 == self.1 * rhs,
            r.2 == self.2 * rhs,
    {
        Vector3(self.0 * rhs, self.1 * rhs, self.2 * rhs)
    }

    /// An iterator over the three components, in order.
    pub fn components(&self) -> (r: crate::math::util::Components<Scalar>)
        ensures
            r.wf(),
            r.spec_remaining() == 3,
            r.spec_item(0) == self.0,
            r.spec_item(1) == self.1,
            r.spec_item(2) == self.2,
    {
        let mut items: Vec<Scalar> = Vec::new();
        items.push(self.0);
        items.push(self.1);
        items.push(self.2);
        crate::math::util::Components::new(items)
    }

    /// The zero vector.
    pub fn zero() -> (r: Self)
        ensures
            r == (Vector3 { 0: 0i64, 1: 0i64, 2: 0i64 }),
    {
        Vector3(0, 0, 0)
    }

    /// True iff every component is zero.
    pub fn is_zero(self) -> (r: bool)
        ensures
            r == (self.0 == 0 && self.1 == 0 && self.2 == 0),
    {
        self.0 == 0 && self.1 == 0 && self.2 == 0
    }
}

} // verus!
