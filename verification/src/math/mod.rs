//! Linear algebra over exact 64-bit integer scalars.

pub mod matrix;
pub mod matrix3;
pub mod matrix4;
pub mod matrix4x4;
pub mod util;
pub mod vector3;

pub use self::matrix::Matrix;
pub use self::matrix3::Matrix3;
pub use self::matrix4::Matrix4;
pub use self::matrix4x4::Matrix4x4;
pub use self::vector3::Vector3;

use vstd::prelude::*;

verus! {

/// A scalar: a signed 64-bit integer. Fractional coordinates are carried
/// in fixed point, scaled by `crate::geom::wavefront::SCALE`.
pub type Scalar = i64;

/// A 2D axis.
pub enum Axis2 {
    Horizontal,
    Vertical,
}

} // verus!
