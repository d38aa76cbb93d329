use vstd::prelude::*;

verus! {

/// Maps from normalized window coordinates (-1 to 1 across the window)
/// to pixel coordinates: each half-dimension scales the shifted
/// coordinate.
pub fn map_point_to_pixel(point: (i64, i64), dimensions: (i64, i64)) -> (r: (i64, i64))
    requires
        dimensions.0 >= 0,
        dimensions.1 >= 0,
        i64::MIN <= point.0 + 1 <= i64::MAX,
        i64::MIN <= point.1 + 1 <= i64::MAX,
        i64::MIN <= (dimensions.0 / 2) * (point.0 + 1) <= i64::MAX,
        i64::MIN <= (dimensions.1 / 2) * (point.1 + 1) <= i64::MAX,
    ensures
        r.0 == (dimensions.0 / 2) * (point.0 + 1),
        r.1 == (dimensions.1 / 2) * (point.1 + 1),
{
    let hwidth: i64 = dimensions.0 / 2;
    let hheight: i64 = dimensions.1 / 2;
    (hwidth * (point.0 + 1), hheight * (point.1 + 1))
}

/// Maps from pixel coordinates back to normalized window coordinates.
pub fn map_pixel_to_point(point: (i64, i64), dimensions: (i64, i64)) -> (r: (i64, i64))
    requires
        dimensions.0 > 0,
        dimensions.1 > 0,
        i64::MIN <= (2i64 / dimensions.0) * point.0 - 1 <= i64::MAX,
        i64::MIN <= (2i64 / dimensions.1) * point.1 - 1 <= i64::MAX,
        i64::MIN <= (2i64 / dimensions.0) * point.0 <= i64::MAX,
        i64::MIN <= (2i64 / dimensions.1) * point.1 <= i64::MAX,
    ensures
        r.0 == (2i64 / dimensions.0) * point.0 - 1,
        r.1 == (2i64 / dimensions.1) * point.1 - 1,
{
    let inv_hwidth: i64 = 2i64 / dimensions.0;
    let inv_hheight: i64 = 2i64 / dimensions.1;
    (inv_hwidth * point.0 - 1, inv_hheight * point.1 - 1)
}

} // verus!
