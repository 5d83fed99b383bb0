//! Small position helpers on fixed-point and block coordinates.

use vstd::prelude::*;

verus! {

/// Componentwise sum of two position triples.
pub fn pos_add(a: (i64, i64, i64), b: (i64, i64, i64)) -> (r: (i64, i64, i64))
    requires
        i64::MIN <= a.0 + b.0 <= i64::MAX,
        i64::MIN <= a.1 + b.1 <= i64::MAX,
        i64::MIN <= a.2 + b.2 <= i64::MAX,
    ensures
        r.0 == a.0 + b.0,
        r.1 == a.1 + b.1,
        r.2 == a.2 + b.2,
{
    (a.0 + b.0, a.1 + b.1, a.2 + b.2)
}

/// Componentwise difference of two position triples.
pub fn pos_sub(a: (i64, i64, i64), b: (i64, i64, i64)) -> (r: (i64, i64, i64))
    requires
        i64::MIN <= a.0 - b.0 <= i64::MAX,
        i64::MIN <= a.1 - b.1 <= i64::MAX,
        i64::MIN <= a.2 - b.2 <= i64::MAX,
    ensures
        r.0 == a.0 - b.0,
        r.1 == a.1 - b.1,
        r.2 == a.2 - b.2,
{
    (a.0 - b.0, a.1 - b.1, a.2 - b.2)
}

/// Whether a point lies strictly inside the open box of the given radius
/// and height around a reference point.
pub fn in_square(point: (i32, i32, i32), relative: (i32, i32, i32), radius: i32, height: i32) -> (r:
    bool)
    requires
        i32::MIN <= point.0 - relative.0 <= i32::MAX,
        i32::MIN <= point.1 - relative.1 <= i32::MAX,
        i32::MIN <= point.2 - relative.2 <= i32::MAX,
        radius > i32::MIN,
        height > i32::MIN,
    ensures
        r == (-radius < point.0 - relative.0 < radius && -height < point.1 - relative.1 < height
            && -radius < point.2 - relative.2 < radius),
{
    let p = (point.0 - relative.0, point.1 - relative.1, point.2 - relative.2);
    p.0 > -radius && p.0 < radius && p.2 > -radius && p.2 < radius && p.1 > -height && p.1 < height
}

} // verus!
