//! The plane y = 0.

use vstd::prelude::*;
use crate::intersection::{Intersection, Intersections, crossings};
use crate::scalar::Scalar;

verus! {

/// Where a ray crosses the plane `object`: `direction_y` is the vertical
/// part of the direction of the ray and `t` the distance at which the ray
/// is at height zero.
///
/// A ray that runs along the plane, its `direction_y` closer to zero than
/// the tolerance, does not cross it. Every other ray crosses once, at `t`.
pub fn local_intersect(object: u128, direction_y: Scalar, t: Scalar) -> (r: Option<Intersections>)
    ensures
        r is None <==> direction_y.near_zero(),
        r matches Some(xs) ==> crossings(xs@) == seq![(t, object)],
{
    if direction_y.is_near_zero() {
        return None;
    }
    let mut xs = Intersections::new();
    xs.push(Intersection::new(t, object));
    assert(crossings(xs@) =~= seq![(t, object)]);
    Some(xs)
}

} // verus!
