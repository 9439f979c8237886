//! The unit sphere about the origin.

use vstd::prelude::*;
use crate::intersection::{Intersection, Intersections, crossings};
use crate::scalar::Scalar;

verus! {

/// The two distances in ascending order: `t2` comes first when `t1` is not
/// below it.
pub open spec fn ordered(t1: Scalar, t2: Scalar) -> (Scalar, Scalar) {
    if t1.lt(t2) {
        (t1, t2)
    } else {
        (t2, t1)
    }
}

/// Where a ray crosses the sphere `object`, from what solving
/// `|origin + t * direction|^2 = 1` for `t` gave: the discriminant of that
/// equation and its two roots.
///
/// A discriminant below zero means that the ray misses. Otherwise the ray
/// crosses twice, at the two roots in ascending order; for a ray that
/// touches the sphere the two are equal.
pub fn local_intersect(object: u128, discriminant: Scalar, t1: Scalar, t2: Scalar) -> (r: Option<
    Intersections,
>)
    ensures
        r is None <==> discriminant.lt(Scalar { bits: 0 }),
        r matches Some(xs) ==> crossings(xs@) == seq![
            (ordered(t1, t2).0, object),
            (ordered(t1, t2).1, object),
        ],
        r matches Some(xs) ==> !xs@[1].t.lt(xs@[0].t),
        r matches Some(xs) ==> !t1.is_nan() && !t2.is_nan() ==> xs@[0].t.le(xs@[1].t),
{
    if discriminant.less_than(&Scalar::zero()) {
        return None;
    }
    let mut xs = Intersections::new();
    if t1.less_than(&t2) {
        xs.push(Intersection::new(t1, object));
        xs.push(Intersection::new(t2, object));
    } else {
        xs.push(Intersection::new(t2, object));
        xs.push(Intersection::new(t1, object));
    }
    assert(crossings(xs@) =~= seq![(ordered(t1, t2).0, object), (ordered(t1, t2).1, object)]);
    Some(xs)
}

} // verus!
