//! The cube from -1 to 1 on every axis.

use vstd::prelude::*;
use crate::intersection::{Intersection, Intersections, crossings};
use crate::scalar::{Scalar, EPSILON_BITS};

verus! {

/// The pair of faces of a cube that are square to one axis.
#[derive(Clone, Copy, Debug, PartialEq, Eq, Structural)]
pub enum Axis {
    X,
    Y,
    Z,
}

/// The pair with its smaller part first: the parts change places when the
/// first is above the second.
pub open spec fn sorted_pair(pair: (Scalar, Scalar)) -> (Scalar, Scalar) {
    if pair.1.lt(pair.0) {
        (pair.1, pair.0)
    } else {
        pair
    }
}

/// The distances at which a ray enters and leaves the slab between the two
/// faces of one axis.
///
/// `direction` is the part of the direction of the ray along the axis.
/// `divided` holds the distances to the faces at -1 and 1 as division by
/// `direction` gives them, `unbounded` what stands for them when
/// `direction` is closer to zero than the tolerance and the ray runs along
/// the slab: the distances pushed out to infinity with their signs. The
/// smaller distance comes first.
pub fn check_axis(direction: Scalar, divided: (Scalar, Scalar), unbounded: (Scalar, Scalar)) -> (r:
    (Scalar, Scalar))
    ensures
        r == sorted_pair(
            if (Scalar { bits: EPSILON_BITS }).le(direction.spec_abs()) {
                divided
            } else {
                unbounded
            },
        ),
{
    let (t_min, t_max) = if Scalar::epsilon().at_most(&direction.abs()) {
        divided
    } else {
        unbounded
    };
    if t_min.greater_than(&t_max) {
        (t_max, t_min)
    } else {
        (t_min, t_max)
    }
}

/// The distance at which a ray is inside all three slabs: the largest of
/// the distances at which it enters one.
pub open spec fn entry(x: (Scalar, Scalar), y: (Scalar, Scalar), z: (Scalar, Scalar)) -> Scalar {
    x.0.spec_max(y.0.spec_max(z.0))
}

/// The distance at which a ray is no longer inside all three slabs: the
/// smallest of the distances at which it leaves one.
pub open spec fn exit(x: (Scalar, Scalar), y: (Scalar, Scalar), z: (Scalar, Scalar)) -> Scalar {
    x.1.spec_min(y.1.spec_min(z.1))
}

/// Where a ray crosses the cube `object`, from the distances at which it
/// enters and leaves the slab of each axis (see [`check_axis`]).
///
/// The ray misses when it leaves one slab before it has entered all three.
/// Otherwise it crosses twice: where it has entered the last slab and where
/// it leaves the first.
pub fn local_intersect(
    object: u128,
    x: (Scalar, Scalar),
    y: (Scalar, Scalar),
    z: (Scalar, Scalar),
) -> (r: Option<Intersections>)
    ensures
        r is None <==> exit(x, y, z).lt(entry(x, y, z)),
        r matches Some(xs) ==> crossings(xs@) == seq![
            (entry(x, y, z), object),
            (exit(x, y, z), object),
        ],
        r matches Some(xs) ==> !xs@[1].t.lt(xs@[0].t),
{
    let t_min = x.0.max(&y.0.max(&z.0));
    let t_max = x.1.min(&y.1.min(&z.1));
    if t_min.greater_than(&t_max) {
        return None;
    }
    let mut xs = Intersections::new();
    xs.push(Intersection::new(t_min, object));
    xs.push(Intersection::new(t_max, object));
    assert(crossings(xs@) =~= seq![(t_min, object), (t_max, object)]);
    assert(xs@[0].t == t_min && xs@[1].t == t_max);
    Some(xs)
}

/// The axis along which the normal at a point of the surface runs: the one
/// on which the point is farthest out.
///
/// `to_x` and `to_y` say by how much the largest of the three coordinates of
/// the point, signs left aside, is above its first and above its second
/// coordinate. The first axis on which the point is as far out as on any
/// other, the tolerance allowed for, is the one; so a point on an edge or a
/// corner goes to the axis that comes first.
pub fn face_at(to_x: Scalar, to_y: Scalar) -> (r: Axis)
    ensures
        r == if to_x.near_zero() {
            Axis::X
        } else if to_y.near_zero() {
            Axis::Y
        } else {
            Axis::Z
        },
{
    if to_x.is_near_zero() {
        Axis::X
    } else if to_y.is_near_zero() {
        Axis::Y
    } else {
        Axis::Z
    }
}

} // verus!
