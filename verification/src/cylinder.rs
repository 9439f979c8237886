//! The cylinder of radius 1 about the y axis, cut off below and above and
//! open or closed at its ends.

use vstd::prelude::*;
use crate::intersection::{Intersection, Intersections, crossings};
use crate::scalar::{Scalar, INFINITY_BITS, NEG_INFINITY_BITS, ONE_BITS};

verus! {

/// The extent of a cylinder along its axis: its wall lies strictly between
/// the heights `min` and `max`, and `closed` says whether it has caps
/// there.
#[derive(Clone, Copy, Debug, PartialEq, Eq, Structural)]
pub struct Cylinder {
    pub min: Scalar,
    pub max: Scalar,
    pub closed: bool,
}

/// A place where a ray meets the endless wall: the distance along the ray
/// and the height at which the ray is there.
#[derive(Clone, Copy, Debug, PartialEq, Eq, Structural)]
pub struct OnWall {
    pub t: Scalar,
    pub y: Scalar,
}

/// A place where a ray meets the plane of a cap: the distance along the
/// ray and the square of the distance from the axis at which the ray is
/// there.
#[derive(Clone, Copy, Debug, PartialEq, Eq, Structural)]
pub struct OnCap {
    pub t: Scalar,
    pub radius2: Scalar,
}

/// The face of a cylinder that a point lies on.
#[derive(Clone, Copy, Debug, PartialEq, Eq, Structural)]
pub enum Face {
    /// The upper cap: the normal points up.
    Upper,
    /// The lower cap: the normal points down.
    Lower,
    /// The wall: the normal points away from the axis.
    Wall,
}

/// The two places on the wall by ascending distance: `first` stays in front
/// when its distance is not above that of `second`.
pub open spec fn by_distance(first: OnWall, second: OnWall) -> (OnWall, OnWall) {
    if first.t.le(second.t) {
        (first, second)
    } else {
        (second, first)
    }
}

/// The crossing at a place on the wall, where there is one: the place has
/// to lie strictly between the two ends.
pub open spec fn wall_crossing(min: Scalar, max: Scalar, object: u128, place: OnWall) -> Seq<
    (Scalar, u128),
> {
    if min.lt(place.y) && place.y.lt(max) {
        seq![(place.t, object)]
    } else {
        Seq::empty()
    }
}

/// The crossing at a place on the plane of a cap, where there is one: the
/// place has to lie within the radius of the cylinder.
pub open spec fn cap_crossing(object: u128, place: OnCap) -> Seq<(Scalar, u128)> {
    if place.radius2.le(Scalar { bits: ONE_BITS }) {
        seq![(place.t, object)]
    } else {
        Seq::empty()
    }
}

/// The crossings of a wall come nearer one first: where both places on the
/// wall are crossings and their distances are numbers, the first crossing
/// is not farther than the second.
pub proof fn lemma_wall_crossings_ascend(
    min: Scalar,
    max: Scalar,
    object: u128,
    first: OnWall,
    second: OnWall,
)
    requires
        !first.t.is_nan(),
        !second.t.is_nan(),
    ensures
        ({
            let near = by_distance(first, second).0;
            let far = by_distance(first, second).1;
            let all = wall_crossing(min, max, object, near) + wall_crossing(min, max, object, far);
            all.len() <= 2 && (all.len() == 2 ==> all[0].0.le(all[1].0))
        }),
{
}

impl Cylinder {
    /// Whether a ray with this vertical part of its direction can cross a
    /// cap: the cylinder has caps, and the ray does not run along them.
    pub open spec fn caps_in_reach(self, direction_y: Scalar) -> bool {
        self.closed && !direction_y.near_zero()
    }

    /// The crossings of the caps: first that of the lower cap, after it that of
    /// the upper one.
    pub open spec fn cap_crossings(
        self,
        object: u128,
        direction_y: Scalar,
        lower: OnCap,
        upper: OnCap,
    ) -> Seq<(Scalar, u128)> {
        if self.caps_in_reach(direction_y) {
            cap_crossing(object, lower) + cap_crossing(object, upper)
        } else {
            Seq::empty()
        }
    }

    /// The crossings of the wall, by ascending distance.
    pub open spec fn wall_crossings(self, object: u128, first: OnWall, second: OnWall) -> Seq<
        (Scalar, u128),
    > {
        wall_crossing(self.min, self.max, object, by_distance(first, second).0) + wall_crossing(
            self.min,
            self.max,
            object,
            by_distance(first, second).1,
        )
    }

    /// A cylinder without ends: it reaches from minus infinity to infinity
    /// and is open.
    pub fn new() -> (r: Cylinder)
        ensures
            r == (Cylinder {
                min: Scalar { bits: NEG_INFINITY_BITS },
                max: Scalar { bits: INFINITY_BITS },
                closed: false,
            }),
    {
        Cylinder {
            min: Scalar::from_bits(NEG_INFINITY_BITS),
            max: Scalar::from_bits(INFINITY_BITS),
            closed: false,
        }
    }

    /// An open cylinder between the two heights.
    pub fn with_min_max(min: Scalar, max: Scalar) -> (r: Cylinder)
        ensures
            r == (Cylinder { min, max, closed: false }),
    {
        Cylinder { min, max, closed: false }
    }

    /// Puts caps on the ends of the cylinder.
    pub fn close(&mut self)
        ensures
            *final(self) == (Cylinder { min: old(self).min, max: old(self).max, closed: true }),
    {
        self.closed = true;
    }

    /// Where a ray crosses the caps of the cylinder `object`.
    ///
    /// `direction_y` is the vertical part of the direction of the ray;
    /// `lower` and `upper` are the places where the ray meets the planes at
    /// the heights `min` and `max`. An open cylinder has no caps to cross,
    /// and a ray that runs along the caps crosses none. Otherwise a cap is
    /// crossed where the ray meets its plane within the radius.
    pub fn intersect_caps(&self, object: u128, direction_y: Scalar, lower: OnCap, upper: OnCap)
        -> (r:
        Intersections)
        ensures
            crossings(r@) == self.cap_crossings(object, direction_y, lower, upper),
    {
        let mut xs = Intersections::new();
        assert(crossings(xs@) =~= Seq::<(Scalar, u128)>::empty());
        if !self.closed || direction_y.is_near_zero() {
            return xs;
        }
        if lower.radius2.at_most(&Scalar::one()) {
            xs.push(Intersection::new(lower.t, object));
        }
        assert(crossings(xs@) =~= cap_crossing(object, lower));
        if upper.radius2.at_most(&Scalar::one()) {
            xs.push(Intersection::new(upper.t, object));
        }
        assert(crossings(xs@) =~= cap_crossing(object, lower) + cap_crossing(object, upper));
        xs
    }

    /// Where a ray crosses the cylinder `object`.
    ///
    /// `a` and `discriminant` are the leading coefficient and the
    /// discriminant of the equation for the places where the ray meets the
    /// endless wall, `first` and `second` those places, in any order; the
    /// rest is as for [`Cylinder::intersect_caps`].
    ///
    /// A ray along the axis, its `a` closer to zero than the tolerance, can
    /// only cross the caps. A discriminant below zero means that the ray
    /// misses the wall, and with it the cylinder. Otherwise the ray crosses
    /// the wall where it meets it strictly between the two ends, nearer
    /// place first, and after that the caps.
    pub fn local_intersect(
        &self,
        object: u128,
        a: Scalar,
        discriminant: Scalar,
        first: OnWall,
        second: OnWall,
        direction_y: Scalar,
        lower: OnCap,
        upper: OnCap,
    ) -> (r: Option<Intersections>)
        ensures
            r is None <==> !a.near_zero() && discriminant.lt(Scalar { bits: 0 }),
            r matches Some(xs) ==> crossings(xs@) == if a.near_zero() {
                self.cap_crossings(object, direction_y, lower, upper)
            } else {
                self.wall_crossings(object, first, second) + self.cap_crossings(
                    object,
                    direction_y,
                    lower,
                    upper,
                )
            },
    {
        if a.is_near_zero() {
            return Some(self.intersect_caps(object, direction_y, lower, upper));
        }
        if discriminant.less_than(&Scalar::zero()) {
            return None;
        }
        let mut xs = Intersections::new();
        assert(crossings(xs@) =~= Seq::<(Scalar, u128)>::empty());
        let (near, far) = if first.t.at_most(&second.t) {
            (first, second)
        } else {
            (second, first)
        };
        if self.min.less_than(&near.y) && near.y.less_than(&self.max) {
            xs.push(Intersection::new(near.t, object));
        }
        assert(crossings(xs@) =~= wall_crossing(self.min, self.max, object, near));
        if self.min.less_than(&far.y) && far.y.less_than(&self.max) {
            xs.push(Intersection::new(far.t, object));
        }
        assert(crossings(xs@) =~= self.wall_crossings(object, first, second));
        let caps = self.intersect_caps(object, direction_y, lower, upper);
        let ghost walls = xs@;
        xs.merge(caps);
        assert(crossings(xs@) =~= crossings(walls) + crossings(caps@));
        Some(xs)
    }

    /// The face on which a point of the surface lies.
    ///
    /// `distance2` is the square of the distance of the point from the
    /// axis and `y` its height; `upper_limit` is `max` less the tolerance
    /// and `lower_limit` is `min` plus the tolerance. A point within the
    /// radius lies on the upper cap when it is at or above the upper limit,
    /// and on the lower cap when it is at or below the lower limit. Every
    /// other point lies on the wall.
    pub fn face_at(distance2: Scalar, y: Scalar, upper_limit: Scalar, lower_limit: Scalar) -> (r:
        Face)
        ensures
            r == if distance2.lt(Scalar { bits: ONE_BITS }) && upper_limit.le(y) {
                Face::Upper
            } else if distance2.lt(Scalar { bits: ONE_BITS }) && y.le(lower_limit) {
                Face::Lower
            } else {
                Face::Wall
            },
    {
        let within: bool = distance2.less_than(&Scalar::one());
        if within && upper_limit.at_most(&y) {
            Face::Upper
        } else if within && y.at_most(&lower_limit) {
            Face::Lower
        } else {
            Face::Wall
        }
    }
}

} // verus!
