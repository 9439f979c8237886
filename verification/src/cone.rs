//! The double cone about the y axis with its tip at the origin, cut off
//! below and above.

use vstd::prelude::*;
use crate::cylinder::{OnWall, by_distance, wall_crossing};
use crate::intersection::{Intersection, Intersections, crossings};
use crate::scalar::{Scalar, INFINITY_BITS, NEG_INFINITY_BITS};

verus! {

/// The extent of a cone along its axis: its wall lies strictly between the
/// heights `min` and `max`. Whether it is `closed` is kept with it; its
/// ends are not intersected.
#[derive(Clone, Copy, Debug, PartialEq, Eq, Structural)]
pub struct Cone {
    pub min: Scalar,
    pub max: Scalar,
    pub closed: bool,
}

impl Cone {
    /// The crossings of the wall, by ascending distance.
    pub open spec fn wall_crossings(self, object: u128, first: OnWall, second: OnWall) -> Seq<
        (Scalar, u128),
    > {
        wall_crossing(self.min, self.max, object, by_distance(first, second).0) + wall_crossing(
            self.min,
            self.max,
            object,
            by_distance(first, second).1,
        )
    }

    /// A cone without ends: it reaches from minus infinity to infinity and
    /// is open.
    pub fn new() -> (r: Cone)
        ensures
            r == (Cone {
                min: Scalar { bits: NEG_INFINITY_BITS },
                max: Scalar { bits: INFINITY_BITS },
                closed: false,
            }),
    {
        Cone {
            min: Scalar::from_bits(NEG_INFINITY_BITS),
            max: Scalar::from_bits(INFINITY_BITS),
            closed: false,
        }
    }

    /// Marks the cone as closed.
    pub fn close(&mut self)
        ensures
            *final(self) == (Cone { min: old(self).min, max: old(self).max, closed: true }),
    {
        self.closed = true;
    }

    /// Where a ray crosses the cone `object`.
    ///
    /// `a` and `b` are the two leading coefficients of the equation for the
    /// places where the ray meets the endless cone and `discriminant` its
    /// discriminant; `single` is the one solution that the equation has
    /// when `a` is zero, and `first` and `second` are its two solutions
    /// otherwise, in any order, each with the height of the ray there.
    ///
    /// A ray along one half of the cone, its `a` closer to zero than the
    /// tolerance, crosses the other half once, at `single`, unless `b` is
    /// that close to zero too: such a ray misses. For every other ray a
    /// discriminant below zero means that it misses; otherwise it crosses
    /// where it meets the cone strictly between the two ends, nearer place
    /// first.
    pub fn local_intersect(
        &self,
        object: u128,
        a: Scalar,
        b: Scalar,
        single: Scalar,
        discriminant: Scalar,
        first: OnWall,
        second: OnWall,
    ) -> (r: Option<Intersections>)
        ensures
            r is None <==> if a.near_zero() {
                b.near_zero()
            } else {
                discriminant.lt(Scalar { bits: 0 })
            },
            r matches Some(xs) ==> crossings(xs@) == if a.near_zero() {
                seq![(single, object)]
            } else {
                self.wall_crossings(object, first, second)
            },
    {
        let mut xs = Intersections::new();
        assert(crossings(xs@) =~= Seq::<(Scalar, u128)>::empty());
        if a.is_near_zero() {
            if b.is_near_zero() {
                return None;
            }
            xs.push(Intersection::new(single, object));
            assert(crossings(xs@) =~= seq![(single, object)]);
            return Some(xs);
        }
        if discriminant.less_than(&Scalar::zero()) {
            return None;
        }
        let (near, far) = if first.t.at_most(&second.t) {
            (first, second)
        } else {
            (second, first)
        };
        if self.min.less_than(&near.y) && near.y.less_than(&self.max) {
            xs.push(Intersection::new(near.t, object));
        }
        assert(crossings(xs@) =~= wall_crossing(self.min, self.max, object, near));
        if self.min.less_than(&far.y) && far.y.less_than(&self.max) {
            xs.push(Intersection::new(far.t, object));
        }
        assert(crossings(xs@) =~= self.wall_crossings(object, first, second));
        Some(xs)
    }
}

} // verus!
