//! Points and vectors.

use vstd::prelude::*;
use crate::scalar::{Scalar, ONE_BITS};

verus! {

/// Three coordinates and a fourth component `w` that tells a point
/// (`w` is one) from a vector (`w` is zero).
#[derive(Clone, Copy, Debug, PartialEq, Eq, Structural)]
pub struct Tuple {
    pub x: Scalar,
    pub y: Scalar,
    pub z: Scalar,
    pub w: Scalar,
}

impl Tuple {
    /// Whether the tuple is a point: its `w` is one.
    pub open spec fn spec_is_point(self) -> bool {
        self.w.same(Scalar { bits: ONE_BITS })
    }

    /// Whether the tuple is a vector: its `w` is zero.
    pub open spec fn spec_is_vector(self) -> bool {
        self.w.same(Scalar { bits: 0 })
    }

    /// A tuple of the four components.
    pub fn new(x: Scalar, y: Scalar, z: Scalar, w: Scalar) -> (r: Tuple)
        ensures
            r == (Tuple { x, y, z, w }),
    {
        Tuple { x, y, z, w }
    }

    /// The point with the given coordinates.
    pub fn point(x: Scalar, y: Scalar, z: Scalar) -> (r: Tuple)
        ensures
            r == (Tuple { x, y, z, w: Scalar { bits: ONE_BITS } }),
            r.spec_is_point(),
            !r.spec_is_vector(),
    {
        Tuple { x, y, z, w: Scalar::one() }
    }

    /// The point at the origin.
    pub fn origin_point() -> (r: Tuple)
        ensures
            r == (Tuple {
                x: Scalar { bits: 0 },
                y: Scalar { bits: 0 },
                z: Scalar { bits: 0 },
                w: Scalar { bits: ONE_BITS },
            }),
            r.spec_is_point(),
    {
        Tuple::point(Scalar::zero(), Scalar::zero(), Scalar::zero())
    }

    /// The vector with the given coordinates.
    pub fn vector(x: Scalar, y: Scalar, z: Scalar) -> (r: Tuple)
        ensures
            r == (Tuple { x, y, z, w: Scalar { bits: 0 } }),
            r.spec_is_vector(),
            !r.spec_is_point(),
    {
        Tuple { x, y, z, w: Scalar::zero() }
    }

    /// The vector with the given coordinates, under its other name.
    pub fn direction(x: Scalar, y: Scalar, z: Scalar) -> (r: Tuple)
        ensures
            r == (Tuple { x, y, z, w: Scalar { bits: 0 } }),
            r.spec_is_vector(),
            !r.spec_is_point(),
    {
        Tuple::vector(x, y, z)
    }

    /// The three coordinates.
    pub fn xyz(&self) -> (r: (Scalar, Scalar, Scalar))
        ensures
            r == (self.x, self.y, self.z),
    {
        (self.x, self.y, self.z)
    }

    /// Tells whether the tuple is a point.
    pub fn is_point(&self) -> (r: bool)
        ensures
            r == self.spec_is_point(),
    {
        self.w.equals(&Scalar::one())
    }

    /// Tells whether the tuple is a vector.
    pub fn is_vector(&self) -> (r: bool)
        ensures
            r == self.spec_is_vector(),
    {
        self.w.is_zero()
    }

    /// Tells whether the tuple is a vector, under its other name.
    pub fn is_direction(&self) -> (r: bool)
        ensures
            r == self.spec_is_vector(),
    {
        self.is_vector()
    }
}

/// No tuple is both a point and a vector.
pub proof fn lemma_point_or_vector(t: Tuple)
    ensures
        !(t.spec_is_point() && t.spec_is_vector()),
{
}

} // verus!
