//! Patterns: colours that depend on the place.

use vstd::prelude::*;
use crate::color::Color;
use crate::matrix::{M4, identity_entries};
use crate::scalar::Scalar;

verus! {

/// The properties that all patterns share: the matrix that takes the space
/// of the pattern to the space of the shape that wears it.
#[derive(Clone, Copy, Debug)]
pub struct PatternProps {
    pub transform: M4,
}

impl PatternProps {
    /// The properties that a pattern starts with: no transformation.
    pub fn default() -> (r: PatternProps)
        ensures
            r.transform.data@ == identity_entries(),
    {
        PatternProps { transform: M4::identity() }
    }

    /// The matrix that takes the space of the pattern to the space of its shape.
    pub fn get_transform(&self) -> (r: M4)
        ensures
            r == self.transform,
    {
        self.transform
    }

    /// Places the pattern on its shape.
    pub fn set_transform(&mut self, new: M4)
        ensures
            final(self).transform == new,
    {
        self.transform = new
    }
}

/// The colour of a pattern of two colours that change from step to step,
/// as stripes and the fields of a chequerboard do.
///
/// `remainder` is what is left of the number of whole steps to the place
/// when it is divided by two: the place has the first colour where nothing
/// is left, and the second one everywhere else.
pub fn alternating(a: Color, b: Color, remainder: Scalar) -> (r: Color)
    ensures
        r == if remainder.same(Scalar { bits: 0 }) {
            a
        } else {
            b
        },
{
    if remainder.is_zero() {
        a
    } else {
        b
    }
}

/// The colour of a pattern of rings in two colours. The place has the
/// first colour where `measure`, which the rings are told apart by, is
/// closer to zero than the tolerance, and the second one everywhere else.
pub fn ringed(a: Color, b: Color, measure: Scalar) -> (r: Color)
    ensures
        r == if measure.near_zero() {
            a
        } else {
            b
        },
{
    if measure.is_near_zero() {
        a
    } else {
        b
    }
}

} // verus!
