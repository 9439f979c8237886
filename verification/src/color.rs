//! Colours.

use vstd::prelude::*;
use crate::scalar::{Scalar, ONE_BITS};

verus! {

/// A colour by its red, green and blue parts. A part is not held to any
/// range: zero is dark, one is full, and what lies outside is cut off only
/// when an image is written out.
#[derive(Clone, Copy, Debug, PartialEq, Eq, Structural)]
pub struct Color {
    pub red: Scalar,
    pub green: Scalar,
    pub blue: Scalar,
}

/// A part of a colour cut to the range that an image file can hold: what
/// is above one becomes one and what is below zero becomes zero. A part
/// that is not a number stays as it is.
pub open spec fn cut(part: Scalar) -> Scalar {
    if (Scalar { bits: ONE_BITS }).lt(part) {
        Scalar { bits: ONE_BITS }
    } else if part.lt(Scalar { bits: 0 }) {
        Scalar { bits: 0 }
    } else {
        part
    }
}

/// Cuts a part of a colour to the range from zero to one.
pub fn cut_part(part: Scalar) -> (r: Scalar)
    ensures
        r == cut(part),
        !part.is_nan() ==> (Scalar { bits: 0 }).le(r) && r.le(Scalar { bits: ONE_BITS }),
{
    if part.greater_than(&Scalar::one()) {
        Scalar::one()
    } else if part.less_than(&Scalar::zero()) {
        Scalar::zero()
    } else {
        part
    }
}

impl Color {
    /// A colour of the three parts.
    pub fn new(red: Scalar, green: Scalar, blue: Scalar) -> (r: Color)
        ensures
            r == (Color { red, green, blue }),
    {
        Color { red, green, blue }
    }

    /// The colour with every part cut to the range from zero to one.
    pub fn cut_to_range(&self) -> (r: Color)
        ensures
            r == (Color { red: cut(self.red), green: cut(self.green), blue: cut(self.blue) }),
    {
        Color {
            red: cut_part(self.red),
            green: cut_part(self.green),
            blue: cut_part(self.blue),
        }
    }

    /// Black: every part is zero.
    pub fn black() -> (r: Color)
        ensures
            r == (Color {
                red: Scalar { bits: 0 },
                green: Scalar { bits: 0 },
                blue: Scalar { bits: 0 },
            }),
    {
        Color { red: Scalar::zero(), green: Scalar::zero(), blue: Scalar::zero() }
    }

    /// White: every part is one.
    pub fn white() -> (r: Color)
        ensures
            r == (Color {
                red: Scalar { bits: ONE_BITS },
                green: Scalar { bits: ONE_BITS },
                blue: Scalar { bits: ONE_BITS },
            }),
    {
        Color { red: Scalar::one(), green: Scalar::one(), blue: Scalar::one() }
    }
}

} // verus!
