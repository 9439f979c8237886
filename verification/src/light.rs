//! The light of a scene.

use vstd::prelude::*;
use crate::color::Color;
use crate::scalar::Scalar;
use crate::tuple::Tuple;

verus! {

/// A light that shines from one point in all directions.
#[derive(Clone, Copy, Debug, PartialEq, Eq, Structural)]
pub struct PointLight {
    position: Tuple,
    intensity: Color,
}

/// Why a light could not be made.
#[derive(Clone, Copy, Debug, PartialEq, Eq, Structural)]
pub enum PointLightError {
    /// The position that was given is not a point.
    PositionMustBePoint,
}

impl PointLight {
    /// Where the light is. It is a point.
    pub closed spec fn spec_position(self) -> Tuple {
        self.position
    }

    /// The colour of the light.
    pub closed spec fn spec_intensity(self) -> Color {
        self.intensity
    }

    #[verifier::type_invariant]
    spec fn at_a_point(self) -> bool {
        self.position.spec_is_point()
    }

    /// A light at `position`, which has to be a point: any other tuple is
    /// refused.
    pub fn new(position: Tuple, intensity: Color) -> (r: Result<PointLight, PointLightError>)
        ensures
            position.spec_is_point() ==> r is Ok && r->Ok_0.spec_position() == position
                && r->Ok_0.spec_intensity() == intensity,
            !position.spec_is_point() ==> r == Err::<PointLight, PointLightError>(
                PointLightError::PositionMustBePoint,
            ),
    {
        if !position.is_point() {
            return Err(PointLightError::PositionMustBePoint);
        }
        Ok(PointLight { position, intensity })
    }

    /// A light at the point with the given coordinates.
    pub fn from_cords(x: Scalar, y: Scalar, z: Scalar, intensity: Color) -> (r: PointLight)
        ensures
            r.spec_position() == (Tuple { x, y, z, w: Scalar { bits: crate::scalar::ONE_BITS } }),
            r.spec_intensity() == intensity,
    {
        PointLight { position: Tuple::point(x, y, z), intensity }
    }

    /// Where the light is.
    pub fn position(&self) -> (r: Tuple)
        ensures
            r == self.spec_position(),
            r.spec_is_point(),
    {
        proof {
            use_type_invariant(self);
        }
        self.position
    }

    /// The colour of the light.
    pub fn intensity(&self) -> (r: Color)
        ensures
            r == self.spec_intensity(),
    {
        self.intensity
    }
}

} // verus!
