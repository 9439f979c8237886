//! Materials, and which parts of the light reach the eye from a point of
//! a surface.

use vstd::prelude::*;
use crate::color::Color;
use crate::scalar::{Scalar, ONE_BITS};

verus! {

/// The bit pattern of 0.1, the ambient part of a material to start with.
pub const AMBIENT_BITS: u64 = 0x3fb9_9999_9999_999a;

/// The bit pattern of 0.9, the diffuse and the specular part of a material
/// to start with.
pub const DIFFUSE_BITS: u64 = 0x3fec_cccc_cccc_cccd;

/// The bit pattern of 200, the shininess of a material to start with.
pub const SHININESS_BITS: u64 = 0x4069_0000_0000_0000;

/// What a surface is made of: its colour, a pattern that takes the place
/// of the colour where there is one, and the numbers by which it sends
/// light on. The library keeps a pattern without looking into it.
#[derive(Debug)]
pub struct Material<P> {
    pub color: Color,
    pub pattern: Option<P>,
    pub ambient: Scalar,
    pub diffuse: Scalar,
    pub specular: Scalar,
    pub shininess: Scalar,
    pub reflective: Scalar,
    pub transparency: Scalar,
    pub refractive_index: Scalar,
}

impl<P> Material<P> {
    /// Whether the numbers of the material are such as a surface can have:
    /// no part of the lighting and no shininess below zero, what is
    /// reflected and what is let through between zero and one, and a
    /// refractive index above zero.
    pub open spec fn in_range(self) -> bool {
        let zero = Scalar { bits: 0 };
        let one = Scalar { bits: ONE_BITS };
        &&& zero.le(self.ambient)
        &&& zero.le(self.diffuse)
        &&& zero.le(self.specular)
        &&& zero.le(self.shininess)
        &&& zero.le(self.reflective) && self.reflective.le(one)
        &&& zero.le(self.transparency) && self.transparency.le(one)
        &&& zero.lt(self.refractive_index)
    }

    /// The material that every shape starts with: white and without a
    /// pattern, matt, opaque, and with the refractive index of empty space.
    pub fn new() -> (r: Material<P>)
        ensures
            r.color == (Color {
                red: Scalar { bits: ONE_BITS },
                green: Scalar { bits: ONE_BITS },
                blue: Scalar { bits: ONE_BITS },
            }),
            r.pattern is None,
            r.ambient.bits == AMBIENT_BITS,
            r.diffuse.bits == DIFFUSE_BITS,
            r.specular.bits == DIFFUSE_BITS,
            r.shininess.bits == SHININESS_BITS,
            r.reflective.bits == 0,
            r.transparency.bits == 0,
            r.refractive_index.bits == ONE_BITS,
            r.in_range(),
    {
        Material {
            color: Color::white(),
            pattern: None,
            ambient: Scalar::from_bits(AMBIENT_BITS),
            diffuse: Scalar::from_bits(DIFFUSE_BITS),
            specular: Scalar::from_bits(DIFFUSE_BITS),
            shininess: Scalar::from_bits(SHININESS_BITS),
            reflective: Scalar::zero(),
            transparency: Scalar::zero(),
            refractive_index: Scalar::one(),
        }
    }

    /// Tells whether the numbers of the material are such as a surface can
    /// have: see [`Material::in_range`].
    pub fn is_in_range(&self) -> (r: bool)
        ensures
            r == self.in_range(),
    {
        let zero = Scalar::zero();
        let one = Scalar::one();
        zero.at_most(&self.ambient) && zero.at_most(&self.diffuse) && zero.at_most(&self.specular)
            && zero.at_most(&self.shininess) && zero.at_most(&self.reflective)
            && self.reflective.at_most(&one) && zero.at_most(&self.transparency)
            && self.transparency.at_most(&one) && zero.less_than(&self.refractive_index)
    }

    /// The colour of the surface at a point: that of the pattern where the
    /// material has one, which `sample` works out, and the colour of the
    /// material where it has none.
    pub fn color_at<F: FnOnce(&P) -> Color>(&self, sample: F) -> (r: Color)
        requires
            self.pattern matches Some(pattern) ==> call_requires(sample, (&pattern,)),
        ensures
            match self.pattern {
                Some(pattern) => call_ensures(sample, (&pattern,), r),
                None => r == self.color,
            },
    {
        match &self.pattern {
            Some(pattern) => sample(pattern),
            None => self.color,
        }
    }

    /// The colour of the material.
    pub fn get_color(&self) -> (r: Color)
        ensures
            r == self.color,
    {
        self.color
    }

    /// Gives the material another colour.
    pub fn set_color(&mut self, new: Color)
        ensures
            *final(self) == (Material { color: new, ..*old(self) }),
    {
        self.color = new
    }

    /// The pattern of the material, if it has one.
    pub fn get_pattern(&self) -> (r: &Option<P>)
        ensures
            *r == self.pattern,
    {
        &self.pattern
    }

    /// Gives the material a pattern, which takes the place of its colour.
    pub fn set_pattern(&mut self, new: P)
        ensures
            *final(self) == (Material { pattern: Some(new), ..*old(self) }),
    {
        self.pattern = Some(new)
    }

    /// The share of the light that the surface shows wherever it is.
    pub fn get_ambient(&self) -> (r: Scalar)
        ensures
            r == self.ambient,
    {
        self.ambient
    }

    /// Sets the share of the light that the surface shows wherever it is.
    pub fn set_ambient(&mut self, new: Scalar)
        ensures
            *final(self) == (Material { ambient: new, ..*old(self) }),
    {
        self.ambient = new
    }

    /// The share of the light that the surface scatters.
    pub fn get_diffuse(&self) -> (r: Scalar)
        ensures
            r == self.diffuse,
    {
        self.diffuse
    }

    /// Sets the share of the light that the surface scatters.
    pub fn set_diffuse(&mut self, new: Scalar)
        ensures
            *final(self) == (Material { diffuse: new, ..*old(self) }),
    {
        self.diffuse = new
    }

    /// The strength of the highlight.
    pub fn get_specular(&self) -> (r: Scalar)
        ensures
            r == self.specular,
    {
        self.specular
    }

    /// Sets the strength of the highlight.
    pub fn set_specular(&mut self, new: Scalar)
        ensures
            *final(self) == (Material { specular: new, ..*old(self) }),
    {
        self.specular = new
    }

    /// How tight the highlight is.
    pub fn get_shininess(&self) -> (r: Scalar)
        ensures
            r == self.shininess,
    {
        self.shininess
    }

    /// Sets how tight the highlight is.
    pub fn set_shininess(&mut self, new: Scalar)
        ensures
            *final(self) == (Material { shininess: new, ..*old(self) }),
    {
        self.shininess = new
    }

    /// The share of the light that the surface mirrors.
    pub fn get_reflective(&self) -> (r: Scalar)
        ensures
            r == self.reflective,
    {
        self.reflective
    }

    /// Sets the share of the light that the surface mirrors.
    pub fn set_reflective(&mut self, new: Scalar)
        ensures
            *final(self) == (Material { reflective: new, ..*old(self) }),
    {
        self.reflective = new
    }

    /// The share of the light that the surface lets through.
    pub fn get_transparency(&self) -> (r: Scalar)
        ensures
            r == self.transparency,
    {
        self.transparency
    }

    /// Sets the share of the light that the surface lets through.
    pub fn set_transparency(&mut self, new: Scalar)
        ensures
            *final(self) == (Material { transparency: new, ..*old(self) }),
    {
        self.transparency = new
    }

    /// The refractive index of what lies behind the surface.
    pub fn get_refractive_index(&self) -> (r: Scalar)
        ensures
            r == self.refractive_index,
    {
        self.refractive_index
    }

    /// Sets the refractive index of what lies behind the surface.
    pub fn set_refractive_index(&mut self, new: Scalar)
        ensures
            *final(self) == (Material { refractive_index: new, ..*old(self) }),
    {
        self.refractive_index = new
    }
}

/// The parts of the lighting of a point beyond the ambient part, which is
/// always there: whether the surface shows the light scattered (`diffuse`)
/// and whether it shows the highlight of the light (`specular`).
#[derive(Clone, Copy, Debug, PartialEq, Eq, Structural)]
pub struct Lighting {
    pub diffuse: bool,
    pub specular: bool,
}

/// Decides which parts the lighting of a point has.
///
/// `light_dot_normal` is the cosine of the angle between the direction to
/// the light and the normal, `reflect_dot_eye` the cosine of the angle
/// between the reflected light and the direction to the eye. A point in
/// shadow and a point that faces away from the light, its
/// `light_dot_normal` below zero, have the ambient part alone. Every other
/// point has the diffuse part, and the specular part too when the
/// reflected light runs towards the eye, its `reflect_dot_eye` above zero.
pub fn lighting(in_shadow: bool, light_dot_normal: Scalar, reflect_dot_eye: Scalar) -> (r:
    Lighting)
    ensures
        r.diffuse == (!in_shadow && light_dot_normal.non_negative()),
        r.specular == (r.diffuse && (Scalar { bits: 0 }).lt(reflect_dot_eye)),
{
    if !in_shadow && light_dot_normal.is_non_negative() {
        Lighting { diffuse: true, specular: reflect_dot_eye.is_positive() }
    } else {
        Lighting { diffuse: false, specular: false }
    }
}

} // verus!
