//! What every shape has: an identity, a place in the world and a material.

use vstd::prelude::*;
use crate::color::Color;
use crate::intersection::random_identity;
use crate::material::Material;
use crate::matrix::{M4, identity_entries};
use crate::scalar::Scalar;

verus! {

/// The properties that all shapes share. `id` tells the shape from every
/// other one, `transform` takes its own space to the space of the world,
/// and `material` says what its surface is made of.
#[derive(Debug)]
pub struct ShapeProps<P> {
    pub id: u128,
    pub transform: M4,
    pub material: Material<P>,
}

impl<P> ShapeProps<P> {
    /// The properties that a shape starts with: a freshly drawn identity,
    /// no transformation and the material of [`Material::new`].
    pub fn default() -> (r: ShapeProps<P>)
        ensures
            r.transform.data@ == identity_entries(),
            r.material.pattern is None,
            r.material.in_range(),
            r.material.color == (Color {
                red: Scalar { bits: crate::scalar::ONE_BITS },
                green: Scalar { bits: crate::scalar::ONE_BITS },
                blue: Scalar { bits: crate::scalar::ONE_BITS },
            }),
            r.material.ambient.bits == crate::material::AMBIENT_BITS,
            r.material.diffuse.bits == crate::material::DIFFUSE_BITS,
            r.material.specular.bits == crate::material::DIFFUSE_BITS,
            r.material.shininess.bits == crate::material::SHININESS_BITS,
            r.material.reflective.bits == 0,
            r.material.transparency.bits == 0,
            r.material.refractive_index.bits == crate::scalar::ONE_BITS,
    {
        ShapeProps::with_id(random_identity())
    }

    /// The properties that a shape starts with, under the identity that the
    /// caller chose.
    pub fn with_id(id: u128) -> (r: ShapeProps<P>)
        ensures
            r.id == id,
            r.transform.data@ == identity_entries(),
            r.material.pattern is None,
            r.material.in_range(),
            r.material.color == (Color {
                red: Scalar { bits: crate::scalar::ONE_BITS },
                green: Scalar { bits: crate::scalar::ONE_BITS },
                blue: Scalar { bits: crate::scalar::ONE_BITS },
            }),
            r.material.ambient.bits == crate::material::AMBIENT_BITS,
            r.material.diffuse.bits == crate::material::DIFFUSE_BITS,
            r.material.specular.bits == crate::material::DIFFUSE_BITS,
            r.material.shininess.bits == crate::material::SHININESS_BITS,
            r.material.reflective.bits == 0,
            r.material.transparency.bits == 0,
            r.material.refractive_index.bits == crate::scalar::ONE_BITS,
    {
        ShapeProps { id, transform: M4::identity(), material: Material::new() }
    }

    /// The identity of the shape.
    pub fn get_id(&self) -> (r: u128)
        ensures
            r == self.id,
    {
        self.id
    }

    /// The matrix that takes the space of the shape to the space of the world.
    pub fn get_transform(&self) -> (r: M4)
        ensures
            r == self.transform,
    {
        self.transform
    }

    /// Places the shape in the world.
    pub fn set_transform(&mut self, new: M4)
        ensures
            *final(self) == (ShapeProps { transform: new, ..*old(self) }),
    {
        self.transform = new
    }

    /// The material of the shape.
    pub fn get_material(&self) -> (r: &Material<P>)
        ensures
            *r == self.material,
    {
        &self.material
    }

    /// Gives the shape another material.
    pub fn set_material(&mut self, new: Material<P>)
        ensures
            *final(self) == (ShapeProps { material: new, ..*old(self) }),
    {
        self.material = new
    }

    /// Gives the material of the shape another colour.
    pub fn set_material_color(&mut self, new: Color)
        ensures
            *final(self) == (ShapeProps {
                material: Material { color: new, ..old(self).material },
                ..*old(self)
            }),
    {
        self.material.set_color(new)
    }

    /// Sets the ambient part of the material of the shape.
    pub fn set_material_ambient(&mut self, new: Scalar)
        ensures
            *final(self) == (ShapeProps {
                material: Material { ambient: new, ..old(self).material },
                ..*old(self)
            }),
    {
        self.material.set_ambient(new);
    }

    /// Sets the diffuse part of the material of the shape.
    pub fn set_material_diffuse(&mut self, new: Scalar)
        ensures
            *final(self) == (ShapeProps {
                material: Material { diffuse: new, ..old(self).material },
                ..*old(self)
            }),
    {
        self.material.set_diffuse(new);
    }

    /// Sets the specular part of the material of the shape.
    pub fn set_material_specular(&mut self, new: Scalar)
        ensures
            *final(self) == (ShapeProps {
                material: Material { specular: new, ..old(self).material },
                ..*old(self)
            }),
    {
        self.material.set_specular(new);
    }

    /// Sets how much the material of the shape mirrors.
    pub fn set_material_reflective(&mut self, new: Scalar)
        ensures
            *final(self) == (ShapeProps {
                material: Material { reflective: new, ..old(self).material },
                ..*old(self)
            }),
    {
        self.material.set_reflective(new);
    }

    /// Sets the shininess of the material of the shape.
    pub fn set_material_shininess(&mut self, new: Scalar)
        ensures
            *final(self) == (ShapeProps {
                material: Material { shininess: new, ..old(self).material },
                ..*old(self)
            }),
    {
        self.material.set_shininess(new);
    }

    /// Sets how much the material of the shape lets through.
    pub fn set_material_transparency(&mut self, new: Scalar)
        ensures
            *final(self) == (ShapeProps {
                material: Material { transparency: new, ..old(self).material },
                ..*old(self)
            }),
    {
        self.material.set_transparency(new);
    }

    /// Sets the refractive index of the material of the shape.
    pub fn set_material_refractive_index(&mut self, new: Scalar)
        ensures
            *final(self) == (ShapeProps {
                material: Material { refractive_index: new, ..old(self).material },
                ..*old(self)
            }),
    {
        self.material.set_refractive_index(new);
    }

    /// Gives the material of the shape a pattern.
    pub fn set_pattern(&mut self, new: P)
        ensures
            *final(self) == (ShapeProps {
                material: Material { pattern: Some(new), ..old(self).material },
                ..*old(self)
            }),
    {
        self.material.set_pattern(new)
    }
}

} // verus!
