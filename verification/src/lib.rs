//! The verified core of a ray tracer.
//!
//! Everything here works on exact values. Numbers are carried as binary64
//! bit patterns ([`scalar::Scalar`]): the library keeps them, compares them
//! and turns their signs, and leaves all other arithmetic to its caller.
//! What it decides with them is proved of every input: which roots of an
//! equation are intersections, which intersection is the hit, which media a
//! ray leaves and enters, which parts the lighting of a point has, when a
//! reflected or refracted ray is still cast, where a pixel goes and how an
//! image is written out.
//!
//! - [`scalar`], [`tuple`], [`color`], [`matrix`], [`transformation`]: the
//!   values that the rest works with.
//! - [`light`], [`pattern`], [`material`], [`shape`]: what a scene is made
//!   of.
//! - [`sphere`], [`plane`], [`cube`], [`cylinder`], [`cone`]: where a ray
//!   crosses a shape.
//! - [`intersection`], [`computation`], [`world`]: the intersections of a
//!   ray, its hit, and what follows from the hit.
//! - [`canvas`], [`camera`]: the image and the way it is filled.
//! - [`decimal`], [`ppm`], [`export`], [`timestamp`]: images as files, and
//!   the names of the files.

pub mod scalar;
pub mod tuple;
pub mod color;
pub mod matrix;
pub mod transformation;
pub mod light;
pub mod pattern;
pub mod material;
pub mod shape;
pub mod sphere;
pub mod plane;
pub mod cube;
pub mod cylinder;
pub mod cone;
pub mod intersection;
pub mod computation;
pub mod world;
pub mod canvas;
pub mod camera;
pub mod decimal;
pub mod ppm;
pub mod export;
pub mod timestamp;
