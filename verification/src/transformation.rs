//! The matrices that move, scale, turn and shear.

use vstd::prelude::*;
use crate::matrix::{M4, identity_entries};
use crate::scalar::Scalar;

verus! {

/// The matrix that moves a point by `x`, `y` and `z`: the identity with
/// the three in its last column.
pub fn translation(x: Scalar, y: Scalar, z: Scalar) -> (r: M4)
    ensures
        r.data@ == identity_entries().update(3, x).update(7, y).update(11, z),
{
    let mut base = M4::identity();
    base.set(x, 0, 3);
    base.set(y, 1, 3);
    base.set(z, 2, 3);
    base
}

/// The matrix that scales by `x`, `y` and `z`: the identity with the three
/// on its diagonal.
pub fn scaling(x: Scalar, y: Scalar, z: Scalar) -> (r: M4)
    ensures
        r.data@ == identity_entries().update(0, x).update(5, y).update(10, z),
{
    let mut base = M4::identity();
    base.set(x, 0, 0);
    base.set(y, 1, 1);
    base.set(z, 2, 2);
    base
}

/// The matrix that turns about the x axis by the angle with the given
/// cosine and sine.
pub fn rotation_x(cos: Scalar, sin: Scalar) -> (r: M4)
    ensures
        r.data@ == identity_entries().update(5, cos).update(6, sin.spec_negated()).update(
            9,
            sin,
        ).update(10, cos),
{
    let mut base = M4::identity();
    base.set(cos, 1, 1);
    base.set(sin.negated(), 1, 2);
    base.set(sin, 2, 1);
    base.set(cos, 2, 2);
    base
}

/// The matrix that turns about the y axis by the angle with the given
/// cosine and sine.
pub fn rotation_y(cos: Scalar, sin: Scalar) -> (r: M4)
    ensures
        r.data@ == identity_entries().update(0, cos).update(2, sin).update(
            8,
            sin.spec_negated(),
        ).update(10, cos),
{
    let mut base = M4::identity();
    base.set(cos, 0, 0);
    base.set(sin, 0, 2);
    base.set(sin.negated(), 2, 0);
    base.set(cos, 2, 2);
    base
}

/// The matrix that turns about the z axis by the angle with the given
/// cosine and sine.
pub fn rotation_z(cos: Scalar, sin: Scalar) -> (r: M4)
    ensures
        r.data@ == identity_entries().update(0, cos).update(1, sin.spec_negated()).update(
            4,
            sin,
        ).update(5, cos),
{
    let mut base = M4::identity();
    base.set(cos, 0, 0);
    base.set(sin.negated(), 0, 1);
    base.set(sin, 1, 0);
    base.set(cos, 1, 1);
    base
}

/// The matrix that shears: each coordinate moves in proportion to the two
/// others, `x` by `xy` for `y` and by `xz` for `z`, and so on.
pub fn shearing(xy: Scalar, xz: Scalar, yx: Scalar, yz: Scalar, zx: Scalar, zy: Scalar) -> (r: M4)
    ensures
        r.data@ == identity_entries().update(1, xy).update(2, xz).update(4, yx).update(
            6,
            yz,
        ).update(8, zx).update(9, zy),
{
    let mut base = M4::identity();
    base.set(xy, 0, 1);
    base.set(xz, 0, 2);
    base.set(yx, 1, 0);
    base.set(yz, 1, 2);
    base.set(zx, 2, 0);
    base.set(zy, 2, 1);
    base
}

} // verus!
