//! What a scene decides while a ray is traced: the sorted list of all its
//! intersections, whether a point lies in shadow, and whether a reflected or
//! a refracted ray is still cast.

use vstd::prelude::*;
use crate::intersection::{Intersection, Intersections, hit_of, stably_sorted};
use crate::scalar::{Scalar, ONE_BITS};

verus! {

/// The intersections that the shapes of a scene reported, one entry per
/// shape, laid end to end in the order of the shapes. A shape that reported
/// nothing adds nothing.
pub open spec fn gathered(parts: Seq<Option<Intersections>>) -> Seq<Intersection>
    decreases parts.len(),
{
    if parts.len() == 0 {
        Seq::empty()
    } else {
        gathered(parts.drop_last()) + match parts.last() {
            Some(part) => part@,
            None => Seq::empty(),
        }
    }
}

/// Intersects a ray with every shape of a scene: `probe` is asked once for
/// each of the `objects`, in their order, and what it reports is merged and
/// sorted by ascending distance. Intersections at equal distances stay in
/// the order of their shapes.
pub fn intersect<S, F: Fn(&S) -> Option<Intersections>>(objects: &Vec<S>, probe: F) -> (xs:
    Intersections)
    requires
        forall|i: int| 0 <= i < objects@.len() ==> call_requires(probe, (&objects@[i],)),
    ensures
        exists|parts: Seq<Option<Intersections>>|
            {
                &&& parts.len() == objects@.len()
                &&& forall|i: int|
                    0 <= i < parts.len() ==> call_ensures(
                        probe,
                        (&objects@[i],),
                        #[trigger] parts[i],
                    )
                &&& xs@ == stably_sorted(gathered(parts))
            },
{
    let mut xs = Intersections::new();
    let ghost mut parts: Seq<Option<Intersections>> = Seq::empty();
    let n: usize = objects.len();
    let mut i: usize = 0;
    while i < n
        invariant
            n == objects@.len(),
            0 <= i <= n,
            forall|i: int| 0 <= i < objects@.len() ==> call_requires(probe, (&objects@[i],)),
            parts.len() == i,
            forall|j: int|
                0 <= j < i ==> call_ensures(probe, (&objects@[j],), #[trigger] parts[j]),
            xs@ == gathered(parts),
        decreases n - i,
    {
        let part = probe(&objects[i]);
        proof {
            let longer = parts.push(part);
            assert(longer.drop_last() == parts);
            assert(longer.last() == part);
            assert(xs@ + Seq::<Intersection>::empty() == xs@);
            parts = longer;
        }
        if let Some(found) = part {
            xs.merge(found);
        }
        i = i + 1;
    }
    xs.sort();
    xs
}

/// Whether a point lies in shadow.
///
/// `toward_light` is nothing for a scene without a light: no point of it is
/// in shadow. Otherwise it holds the intersections of the ray from the point
/// towards the light and the distance from the point to the light: the point
/// is in shadow when that ray hits something before it reaches the light.
pub fn is_shadowed(toward_light: Option<(Intersections, Scalar)>) -> (r: bool)
    ensures
        r == match toward_light {
            None => false,
            Some((xs, distance)) => match hit_of(xs@) {
                Some(hit) => hit.t.lt(distance),
                None => false,
            },
        },
{
    match toward_light {
        None => false,
        Some((xs, distance)) => match xs.hit() {
            Some(hit) => hit.t.less_than(&distance),
            None => false,
        },
    }
}

/// The depth left for the ray that a surface reflects: nothing when no
/// depth is left or the surface does not reflect, else one less than
/// `remaining`.
pub open spec fn reflected_depth_of(remaining: usize, reflective: Scalar) -> Option<usize> {
    if remaining == 0 || reflective.same(Scalar { bits: 0 }) {
        None
    } else {
        Some((remaining - 1) as usize)
    }
}

/// The depth left for the ray that a surface lets through: nothing when no
/// depth is left, the surface is opaque, or the ray is reflected back
/// whole (`sin2_t`, the squared sine of the angle of refraction, is above
/// one), else one less than `remaining`.
pub open spec fn refracted_depth_of(remaining: usize, transparency: Scalar, sin2_t: Scalar)
    -> Option<
    usize,
> {
    if remaining == 0 || transparency.same(Scalar { bits: 0 }) || (Scalar { bits: ONE_BITS }).lt(
        sin2_t,
    ) {
        None
    } else {
        Some((remaining - 1) as usize)
    }
}

/// Decides whether the reflected ray is cast, and with what depth: see
/// [`reflected_depth_of`]. Where nothing is returned the reflected colour
/// is black.
pub fn reflected_depth(remaining: usize, reflective: Scalar) -> (r: Option<usize>)
    ensures
        r == reflected_depth_of(remaining, reflective),
        r matches Some(depth) ==> depth < remaining,
{
    if remaining == 0 || reflective.is_zero() {
        None
    } else {
        Some(remaining - 1)
    }
}

/// Decides whether the refracted ray is cast, and with what depth: see
/// [`refracted_depth_of`]. Where nothing is returned the refracted colour
/// is black.
pub fn refracted_depth(remaining: usize, transparency: Scalar, sin2_t: Scalar) -> (r: Option<
    usize,
>)
    ensures
        r == refracted_depth_of(remaining, transparency, sin2_t),
        r matches Some(depth) ==> depth < remaining,
{
    if remaining == 0 || transparency.is_zero() || sin2_t.greater_than(&Scalar::one()) {
        None
    } else {
        Some(remaining - 1)
    }
}

/// Whether the reflected and the refracted colour of a surface are weighed
/// by its reflectance: they are when the surface both reflects and lets
/// light through. Otherwise they are simply added to the colour of the
/// surface.
pub fn blends_by_reflectance(reflective: Scalar, transparency: Scalar) -> (r: bool)
    ensures
        r == ((Scalar { bits: 0 }).lt(reflective) && (Scalar { bits: 0 }).lt(transparency)),
{
    reflective.is_positive() && transparency.is_positive()
}

/// The colour that a ray brings back: black where it hits nothing, and
/// what `shade` makes of its hit where it hits something. `xs` holds the
/// intersections of the ray.
pub fn color_at<C, F: FnOnce(&Intersection) -> C>(xs: &Intersections, black: C, shade: F) -> (r: C)
    requires
        hit_of(xs@) matches Some(hit) ==> call_requires(shade, (&hit,)),
    ensures
        match hit_of(xs@) {
            Some(hit) => call_ensures(shade, (&hit,), r),
            None => r == black,
        },
{
    match xs.hit() {
        Some(hit) => shade(hit),
        None => black,
    }
}

/// The colour that a surface reflects: black where no depth is left or
/// the surface does not reflect, and what `trace` brings back where the
/// reflected ray is cast. `trace` is handed the depth that is left for that
/// ray, one less than `remaining`.
pub fn reflected_color<C, F: FnOnce(usize) -> C>(
    remaining: usize,
    reflective: Scalar,
    black: C,
    trace: F,
) -> (r: C)
    requires
        reflected_depth_of(remaining, reflective) matches Some(depth) ==> call_requires(
            trace,
            (depth,),
        ),
    ensures
        match reflected_depth_of(remaining, reflective) {
            Some(depth) => depth < remaining && call_ensures(trace, (depth,), r),
            None => r == black,
        },
{
    match reflected_depth(remaining, reflective) {
        Some(depth) => trace(depth),
        None => black,
    }
}

/// The colour that a surface lets through: black where no depth is left,
/// the surface is opaque or the ray is reflected back whole, and what
/// `trace` brings back where the refracted ray is cast. `trace` is handed
/// the depth that is left for that ray, one less than `remaining`.
pub fn refracted_color<C, F: FnOnce(usize) -> C>(
    remaining: usize,
    transparency: Scalar,
    sin2_t: Scalar,
    black: C,
    trace: F,
) -> (r: C)
    requires
        refracted_depth_of(remaining, transparency, sin2_t) matches Some(depth) ==> call_requires(
            trace,
            (depth,),
        ),
    ensures
        match refracted_depth_of(remaining, transparency, sin2_t) {
            Some(depth) => depth < remaining && call_ensures(trace, (depth,), r),
            None => r == black,
        },
{
    match refracted_depth(remaining, transparency, sin2_t) {
        Some(depth) => trace(depth),
        None => black,
    }
}

/// The colour of a hit, put together from the colour of the surface and
/// the colours that it reflects and lets through: `weighed` gives it where
/// the two are weighed by the reflectance of the surface (see
/// [`blends_by_reflectance`]), `summed` where they are simply added.
pub fn shade_hit<C, W: FnOnce() -> C, S: FnOnce() -> C>(
    reflective: Scalar,
    transparency: Scalar,
    weighed: W,
    summed: S,
) -> (r: C)
    requires
        call_requires(weighed, ()),
        call_requires(summed, ()),
    ensures
        if (Scalar { bits: 0 }).lt(reflective) && (Scalar { bits: 0 }).lt(transparency) {
            call_ensures(weighed, (), r)
        } else {
            call_ensures(summed, (), r)
        },
{
    if blends_by_reflectance(reflective, transparency) {
        weighed()
    } else {
        summed()
    }
}

/// Whether a ray traced with depth `parent` can cast a ray with depth
/// `child`, by reflection or by refraction.
pub open spec fn casts(parent: usize, child: usize) -> bool {
    ||| exists|reflective: Scalar| reflected_depth_of(parent, reflective) == Some(child)
    ||| exists|transparency: Scalar, sin2_t: Scalar|
        refracted_depth_of(parent, transparency, sin2_t) == Some(child)
}

/// Whether the ray at place `i + 1` of a chain is cast by the ray at place
/// `i`.
pub open spec fn cast_at(depths: Seq<usize>, i: int) -> bool {
    casts(depths[i], depths[i + 1])
}

/// Tracing ends, whatever the scene: along any chain of rays, each cast by
/// the one before it, the depth falls by one with every ray, so that a ray
/// traced with depth `d` is followed by at most `d` more.
pub proof fn lemma_depth_bounds_recursion(depths: Seq<usize>)
    requires
        depths.len() > 0,
        forall|i: int| 0 <= i < depths.len() - 1 ==> #[trigger] cast_at(depths, i),
    ensures
        depths.len() <= depths[0] + 1,
        depths.last() == depths[0] - (depths.len() - 1),
    decreases depths.len(),
{
    if depths.len() > 1 {
        let shorter = depths.drop_last();
        assert forall|i: int| 0 <= i < shorter.len() - 1 implies #[trigger] cast_at(shorter, i) by {
            assert(cast_at(depths, i));
        }
        lemma_depth_bounds_recursion(shorter);
        let last = depths.len() - 1;
        assert(cast_at(depths, last - 1));
        assert(shorter.last() == depths[last - 1]);
        assert(shorter[0] == depths[0]);
        assert(depths[last - 1] == depths[last] + 1);
    }
}

} // verus!
