use ray_tracer::intersection::{Intersection, Intersections};
use ray_tracer::scalar::Scalar;
use ray_tracer::world::{
    blends_by_reflectance, color_at, intersect, is_shadowed, reflected_color, reflected_depth,
    refracted_color, refracted_depth, shade_hit,
};

fn scalar(value: f64) -> Scalar {
    Scalar::from_bits(value.to_bits())
}

fn value(scalar: Scalar) -> f64 {
    f64::from_bits(scalar.to_bits())
}

fn list(ts: &[f64], object: u128) -> Intersections {
    let mut xs = Intersections::new();
    for t in ts {
        xs.push(Intersection::new(scalar(*t), object));
    }
    xs
}

/// Where a ray along the z axis from z = -5 meets a sphere of the given
/// radius about the origin.
fn sphere_on_axis(id: u128, radius: f64) -> Option<Intersections> {
    Some(list(&[5. - radius, 5. + radius], id))
}

#[test]
fn intersect_gathers_and_sorts() {
    // two spheres about the origin, of radius 1 and 0.5
    let objects: Vec<(u128, f64)> = vec![(1, 1.), (2, 0.5)];
    let xs = intersect(&objects, |shape: &(u128, f64)| sphere_on_axis(shape.0, shape.1));
    assert_eq!(4, xs.len());
    assert_eq!(4., value(xs.get(0).unwrap().t));
    assert_eq!(4.5, value(xs.get(1).unwrap().t));
    assert_eq!(5.5, value(xs.get(2).unwrap().t));
    assert_eq!(6., value(xs.get(3).unwrap().t));
    let objects_hit: Vec<u128> = (0..4).map(|i| xs.get(i).unwrap().object).collect();
    assert_eq!(vec![1, 2, 2, 1], objects_hit);
}

#[test]
fn intersect_passes_over_shapes_that_are_missed() {
    let objects: Vec<u128> = vec![1, 2, 3];
    let xs = intersect(&objects, |shape: &u128| {
        if *shape == 2 {
            None
        } else {
            Some(list(&[*shape as f64], *shape))
        }
    });
    assert_eq!(2, xs.len());
    assert_eq!(1, xs.get(0).unwrap().object);
    assert_eq!(3, xs.get(1).unwrap().object);
    let nothing: Vec<u128> = vec![];
    assert_eq!(0, intersect(&nothing, |_: &u128| None).len());
}

#[test]
fn intersect_keeps_ties_in_the_order_of_the_shapes() {
    let objects: Vec<u128> = vec![9, 4, 6];
    let xs = intersect(&objects, |shape: &u128| Some(list(&[2., 1.], *shape)));
    let order: Vec<(f64, u128)> =
        (0..6).map(|i| (value(xs.get(i).unwrap().t), xs.get(i).unwrap().object)).collect();
    assert_eq!(vec![(1., 9), (1., 4), (1., 6), (2., 9), (2., 4), (2., 6)], order);
}

#[test]
fn a_scene_without_light_has_no_shadow() {
    assert!(!is_shadowed(None));
}

#[test]
fn shadow_needs_a_hit_before_the_light() {
    // nothing on the way
    assert!(!is_shadowed(Some((Intersections::new(), scalar(10.)))));
    // something between the point and the light
    assert!(is_shadowed(Some((list(&[4., 6.], 1), scalar(10.)))));
    // something behind the light
    assert!(!is_shadowed(Some((list(&[14., 16.], 1), scalar(10.)))));
    // something behind the point
    assert!(!is_shadowed(Some((list(&[-6., -4.], 1), scalar(10.)))));
    // something exactly as far as the light
    assert!(!is_shadowed(Some((list(&[10.], 1), scalar(10.)))));
}

#[test]
fn reflection_stops_at_depth_zero() {
    assert_eq!(None, reflected_depth(0, scalar(1.)));
    assert_eq!(None, reflected_depth(0, scalar(0.)));
}

#[test]
fn reflection_needs_a_reflective_surface() {
    assert_eq!(None, reflected_depth(5, scalar(0.)));
    assert_eq!(None, reflected_depth(5, scalar(-0.)));
    assert_eq!(Some(4), reflected_depth(5, scalar(0.5)));
    assert_eq!(Some(0), reflected_depth(1, scalar(1.)));
}

#[test]
fn refraction_stops_at_depth_zero() {
    assert_eq!(None, refracted_depth(0, scalar(1.), scalar(0.5)));
}

#[test]
fn refraction_needs_a_transparent_surface() {
    assert_eq!(None, refracted_depth(5, scalar(0.), scalar(0.5)));
    assert_eq!(Some(4), refracted_depth(5, scalar(1.), scalar(0.5)));
    assert_eq!(Some(0), refracted_depth(1, scalar(0.3), scalar(0.)));
}

#[test]
fn refraction_stops_under_total_internal_reflection() {
    // a ray inside glass, n1 = 1.5 and n2 = 1, at 45 degrees
    let n_ratio: f64 = 1.5 / 1.0;
    let cos_i: f64 = 2f64.sqrt() / 2.;
    let sin2_t = n_ratio.powi(2) * (1. - cos_i.powi(2));
    assert!(sin2_t > 1.);
    assert_eq!(None, refracted_depth(5, scalar(1.), scalar(sin2_t)));
    assert_eq!(Some(4), refracted_depth(5, scalar(1.), scalar(1.)));
}

#[test]
fn reflectance_weighs_only_surfaces_that_reflect_and_refract() {
    assert!(blends_by_reflectance(scalar(0.5), scalar(0.5)));
    assert!(!blends_by_reflectance(scalar(0.), scalar(0.5)));
    assert!(!blends_by_reflectance(scalar(0.5), scalar(0.)));
    assert!(!blends_by_reflectance(scalar(0.), scalar(0.)));
    assert!(!blends_by_reflectance(scalar(-1.), scalar(1.)));
}

#[test]
fn facing_mirrors_end_at_any_depth() {
    // every ray between two mirrors is reflected again while depth is left
    for depth in [0usize, 1, 4, 50] {
        let mut rays = 1;
        let mut remaining = depth;
        while let Some(next) = reflected_depth(remaining, scalar(1.)) {
            assert!(next < remaining);
            remaining = next;
            rays += 1;
        }
        assert_eq!(depth + 1, rays);
    }
}

#[test]
fn a_ray_that_hits_nothing_brings_back_black() {
    let shade = |hit: &Intersection| value(hit.t);
    assert_eq!(-1., color_at(&Intersections::new(), -1., shade));
    assert_eq!(-1., color_at(&list(&[-3., -2.], 1), -1., shade));
    assert_eq!(2., color_at(&list(&[5., 7., -3., 2.], 1), -1., shade));
}

#[test]
fn the_reflected_ray_is_traced_with_one_depth_less() {
    let trace = |depth: usize| depth as i64;
    assert_eq!(4, reflected_color(5, scalar(0.5), -1, trace));
    assert_eq!(0, reflected_color(1, scalar(1.), -1, trace));
    assert_eq!(-1, reflected_color(0, scalar(1.), -1, trace));
    assert_eq!(-1, reflected_color(5, scalar(0.), -1, trace));
}

#[test]
fn the_refracted_ray_is_traced_with_one_depth_less() {
    let trace = |depth: usize| depth as i64;
    assert_eq!(4, refracted_color(5, scalar(1.), scalar(0.5), -1, trace));
    assert_eq!(-1, refracted_color(0, scalar(1.), scalar(0.5), -1, trace));
    assert_eq!(-1, refracted_color(5, scalar(0.), scalar(0.5), -1, trace));
    assert_eq!(-1, refracted_color(5, scalar(1.), scalar(1.125), -1, trace));
}

#[test]
fn the_colours_of_a_hit_are_weighed_or_added() {
    assert_eq!("weighed", shade_hit(scalar(0.5), scalar(0.5), || "weighed", || "summed"));
    assert_eq!("summed", shade_hit(scalar(0.), scalar(0.5), || "weighed", || "summed"));
    assert_eq!("summed", shade_hit(scalar(0.5), scalar(0.), || "weighed", || "summed"));
}

#[test]
fn tracing_between_mirrors_ends_at_any_depth() {
    fn bounce(remaining: usize, rays: &std::cell::Cell<usize>) -> usize {
        rays.set(rays.get() + 1);
        reflected_color(remaining, scalar(1.), 0, |depth: usize| 1 + bounce(depth, rays))
    }
    for depth in [0usize, 1, 4, 60] {
        let rays = std::cell::Cell::new(0);
        assert_eq!(depth, bounce(depth, &rays));
        assert_eq!(depth + 1, rays.get());
    }
}
