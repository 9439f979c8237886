use ray_tracer::cone::Cone;
use ray_tracer::cube::{check_axis, face_at, Axis};
use ray_tracer::cylinder::{Cylinder, Face, OnCap, OnWall};
use ray_tracer::intersection::Intersections;
use ray_tracer::scalar::Scalar;

fn scalar(value: f64) -> Scalar {
    Scalar::from_bits(value.to_bits())
}

fn value(scalar: Scalar) -> f64 {
    f64::from_bits(scalar.to_bits())
}

fn distances(xs: &Intersections) -> Vec<f64> {
    (0..xs.len()).map(|i| value(xs.get(i).unwrap().t)).collect()
}

fn pair(a: f64, b: f64) -> (Scalar, Scalar) {
    (scalar(a), scalar(b))
}

fn numbers(pair: (Scalar, Scalar)) -> (f64, f64) {
    (value(pair.0), value(pair.1))
}

fn wall(t: f64, y: f64) -> OnWall {
    OnWall { t: scalar(t), y: scalar(y) }
}

fn cap(t: f64, radius2: f64) -> OnCap {
    OnCap { t: scalar(t), radius2: scalar(radius2) }
}

#[test]
fn the_roots_of_a_sphere_come_in_order() {
    let xs = ray_tracer::sphere::local_intersect(3, scalar(4.), scalar(6.), scalar(4.)).unwrap();
    assert_eq!(vec![4., 6.], distances(&xs));
    assert_eq!((3, 3), (xs.get(0).unwrap().object, xs.get(1).unwrap().object));
    let xs = ray_tracer::sphere::local_intersect(3, scalar(0.), scalar(5.), scalar(5.)).unwrap();
    assert_eq!(vec![5., 5.], distances(&xs));
    assert!(ray_tracer::sphere::local_intersect(3, scalar(-12.), scalar(1.), scalar(2.)).is_none());
    assert!(ray_tracer::sphere::local_intersect(3, scalar(-0.), scalar(1.), scalar(2.)).is_some());
}

#[test]
fn a_ray_along_a_plane_does_not_cross_it() {
    assert!(ray_tracer::plane::local_intersect(1, scalar(0.), scalar(f64::NAN)).is_none());
    assert!(ray_tracer::plane::local_intersect(1, scalar(0.0000099), scalar(7.)).is_none());
    assert!(ray_tracer::plane::local_intersect(1, scalar(-0.0000099), scalar(7.)).is_none());
    let xs = ray_tracer::plane::local_intersect(1, scalar(0.00001), scalar(7.)).unwrap();
    assert_eq!(vec![7.], distances(&xs));
    let xs = ray_tracer::plane::local_intersect(1, scalar(-1.), scalar(-2.)).unwrap();
    assert_eq!(vec![-2.], distances(&xs));
}

#[test]
fn the_slab_of_an_axis() {
    let inf = f64::INFINITY;
    // from 5 towards the cube: the faces at 1 and -1 are 4 and 6 away
    assert_eq!((4., 6.), numbers(check_axis(scalar(-1.), pair(6., 4.), pair(inf, inf))));
    assert_eq!((4., 6.), numbers(check_axis(scalar(1.), pair(4., 6.), pair(-inf, inf))));
    // along the slab, inside it and outside it
    assert_eq!((-inf, inf), numbers(check_axis(scalar(0.), pair(0., 0.), pair(-inf, inf))));
    assert_eq!((inf, inf), numbers(check_axis(scalar(0.000001), pair(0., 0.), pair(inf, inf))));
    assert_eq!((-inf, -inf), numbers(check_axis(scalar(-0.), pair(0., 0.), pair(-inf, -inf))));
}

#[test]
fn a_cube_is_crossed_where_all_slabs_overlap() {
    let inf = f64::INFINITY;
    let xs =
        ray_tracer::cube::local_intersect(2, pair(4., 6.), pair(-inf, inf), pair(-inf, inf))
            .unwrap();
    assert_eq!(vec![4., 6.], distances(&xs));
    let xs = ray_tracer::cube::local_intersect(2, pair(1., 6.), pair(2., 5.), pair(3., 4.)).unwrap();
    assert_eq!(vec![3., 4.], distances(&xs));
    assert!(ray_tracer::cube::local_intersect(2, pair(1., 2.), pair(3., 4.), pair(0., 9.)).is_none());
    let xs = ray_tracer::cube::local_intersect(2, pair(1., 2.), pair(2., 3.), pair(0., 9.)).unwrap();
    assert_eq!(vec![2., 2.], distances(&xs));
}

#[test]
fn the_face_of_a_cube() {
    assert_eq!(Axis::X, face_at(scalar(0.), scalar(0.5)));
    assert_eq!(Axis::Y, face_at(scalar(0.6), scalar(0.)));
    assert_eq!(Axis::Z, face_at(scalar(0.6), scalar(0.3)));
    assert_eq!(Axis::X, face_at(scalar(0.), scalar(0.)));
    assert_eq!(Axis::Y, face_at(scalar(0.00001), scalar(0.000009)));
}

#[test]
fn a_cylinder_is_cut_off_at_its_ends() {
    let cyl = Cylinder::with_min_max(scalar(1.), scalar(2.));
    let none = cap(0., 9.);
    let hit = |first: OnWall, second: OnWall| {
        let xs = cyl
            .local_intersect(5, scalar(1.), scalar(4.), first, second, scalar(0.), none, none)
            .unwrap();
        distances(&xs)
    };
    assert_eq!(vec![4., 6.], hit(wall(4., 1.5), wall(6., 1.5)));
    assert_eq!(vec![4., 6.], hit(wall(6., 1.5), wall(4., 1.5)));
    assert_eq!(vec![6.], hit(wall(4., 1.), wall(6., 1.5)));
    assert_eq!(vec![4.], hit(wall(4., 1.5), wall(6., 2.)));
    assert_eq!(Vec::<f64>::new(), hit(wall(4., 0.), wall(6., 3.)));
    assert!(cyl
        .local_intersect(5, scalar(1.), scalar(-4.), wall(4., 1.5), wall(6., 1.5), scalar(0.), none, none)
        .is_none());
}

#[test]
fn the_caps_of_a_cylinder() {
    let mut cyl = Cylinder::with_min_max(scalar(1.), scalar(2.));
    let (lower, upper) = (cap(3., 0.25), cap(2., 1.));
    assert_eq!(0, cyl.intersect_caps(5, scalar(-1.), lower, upper).len());
    cyl.close();
    assert_eq!(vec![3., 2.], distances(&cyl.intersect_caps(5, scalar(-1.), lower, upper)));
    assert_eq!(vec![3.], distances(&cyl.intersect_caps(5, scalar(-1.), lower, cap(2., 1.0001))));
    assert_eq!(0, cyl.intersect_caps(5, scalar(0.), lower, upper).len());
    // a ray along the axis crosses the caps alone
    let xs = cyl
        .local_intersect(5, scalar(0.), scalar(-1.), wall(0., 1.5), wall(0., 1.5), scalar(-1.), lower, upper)
        .unwrap();
    assert_eq!(vec![3., 2.], distances(&xs));
    // the wall comes before the caps
    let xs = cyl
        .local_intersect(5, scalar(1.), scalar(1.), wall(9., 1.5), wall(8., 5.), scalar(-1.), lower, upper)
        .unwrap();
    assert_eq!(vec![9., 3., 2.], distances(&xs));
}

#[test]
fn the_face_of_a_cylinder() {
    let face = |distance2: f64, y: f64| {
        Cylinder::face_at(scalar(distance2), scalar(y), scalar(2. - 0.00001), scalar(1. + 0.00001))
    };
    assert_eq!(Face::Upper, face(0.25, 2.));
    assert_eq!(Face::Lower, face(0.25, 1.));
    assert_eq!(Face::Wall, face(1., 1.5));
    assert_eq!(Face::Wall, face(1., 2.));
    assert_eq!(Face::Wall, face(0.25, 1.5));
}

#[test]
fn a_cylinder_without_ends() {
    let cyl = Cylinder::new();
    assert_eq!(f64::NEG_INFINITY, value(cyl.min));
    assert_eq!(f64::INFINITY, value(cyl.max));
    assert!(!cyl.closed);
    let cone = Cone::new();
    assert_eq!(f64::NEG_INFINITY, value(cone.min));
    assert_eq!(f64::INFINITY, value(cone.max));
    assert!(!cone.closed);
}

#[test]
fn the_roots_of_a_cone() {
    let mut cone = Cone::new();
    let hit = |cone: &Cone, a: f64, b: f64, disc: f64| {
        cone.local_intersect(8, scalar(a), scalar(b), scalar(0.5), scalar(disc), wall(7., 0.), wall(3., 1.))
            .map(|xs| distances(&xs))
    };
    assert_eq!(Some(vec![3., 7.]), hit(&cone, 1., 1., 4.));
    assert_eq!(None, hit(&cone, 1., 1., -4.));
    assert_eq!(Some(vec![0.5]), hit(&cone, 0., 1., -4.));
    assert_eq!(None, hit(&cone, 0., 0., 4.));
    cone.min = scalar(0.);
    cone.close();
    assert!(cone.closed);
    assert_eq!(Some(vec![3.]), hit(&cone, 1., 1., 4.));
}
