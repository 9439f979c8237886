use ray_tracer::color::{cut_part, Color};
use ray_tracer::light::{PointLight, PointLightError};
use ray_tracer::pattern::{alternating, ringed, PatternProps};
use ray_tracer::scalar::Scalar;
use ray_tracer::tuple::Tuple;

fn scalar(value: f64) -> Scalar {
    Scalar::from_bits(value.to_bits())
}

fn value(scalar: Scalar) -> f64 {
    f64::from_bits(scalar.to_bits())
}

fn color(red: f64, green: f64, blue: f64) -> Color {
    Color::new(scalar(red), scalar(green), scalar(blue))
}

fn point(x: f64, y: f64, z: f64) -> Tuple {
    Tuple::point(scalar(x), scalar(y), scalar(z))
}

fn tuple(x: f64, y: f64, z: f64, w: f64) -> Tuple {
    Tuple::new(scalar(x), scalar(y), scalar(z), scalar(w))
}

#[test]
fn point_in_light_has_position_and_intensity() {
    let intensity = color(1.0, 1.0, 1.0);
    let position = point(0.0, 0.0, 0.0);
    let light = PointLight::new(position, intensity).unwrap();

    assert_eq!(intensity, light.intensity());
    assert_eq!(position, light.position());
}

#[test]
fn test_point_light_has_position_and_intensity() {
    let intensity = color(1., 1., 1.);
    let position = point(0., 0., 0.);
    let light = PointLight::new(position, intensity).unwrap();

    assert_eq!(position, light.position());
    assert_eq!(intensity, light.intensity());
}

#[test]
fn a_light_has_to_be_at_a_point() {
    let white = Color::white();
    let vector = Tuple::vector(scalar(1.), scalar(2.), scalar(3.));
    assert_eq!(Err(PointLightError::PositionMustBePoint), PointLight::new(vector, white));
    let neither = tuple(1., 2., 3., 2.);
    assert_eq!(Err(PointLightError::PositionMustBePoint), PointLight::new(neither, white));
    let not_a_number = tuple(1., 2., 3., f64::NAN);
    assert_eq!(Err(PointLightError::PositionMustBePoint), PointLight::new(not_a_number, white));
    assert!(PointLight::new(tuple(1., 2., 3., 1.), white).is_ok());
}

#[test]
fn a_light_from_coordinates_is_at_that_point() {
    let light = PointLight::from_cords(scalar(-10.), scalar(10.), scalar(-10.), Color::white());
    assert_eq!(point(-10., 10., -10.), light.position());
    assert!(light.position().is_point());
    assert_eq!(color(1., 1., 1.), light.intensity());
}

#[test]
fn color_are_red_green_blue() {
    let c = color(1_f64, 2_f64, 3_f64);

    assert_eq!(value(c.red), 1_f64);
    assert_eq!(value(c.green), 2_f64);
    assert_eq!(value(c.blue), 3_f64);
}

#[test]
fn parts_are_cut_to_the_range_of_an_image() {
    assert_eq!(1., value(cut_part(scalar(1.5))));
    assert_eq!(0., value(cut_part(scalar(-0.5))));
    assert_eq!(0.5, value(cut_part(scalar(0.5))));
    assert_eq!(1., value(cut_part(scalar(1.))));
    assert_eq!(0., value(cut_part(scalar(0.))));
    assert_eq!(1., value(cut_part(scalar(f64::INFINITY))));
    assert_eq!(0., value(cut_part(scalar(f64::NEG_INFINITY))));
    assert!(value(cut_part(scalar(f64::NAN))).is_nan());
    assert_eq!(color(1., 0., 0.25), color(1.5, -0.5, 0.25).cut_to_range());
}

#[test]
fn black_and_white() {
    assert_eq!(color(0., 0., 0.), Color::black());
    assert_eq!(color(1., 1., 1.), Color::white());
}

#[test]
fn a_tuple_with_w_equals_1_is_a_point() {
    let a = tuple(1_f64, 2_f64, 3_f64, 1_f64);

    assert_eq!(1_f64, value(a.x));
    assert_eq!(2_f64, value(a.y));
    assert_eq!(3_f64, value(a.z));
    assert_eq!(1_f64, value(a.w));
    assert!(a.is_point());
    assert!(!a.is_vector());
}

#[test]
fn a_tuple_with_w_equals_0_is_a_vector() {
    let a = tuple(1_f64, 2_f64, 3_f64, 0_f64);

    assert_eq!(1_f64, value(a.x));
    assert_eq!(2_f64, value(a.y));
    assert_eq!(3_f64, value(a.z));
    assert_eq!(0_f64, value(a.w));
    assert!(a.is_vector());
    assert!(!a.is_point());
}

#[test]
fn point_fn_creates_point() {
    let a = tuple(1_f64, 2_f64, 3_f64, 1_f64);
    let b = point(1_f64, 2_f64, 3_f64);

    assert_eq!(b, a)
}

#[test]
fn vector_fn_creates_vector() {
    let a = tuple(1_f64, 2_f64, 3_f64, 0_f64);
    let b = Tuple::vector(scalar(1_f64), scalar(2_f64), scalar(3_f64));

    assert_eq!(b, a)
}

#[test]
fn test_tuple_with_w_equals_1_is_point() {
    let p: Tuple = tuple(4.3, -4.2, 3.1, 1.);

    assert_eq!(value(p.x), 4.3);
    assert_eq!(value(p.y), -4.2);
    assert_eq!(value(p.z), 3.1);
    assert!(p.is_point());
    assert!(!p.is_direction());
}

#[test]
fn test_tuple_with_w_equals_0_is_direction() {
    let d = tuple(4.3, -4.2, 3.1, 0.);

    assert_eq!(value(d.x), 4.3);
    assert_eq!(value(d.y), -4.2);
    assert_eq!(value(d.z), 3.1);
    assert!(d.is_direction());
    assert!(!d.is_point());
}

#[test]
fn test_point_has_factory_fn() {
    let p: Tuple = point(4.3, -4.2, 3.1);
    let c: Tuple = tuple(4.3, -4.2, 3.1, 1.);

    assert_eq!(p, c);
}

#[test]
fn test_direction_has_factory_fn() {
    let p: Tuple = Tuple::direction(scalar(4.3), scalar(-4.2), scalar(3.1));
    let c: Tuple = tuple(4.3, -4.2, 3.1, 0.);

    assert_eq!(p, c);
}

#[test]
fn the_origin_is_a_point() {
    assert_eq!(point(0., 0., 0.), Tuple::origin_point());
    let (x, y, z) = point(1., 2., 3.).xyz();
    assert_eq!((1., 2., 3.), (value(x), value(y), value(z)));
    assert!(tuple(0., 0., 0., -0.).is_vector());
}

#[test]
fn colours_that_change_from_step_to_step() {
    let (a, b) = (color(1., 1., 1.), color(0., 0., 0.));
    assert_eq!(a, alternating(a, b, scalar(0.)));
    assert_eq!(a, alternating(a, b, scalar(-0.)));
    assert_eq!(b, alternating(a, b, scalar(1.)));
    assert_eq!(b, alternating(a, b, scalar(-1.)));
    assert_eq!(b, alternating(a, b, scalar(f64::NAN)));
    assert_eq!(a, ringed(a, b, scalar(0.)));
    assert_eq!(a, ringed(a, b, scalar(-0.000009)));
    assert_eq!(b, ringed(a, b, scalar(1.)));
    assert_eq!(b, ringed(a, b, scalar(0.00001)));
}

#[test]
fn a_pattern_starts_without_a_transformation() {
    let mut props = PatternProps::default();
    let identity = [1., 0., 0., 0., 0., 1., 0., 0., 0., 0., 1., 0., 0., 0., 0., 1.];
    assert_eq!(identity, props.get_transform().data.map(value));
    props.set_transform(ray_tracer::transformation::translation(scalar(1.), scalar(2.), scalar(3.)));
    assert_eq!(3., value(props.get_transform().get(2, 3)));
}
