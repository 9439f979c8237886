use ray_tracer::color::Color;
use ray_tracer::computation::schlick;
use ray_tracer::material::{lighting, Lighting, Material};
use ray_tracer::scalar::Scalar;
use ray_tracer::shape::ShapeProps;

fn scalar(value: f64) -> Scalar {
    Scalar::from_bits(value.to_bits())
}

fn value(scalar: Scalar) -> f64 {
    f64::from_bits(scalar.to_bits())
}

fn color(red: f64, green: f64, blue: f64) -> Color {
    Color::new(scalar(red), scalar(green), scalar(blue))
}

#[test]
fn the_material_to_start_with() {
    let m: Material<u8> = Material::new();
    assert_eq!(color(1., 1., 1.), m.get_color());
    assert_eq!(0.1, value(m.get_ambient()));
    assert_eq!(0.9, value(m.get_diffuse()));
    assert_eq!(0.9, value(m.get_specular()));
    assert_eq!(200., value(m.get_shininess()));
    assert_eq!(0., value(m.get_reflective()));
    assert_eq!(0.0, value(m.get_transparency()));
    assert_eq!(1.0, value(m.get_refractive_index()));
    assert!(m.get_pattern().is_none());
    assert!(m.is_in_range());
}

#[test]
fn the_numbers_of_a_material_have_their_range() {
    let out_of_range: [fn(&mut Material<u8>); 9] = [
        |m| m.set_ambient(scalar(-0.1)),
        |m| m.set_diffuse(scalar(-1.)),
        |m| m.set_specular(scalar(f64::NAN)),
        |m| m.set_shininess(scalar(-200.)),
        |m| m.set_reflective(scalar(1.5)),
        |m| m.set_reflective(scalar(-0.5)),
        |m| m.set_transparency(scalar(2.)),
        |m| m.set_refractive_index(scalar(0.)),
        |m| m.set_refractive_index(scalar(-1.5)),
    ];
    for change in out_of_range {
        let mut m: Material<u8> = Material::new();
        change(&mut m);
        assert!(!m.is_in_range());
    }
    let mut m: Material<u8> = Material::new();
    m.set_ambient(scalar(0.));
    m.set_diffuse(scalar(3.));
    m.set_specular(scalar(1.));
    m.set_shininess(scalar(0.6));
    m.set_reflective(scalar(1.));
    m.set_transparency(scalar(1.));
    m.set_refractive_index(scalar(2.5));
    assert!(m.is_in_range());
}

#[test]
fn setting_one_number_leaves_the_others() {
    let mut m: Material<u8> = Material::new();
    m.set_reflective(scalar(0.5));
    m.set_color(color(0.8, 1., 0.6));
    assert_eq!(0.5, value(m.get_reflective()));
    assert_eq!(color(0.8, 1., 0.6), m.get_color());
    assert_eq!(0.1, value(m.get_ambient()));
    assert_eq!(0.9, value(m.get_diffuse()));
    assert_eq!(0.9, value(m.get_specular()));
    assert_eq!(200., value(m.get_shininess()));
    assert_eq!(0., value(m.get_transparency()));
    assert_eq!(1., value(m.get_refractive_index()));
}

#[test]
fn a_pattern_takes_the_place_of_the_colour() {
    let mut m: Material<u8> = Material::new();
    let sample = |pattern: &u8| color(*pattern as f64, 0., 0.);
    assert_eq!(color(1., 1., 1.), m.color_at(sample));
    m.set_pattern(7);
    assert_eq!(Some(7), *m.get_pattern());
    assert_eq!(color(7., 0., 0.), m.color_at(sample));
}

#[test]
fn the_properties_that_a_shape_starts_with() {
    let props: ShapeProps<u8> = ShapeProps::default();
    let identity = [1., 0., 0., 0., 0., 1., 0., 0., 0., 0., 1., 0., 0., 0., 0., 1.];
    assert_eq!(identity, props.get_transform().data.map(value));
    assert_eq!(0.1, value(props.get_material().get_ambient()));
    assert!(props.get_material().is_in_range());
    let other: ShapeProps<u8> = ShapeProps::default();
    assert_ne!(props.get_id(), other.get_id());
    assert_eq!(5, ShapeProps::<u8>::with_id(5).get_id());
}

#[test]
fn the_properties_of_a_shape_can_be_set() {
    let mut props: ShapeProps<u8> = ShapeProps::with_id(1);
    props.set_material_color(color(1., 0., 0.));
    props.set_material_ambient(scalar(0.2));
    props.set_material_diffuse(scalar(0.3));
    props.set_material_specular(scalar(0.4));
    props.set_material_shininess(scalar(50.));
    props.set_material_reflective(scalar(0.6));
    props.set_material_transparency(scalar(0.7));
    props.set_material_refractive_index(scalar(1.5));
    props.set_pattern(9);
    props.set_transform(ray_tracer::transformation::scaling(scalar(2.), scalar(2.), scalar(2.)));
    let m = props.get_material();
    assert_eq!(color(1., 0., 0.), m.get_color());
    assert_eq!(
        [0.2, 0.3, 0.4, 50., 0.6, 0.7, 1.5],
        [
            m.get_ambient(),
            m.get_diffuse(),
            m.get_specular(),
            m.get_shininess(),
            m.get_reflective(),
            m.get_transparency(),
            m.get_refractive_index()
        ]
        .map(value)
    );
    assert_eq!(Some(9), *m.get_pattern());
    assert_eq!(2., value(props.get_transform().get(1, 1)));
    assert_eq!(1, props.get_id());
    let mut other: Material<u8> = Material::new();
    other.set_ambient(scalar(1.));
    props.set_material(other);
    assert_eq!(1., value(props.get_material().get_ambient()));
    assert!(props.get_material().get_pattern().is_none());
}

#[test]
fn the_parts_of_the_lighting() {
    let lit = Lighting { diffuse: true, specular: true };
    let matt = Lighting { diffuse: true, specular: false };
    let dark = Lighting { diffuse: false, specular: false };
    assert_eq!(lit, lighting(false, scalar(1.), scalar(1.)));
    assert_eq!(matt, lighting(false, scalar(1.), scalar(0.)));
    assert_eq!(matt, lighting(false, scalar(0.), scalar(-1.)));
    assert_eq!(lit, lighting(false, scalar(0.), scalar(0.5)));
    assert_eq!(dark, lighting(false, scalar(-0.1), scalar(1.)));
    assert_eq!(dark, lighting(true, scalar(1.), scalar(1.)));
    assert_eq!(dark, lighting(false, scalar(f64::NAN), scalar(1.)));
    assert_eq!(matt, lighting(false, scalar(1.), scalar(f64::NAN)));
}

#[test]
fn light_that_is_reflected_whole_has_reflectance_one() {
    let (from_denser, plain) = (scalar(0.25), scalar(0.75));
    // from glass into air at a flat angle
    let r = schlick(scalar(1.5), scalar(1.), scalar(1.125), from_denser, plain);
    assert_eq!(1.0f64.to_bits(), r.to_bits());
    // from glass into air at a steep angle
    let r = schlick(scalar(1.5), scalar(1.), scalar(0.5), from_denser, plain);
    assert_eq!(0.25, value(r));
    let r = schlick(scalar(1.5), scalar(1.), scalar(1.), from_denser, plain);
    assert_eq!(0.25, value(r));
    // from air into glass, and between equal media
    let r = schlick(scalar(1.), scalar(1.5), scalar(1.125), from_denser, plain);
    assert_eq!(0.75, value(r));
    let r = schlick(scalar(1.5), scalar(1.5), scalar(2.), from_denser, plain);
    assert_eq!(0.75, value(r));
}
