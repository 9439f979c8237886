use ray_tracer::intersection::{Intersection, Intersections};
use ray_tracer::scalar::Scalar;

fn scalar(value: f64) -> Scalar {
    Scalar::from_bits(value.to_bits())
}

fn value(scalar: Scalar) -> f64 {
    f64::from_bits(scalar.to_bits())
}

fn list(ts: &[f64], object: u128) -> Intersections {
    let mut xs = Intersections::new();
    for t in ts {
        xs.push(Intersection::new(scalar(*t), object));
    }
    xs
}

#[test]
fn test_intersection_encapsulate_t_and_object() {
    let s: u128 = 17;
    let i = Intersection::new(scalar(3.5), s);

    assert_eq!(3.5, value(i.t));
    assert_eq!(s, i.object);
}

#[test]
fn test_aggregating_intersections() {
    let s: u128 = 17;
    let i1 = Intersection::new(scalar(1.), s);
    let i2 = Intersection::new(scalar(2.), s);

    let mut xs = Intersections::new();
    xs.push(i1);
    xs.push(i2);

    assert_eq!(2, xs.len());
    assert_eq!(1., value(xs.get(0).unwrap().t));
    assert_eq!(2., value(xs.get(1).unwrap().t));
}

#[test]
fn test_hit_when_all_intersections_have_positive_t() {
    let s: u128 = 17;
    let i1 = Intersection::new(scalar(1.), s);
    let i2 = Intersection::new(scalar(2.), s);

    let mut xs = Intersections::new();
    xs.push(i1);
    xs.push(i2);

    let hit = xs.hit().unwrap();

    assert_eq!(1., value(hit.t));
}

#[test]
fn test_hit_when_some_intersections_have_negative_t() {
    let s: u128 = 17;
    let i1 = Intersection::new(scalar(-1.), s);
    let i2 = Intersection::new(scalar(1.), s);

    let mut xs = Intersections::new();
    xs.push(i1);
    xs.push(i2);

    let hit = xs.hit().unwrap();

    assert_eq!(1., value(hit.t));
}

#[test]
fn test_hit_when_all_intersections_have_negative_t() {
    let s: u128 = 17;
    let i1 = Intersection::new(scalar(-1.), s);
    let i2 = Intersection::new(scalar(-2.), s);

    let mut xs = Intersections::new();
    xs.push(i1);
    xs.push(i2);

    assert!(xs.hit().is_none());
}

#[test]
fn test_hit_is_always_lowest_negative_value() {
    let s: u128 = 17;
    let i1 = Intersection::new(scalar(5.), s);
    let i2 = Intersection::new(scalar(7.), s);
    let i3 = Intersection::new(scalar(-3.), s);
    let i4 = Intersection::new(scalar(2.), s);

    let mut xs = Intersections::new();
    xs.push(i1);
    xs.push(i2);
    xs.push(i3);
    xs.push(i4);

    let hit = xs.hit().unwrap();

    assert_eq!(2., value(hit.t));
}

#[test]
fn hit_index_names_the_place_of_the_hit() {
    let xs = list(&[5., 7., -3., 2.], 1);
    assert_eq!(Some(3), xs.hit_index());
    assert_eq!(None, list(&[-1., -2.], 1).hit_index());
    assert_eq!(Some(1), list(&[-1., 1.], 1).hit_index());
}

#[test]
fn hit_of_an_empty_list_is_nothing() {
    let xs = Intersections::new();
    assert!(xs.hit().is_none());
    assert!(xs.first().is_none());
    assert!(xs.last().is_none());
    assert!(xs.get(0).is_none());
    assert_eq!(0, xs.len());
}

#[test]
fn hit_takes_a_distance_of_zero() {
    let xs = list(&[3., 0., -1.], 1);
    assert_eq!(0., value(xs.hit().unwrap().t));
    let xs = list(&[3., -0., -1.], 1);
    assert_eq!(Some(1), xs.hit_index());
}

#[test]
fn hit_takes_the_first_of_equal_distances() {
    let mut xs = Intersections::new();
    xs.push(Intersection::with_id(1, scalar(4.), 10));
    xs.push(Intersection::with_id(2, scalar(2.), 20));
    xs.push(Intersection::with_id(3, scalar(2.), 30));
    let hit = xs.hit().unwrap();
    assert_eq!(2, hit.id);
    assert_eq!(20, hit.object);
}

#[test]
fn hit_passes_over_what_is_not_a_number() {
    let xs = list(&[f64::NAN, 6., f64::NAN], 1);
    assert_eq!(Some(1), xs.hit_index());
    assert!(list(&[f64::NAN], 1).hit().is_none());
    let xs = list(&[f64::INFINITY, f64::NEG_INFINITY], 1);
    assert_eq!(Some(0), xs.hit_index());
}

#[test]
fn first_and_last_are_the_ends_of_the_list() {
    let xs = list(&[3., 1., 2.], 1);
    assert_eq!(3., value(xs.first().unwrap().t));
    assert_eq!(2., value(xs.last().unwrap().t));
    assert!(xs.get(3).is_none());
    assert_eq!(1., value(xs.get(1).unwrap().t));
}

#[test]
fn merge_appends_in_order() {
    let mut xs = list(&[3., 1.], 1);
    let ys = list(&[2., 0.5], 2);
    xs.merge(ys);
    assert_eq!(4, xs.len());
    let ts: Vec<f64> = (0..4).map(|i| value(xs.get(i).unwrap().t)).collect();
    assert_eq!(vec![3., 1., 2., 0.5], ts);
    assert_eq!(2, xs.get(2).unwrap().object);
}

#[test]
fn sort_orders_by_distance() {
    let mut xs = list(&[5., 7., -3., 2., 0., -0.5, 1e300, -1e-300], 1);
    xs.sort();
    let ts: Vec<f64> = (0..xs.len()).map(|i| value(xs.get(i).unwrap().t)).collect();
    assert_eq!(vec![-3., -0.5, -1e-300, 0., 2., 5., 7., 1e300], ts);
}

#[test]
fn sort_keeps_equal_distances_in_their_order() {
    let mut xs = Intersections::new();
    xs.push(Intersection::with_id(1, scalar(2.), 10));
    xs.push(Intersection::with_id(2, scalar(1.), 20));
    xs.push(Intersection::with_id(3, scalar(2.), 30));
    xs.push(Intersection::with_id(4, scalar(1.), 40));
    xs.push(Intersection::with_id(5, scalar(0.), 50));
    xs.push(Intersection::with_id(6, scalar(-0.), 60));
    xs.sort();
    let ids: Vec<u128> = (0..xs.len()).map(|i| xs.get(i).unwrap().id).collect();
    assert_eq!(vec![5, 6, 2, 4, 1, 3], ids);
}

#[test]
fn sort_puts_what_is_not_a_number_last() {
    let mut xs = list(&[f64::NAN, f64::INFINITY, 1., f64::NEG_INFINITY], 1);
    xs.sort();
    assert_eq!(f64::NEG_INFINITY, value(xs.get(0).unwrap().t));
    assert_eq!(1., value(xs.get(1).unwrap().t));
    assert_eq!(f64::INFINITY, value(xs.get(2).unwrap().t));
    assert!(value(xs.get(3).unwrap().t).is_nan());
}

#[test]
fn sort_agrees_with_the_order_of_the_numbers() {
    let values = [
        0.25, -7.5, 1e-310, -1e-310, 3.0, 2.9999999999999996, 1e308, -1e308, 0.0, 42.0, -42.0,
        5e-324, 1.0000000000000002, 1.0,
    ];
    let mut xs = list(&values, 1);
    xs.sort();
    let mut expected = values.to_vec();
    expected.sort_by(|a, b| a.partial_cmp(b).unwrap());
    let ts: Vec<f64> = (0..xs.len()).map(|i| value(xs.get(i).unwrap().t)).collect();
    assert_eq!(expected, ts);
}

#[test]
fn new_intersections_are_told_apart() {
    let a = Intersection::new(scalar(1.), 5);
    let b = Intersection::new(scalar(1.), 5);
    assert!(a.is(&a));
    assert!(!a.is(&b));
    let c = Intersection::with_id(a.id, scalar(9.), 6);
    assert!(a.is(&c));
}
