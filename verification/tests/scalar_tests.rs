use ray_tracer::scalar::Scalar;

fn scalar(value: f64) -> Scalar {
    Scalar::from_bits(value.to_bits())
}

const SAMPLES: [f64; 17] = [
    f64::NEG_INFINITY,
    -1e308,
    -3.5,
    -1.0,
    -1e-300,
    -5e-324,
    -0.0,
    0.0,
    5e-324,
    1e-300,
    0.5,
    1.0,
    1.0000000000000002,
    3.5,
    1e308,
    f64::INFINITY,
    f64::NAN,
];

#[test]
fn bits_go_through_unchanged() {
    for x in SAMPLES {
        assert_eq!(x.to_bits(), scalar(x).to_bits());
    }
    assert_eq!(0x4014_0000_0000_0000, scalar(5.0).to_bits());
}

#[test]
fn zero_and_one_are_what_they_say() {
    assert_eq!(0.0f64.to_bits(), Scalar::zero().to_bits());
    assert_eq!(1.0f64.to_bits(), Scalar::one().to_bits());
}

#[test]
fn comparisons_agree_with_the_numbers() {
    for a in SAMPLES {
        for b in SAMPLES {
            let (x, y) = (scalar(a), scalar(b));
            assert_eq!(a < b, x.less_than(&y), "{} < {}", a, b);
            assert_eq!(a <= b, x.at_most(&y), "{} <= {}", a, b);
            assert_eq!(a > b, x.greater_than(&y), "{} > {}", a, b);
            assert_eq!(a == b, x.equals(&y), "{} == {}", a, b);
        }
    }
}

#[test]
fn signs_agree_with_the_numbers() {
    for a in SAMPLES {
        let x = scalar(a);
        assert_eq!(a >= 0.0, x.is_non_negative(), "{} >= 0", a);
        assert_eq!(a > 0.0, x.is_positive(), "{} > 0", a);
        assert_eq!(a == 0.0, x.is_zero(), "{} == 0", a);
        assert_eq!(a.is_nan(), x.not_a_number(), "{} is not a number", a);
    }
}

#[test]
fn keys_are_the_ranks() {
    assert_eq!(0, scalar(0.0).key());
    assert_eq!(0, scalar(-0.0).key());
    assert_eq!(1, scalar(5e-324).key());
    assert_eq!(-1, scalar(-5e-324).key());
    assert_eq!(0x3ff0_0000_0000_0000, scalar(1.0).key());
    assert_eq!(-0x3ff0_0000_0000_0000, scalar(-1.0).key());
    assert_eq!(0x7ff0_0000_0000_0000, scalar(f64::INFINITY).key());
    assert_eq!(1i128 << 63, scalar(f64::NAN).key());
}

#[test]
fn the_whole_part_in_eight_bits_is_what_a_cast_gives() {
    for x in SAMPLES {
        assert_eq!(x as u8, scalar(x).to_u8(), "{}", x);
    }
    let mut x = -3.0;
    while x < 260.0 {
        assert_eq!(x as u8, scalar(x).to_u8(), "{}", x);
        x += 0.0625;
    }
    for k in 0..=255u32 {
        let x = k as f64;
        assert_eq!(k as u8, scalar(x).to_u8());
        assert_eq!(k as u8, scalar(x + 0.999999).to_u8());
        assert_eq!(k as u8, scalar(f64::from_bits(x.to_bits() + 1)).to_u8());
    }
    assert_eq!(254, scalar(f64::from_bits(255.0f64.to_bits() - 1)).to_u8());
    assert_eq!(0, scalar(0.9999999999999999).to_u8());
    assert_eq!(255, scalar(256.0).to_u8());
    assert_eq!(255, scalar(1e300).to_u8());
    assert_eq!(0, scalar(-1e300).to_u8());
}

#[test]
fn absolute_values_and_the_tolerance() {
    for x in SAMPLES {
        assert_eq!(x.abs().to_bits(), scalar(x).abs().to_bits());
        assert_eq!(x.abs() < 0.00001, scalar(x).is_near_zero(), "{}", x);
    }
    assert!(scalar(0.0000099).is_near_zero());
    assert!(scalar(-0.0000099).is_near_zero());
    assert!(!scalar(0.00001).is_near_zero());
    assert_eq!(0.00001, f64::from_bits(Scalar::epsilon().to_bits()));
}

#[test]
fn the_larger_and_the_smaller_of_two() {
    for a in SAMPLES {
        for b in SAMPLES {
            let max = f64::from_bits(scalar(a).max(&scalar(b)).to_bits());
            let min = f64::from_bits(scalar(a).min(&scalar(b)).to_bits());
            if a.is_nan() && b.is_nan() {
                assert!(max.is_nan() && min.is_nan());
            } else {
                assert_eq!(a.max(b), max, "max of {} and {}", a, b);
                assert_eq!(a.min(b), min, "min of {} and {}", a, b);
            }
        }
    }
}
