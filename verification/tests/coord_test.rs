use rust_osm_renderer::data::coord::{
    coord_is_nan, coord_le, coord_max, coord_min, INFINITY, LARGEST, SIGN_BIT, SMALLEST,
};

fn samples() -> Vec<f64> {
    vec![
        0.0,
        -0.0,
        1.0,
        -1.0,
        0.5,
        -0.5,
        85.0511287798,
        -85.0511287798,
        180.0,
        -180.0,
        5e-324,
        -5e-324,
        f64::MAX,
        f64::MIN,
        f64::INFINITY,
        f64::NEG_INFINITY,
        f64::NAN,
        -f64::NAN,
    ]
}

#[test]
fn order_is_that_of_the_numbers() {
    for a in samples() {
        for b in samples() {
            assert_eq!(coord_le(a.to_bits(), b.to_bits()), a <= b, "{} <= {}", a, b);
        }
    }
}

#[test]
fn nan_is_told_apart() {
    for a in samples() {
        assert_eq!(coord_is_nan(a.to_bits()), a.is_nan());
    }
}

#[test]
fn constants_are_the_patterns_of_the_numbers() {
    assert_eq!(LARGEST, f64::MAX.to_bits());
    assert_eq!(SMALLEST, f64::MIN.to_bits());
    assert_eq!(INFINITY, f64::INFINITY.to_bits());
    assert_eq!(SIGN_BIT, (-0.0f64).to_bits());
}

#[test]
fn min_and_max_ignore_a_nan() {
    for a in samples() {
        for b in samples() {
            let lo = f64::from_bits(coord_min(a.to_bits(), b.to_bits()));
            let hi = f64::from_bits(coord_max(a.to_bits(), b.to_bits()));
            if a.is_nan() && b.is_nan() {
                assert!(lo.is_nan() && hi.is_nan());
            } else {
                assert_eq!(lo, a.min(b), "min of {} and {}", a, b);
                assert_eq!(hi, a.max(b), "max of {} and {}", a, b);
            }
        }
    }
}

#[test]
fn min_of_equal_values_keeps_the_first() {
    assert_eq!(coord_min(0.0f64.to_bits(), (-0.0f64).to_bits()), 0.0f64.to_bits());
    assert_eq!(coord_max((-0.0f64).to_bits(), 0.0f64.to_bits()), (-0.0f64).to_bits());
}
