use vibe_hal::limit_bits::lt;

fn samples() -> Vec<f64> {
    vec![
        0.0,
        -0.0,
        1.0,
        -1.0,
        0.5,
        -0.5,
        1.5e-300,
        -1.5e-300,
        f64::MIN_POSITIVE,
        -f64::MIN_POSITIVE,
        5e-324,
        -5e-324,
        f64::MAX,
        f64::MIN,
        f64::INFINITY,
        f64::NEG_INFINITY,
        f64::NAN,
        -f64::NAN,
        f64::from_bits(0x7FF0_0000_0000_0001),
        f64::from_bits(0xFFF8_0000_0000_0001),
        3.14159,
        -2.71828,
        1e10,
        -1e10,
    ]
}

#[test]
fn lt_agrees_with_floating_point_lt() {
    for a in samples() {
        for b in samples() {
            assert_eq!(lt(a.to_bits(), b.to_bits()), a < b, "{a} < {b}");
        }
    }
}

#[test]
fn lt_zero_signs() {
    assert!(!lt(0.0f64.to_bits(), (-0.0f64).to_bits()));
    assert!(!lt((-0.0f64).to_bits(), 0.0f64.to_bits()));
}

#[test]
fn lt_nan_is_false() {
    assert!(!lt(f64::NAN.to_bits(), f64::NAN.to_bits()));
    assert!(!lt(f64::NAN.to_bits(), 0.0f64.to_bits()));
    assert!(!lt(0.0f64.to_bits(), f64::NAN.to_bits()));
    assert!(!lt(f64::NEG_INFINITY.to_bits(), f64::NAN.to_bits()));
}

#[test]
fn lt_exact_values() {
    assert!(!lt(1.0f64.to_bits(), (-1.0f64).to_bits()));
    assert!(lt((-1.0f64).to_bits(), 1.0f64.to_bits()));
    assert!(!lt((-1.0f64).to_bits(), (-2.0f64).to_bits()));
    assert!(lt((-2.0f64).to_bits(), (-1.0f64).to_bits()));
    assert!(lt(f64::MAX.to_bits(), f64::INFINITY.to_bits()));
    assert!(lt((-0.0f64).to_bits(), 5e-324f64.to_bits()));
    assert!(lt((-5e-324f64).to_bits(), 0.0f64.to_bits()));
}
