use silentjack::binary32::Binary32;

fn values() -> Vec<f32> {
    vec![
        0.0,
        -0.0,
        1.0,
        -1.0,
        0.9,
        -0.5,
        -90.0,
        -40.0,
        -40.000004,
        f32::MIN_POSITIVE,
        -f32::MIN_POSITIVE,
        1.0e-40,
        -1.0e-40,
        f32::MAX,
        f32::MIN,
        f32::INFINITY,
        f32::NEG_INFINITY,
        f32::NAN,
        -f32::NAN,
    ]
}

#[test]
fn less_than_agrees_with_hardware() {
    for x in values() {
        for y in values() {
            let bx = Binary32::from_bits(x.to_bits());
            let by = Binary32::from_bits(y.to_bits());
            assert_eq!(bx.less_than(&by), x < y, "{} < {}", x, y);
        }
    }
}

#[test]
fn ieee_eq_agrees_with_hardware() {
    for x in values() {
        for y in values() {
            let bx = Binary32::from_bits(x.to_bits());
            let by = Binary32::from_bits(y.to_bits());
            assert_eq!(bx.ieee_eq(&by), x == y, "{} == {}", x, y);
        }
    }
}

#[test]
fn abs_and_nan_agree_with_hardware() {
    for x in values() {
        let bx = Binary32::from_bits(x.to_bits());
        assert_eq!(bx.abs().to_bits(), x.abs().to_bits());
        assert_eq!(bx.is_nan_value(), x.is_nan());
    }
}

#[test]
fn magnitude_clears_sign() {
    assert_eq!(Binary32::from_bits(0xbf00_0000).magnitude_bits(), 0x3f00_0000);
    assert_eq!(Binary32::from_bits(0x3f00_0000).magnitude_bits(), 0x3f00_0000);
}
