use weather_station::reading::Reading;

fn reading(x: f64) -> Reading {
    Reading::from_bits(x.to_bits())
}

fn samples() -> Vec<f64> {
    vec![
        0.0,
        -0.0,
        1.0,
        -1.0,
        5e-324,
        -5e-324,
        f64::MIN_POSITIVE,
        2.2250738585072009e-308,
        9.999999999999998,
        10.0,
        10.000000000000002,
        29.999999999999996,
        30.0,
        -273.15,
        1e300,
        -1e300,
        f64::MAX,
        f64::MIN,
        f64::INFINITY,
        f64::NEG_INFINITY,
        f64::NAN,
    ]
}

#[test]
fn bits_are_kept() {
    assert_eq!(Reading::from_bits(0x4036_8000_0000_0000).to_bits(), 0x4036_8000_0000_0000);
    assert_eq!(reading(22.5).to_bits(), 0x4036_8000_0000_0000);
    assert_eq!(reading(22.5), Reading { bits: 0x4036_8000_0000_0000 });
}

#[test]
fn classes_agree_with_std() {
    for x in samples() {
        let r = reading(x);
        assert_eq!(r.is_nan(), x.is_nan(), "{:e}", x);
        assert_eq!(r.is_infinite(), x.is_infinite(), "{:e}", x);
        assert_eq!(r.is_sign_negative(), x.is_sign_negative(), "{:e}", x);
    }
    assert!(Reading::from_bits(0x7ff0_0000_0000_0001).is_nan());
    assert!(Reading::from_bits(0xfff8_0000_0000_0000).is_nan());
    assert!(Reading::from_bits(0xfff8_0000_0000_0000).is_sign_negative());
    assert!(!Reading::from_bits(0x7ff0_0000_0000_0000).is_nan());
    assert!(Reading::from_bits(0xfff0_0000_0000_0000).is_infinite());
    assert!(!Reading::from_bits(0x7fef_ffff_ffff_ffff).is_infinite());
}

#[test]
fn order_agrees_with_std_on_chosen_values() {
    for x in samples() {
        for y in samples() {
            assert_eq!(reading(x).lt(reading(y)), x < y, "{:e} < {:e}", x, y);
            assert_eq!(reading(x).ge(reading(y)), x >= y, "{:e} >= {:e}", x, y);
        }
    }
}

#[test]
fn the_two_zeros_are_equal_in_order() {
    assert!(!reading(-0.0).lt(reading(0.0)));
    assert!(!reading(0.0).lt(reading(-0.0)));
    assert!(reading(-0.0).ge(reading(0.0)));
    assert!(reading(0.0).ge(reading(-0.0)));
}

#[test]
fn nan_compares_false_both_ways() {
    let nan = reading(f64::NAN);
    assert!(!nan.lt(reading(1.0)));
    assert!(!nan.ge(reading(1.0)));
    assert!(!reading(1.0).lt(nan));
    assert!(!reading(1.0).ge(nan));
    assert!(!nan.ge(nan));
}

#[test]
fn order_agrees_with_std_on_a_sweep() {
    let mut seed: u64 = 0x2545_f491_4f6c_dd1d;
    let mut previous: u64 = 0x4024_0000_0000_0000;
    let mut i: u32 = 0;
    while i < 20000 {
        seed ^= seed << 13;
        seed ^= seed >> 7;
        seed ^= seed << 17;
        let (x, y) = (f64::from_bits(seed), f64::from_bits(previous));
        assert_eq!(reading(x).lt(reading(y)), x < y, "{:#x} < {:#x}", seed, previous);
        assert_eq!(reading(x).ge(reading(y)), x >= y, "{:#x} >= {:#x}", seed, previous);
        let neighbour = f64::from_bits(seed ^ 1);
        assert_eq!(reading(x).lt(reading(neighbour)), x < neighbour, "{:#x}", seed);
        previous = seed;
        i += 1;
    }
}
