use cartog::signal::{Signal, INFINITY_BITS, SIGN_BIT};

fn signal(value: f64) -> Signal {
    Signal::from_bits(value.to_bits())
}

fn values() -> Vec<f64> {
    vec![
        f64::NEG_INFINITY,
        f64::MIN,
        -1.0e300,
        -2.0,
        -1.0,
        -0.8,
        -0.4,
        -0.33,
        -f64::MIN_POSITIVE,
        -5.0e-324,
        -0.0,
        0.0,
        5.0e-324,
        f64::MIN_POSITIVE,
        0.16,
        0.3,
        0.30000000000000004,
        0.8,
        1.0,
        2.0,
        1.0e300,
        f64::MAX,
        f64::INFINITY,
        f64::NAN,
        -f64::NAN,
        f64::from_bits(0x7FF0_0000_0000_0001),
        f64::from_bits(0xFFFF_FFFF_FFFF_FFFF),
    ]
}

#[test]
fn order_is_that_of_the_doubles() {
    for a in values() {
        for b in values() {
            assert_eq!(signal(a).lt(signal(b)), a < b, "{} < {}", a, b);
            assert_eq!(signal(a).le(signal(b)), a <= b, "{} <= {}", a, b);
            assert_eq!(signal(a).gt(signal(b)), a > b, "{} > {}", a, b);
            assert_eq!(signal(a).ge(signal(b)), a >= b, "{} >= {}", a, b);
        }
    }
}

#[test]
fn nan_is_told_by_the_encoding() {
    for a in values() {
        assert_eq!(signal(a).is_nan(), a.is_nan(), "{}", a);
    }
    assert!(!Signal::from_bits(INFINITY_BITS).is_nan());
    assert!(Signal::from_bits(INFINITY_BITS + 1).is_nan());
    assert!(!Signal::from_bits(SIGN_BIT + INFINITY_BITS).is_nan());
    assert!(Signal::from_bits(SIGN_BIT + INFINITY_BITS + 1).is_nan());
}

#[test]
fn the_two_zeros_are_equal_in_order() {
    let plus = signal(0.0);
    let minus = signal(-0.0);
    assert_ne!(plus, minus);
    assert!(plus.le(minus) && minus.le(plus));
    assert!(!plus.lt(minus) && !minus.lt(plus));
    assert!(plus.ge(minus) && minus.ge(plus));
}

#[test]
fn encoding_round_trips() {
    for a in values() {
        assert_eq!(signal(a).to_bits(), a.to_bits());
    }
    assert_eq!(Signal::from_bits(SIGN_BIT).to_bits(), (-0.0f64).to_bits());
    assert_eq!(INFINITY_BITS, f64::INFINITY.to_bits());
}
