use neutron_star::number::{Real, FOUR, INFINITY, MINUS_ONE, PI, SIX, TWO, ZERO};

fn num(x: f64) -> Real {
    Real::from_bits(x.to_bits())
}

fn samples() -> Vec<f64> {
    vec![
        0.0,
        -0.0,
        1.0,
        -1.0,
        0.5,
        -0.5,
        1.2,
        -3.75,
        5e-324,
        -5e-324,
        f64::MIN_POSITIVE,
        -f64::MIN_POSITIVE,
        f64::MAX,
        f64::MIN,
        f64::INFINITY,
        f64::NEG_INFINITY,
        f64::NAN,
        -f64::NAN,
        f64::from_bits(0x7ff0_0000_0000_0001),
        f64::from_bits(0xfff0_0000_0000_0001),
        f64::from_bits(0xffff_ffff_ffff_ffff),
    ]
}

#[test]
fn constants_are_the_patterns_of_their_numbers() {
    assert_eq!(ZERO, 0.0f64.to_bits());
    assert_eq!(TWO, 2.0f64.to_bits());
    assert_eq!(FOUR, 4.0f64.to_bits());
    assert_eq!(SIX, 6.0f64.to_bits());
    assert_eq!(MINUS_ONE, (-1.0f64).to_bits());
    assert_eq!(PI, std::f64::consts::PI.to_bits());
    assert_eq!(INFINITY, f64::INFINITY.to_bits());
}

#[test]
fn bits_round_trip() {
    assert_eq!(Real::from_bits(0x4009_21fb_5444_2d18).to_bits(), 0x4009_21fb_5444_2d18);
    assert_eq!(num(1.5).bits, 0x3ff8_0000_0000_0000);
    assert_eq!(num(1.5), Real { bits: 0x3ff8_0000_0000_0000 });
}

#[test]
fn is_nan_agrees_with_the_machine() {
    for x in samples() {
        assert_eq!(num(x).is_nan(), x.is_nan(), "{:?}", x);
    }
}

#[test]
fn below_zero_agrees_with_the_machine() {
    for x in samples() {
        assert_eq!(num(x).below_zero(), x < 0.0, "{:?}", x);
    }
}

#[test]
fn at_least_zero_agrees_with_the_machine() {
    for x in samples() {
        assert_eq!(num(x).at_least_zero(), x >= 0.0, "{:?}", x);
    }
}

#[test]
fn zero_of_either_sign_is_not_below_zero() {
    assert!(!num(0.0).below_zero());
    assert!(!num(-0.0).below_zero());
    assert!(num(0.0).at_least_zero());
    assert!(num(-0.0).at_least_zero());
}

#[test]
fn what_is_not_a_number_is_on_neither_side_of_zero() {
    assert!(!num(f64::NAN).below_zero());
    assert!(!num(f64::NAN).at_least_zero());
    assert!(!num(-f64::NAN).below_zero());
    assert!(!num(-f64::NAN).at_least_zero());
}

#[test]
fn every_pattern_is_of_one_kind() {
    for x in samples() {
        let r = num(x);
        let kinds = [r.is_nan(), r.below_zero(), r.at_least_zero()];
        assert_eq!(kinds.iter().filter(|k| **k).count(), 1, "{:?}", x);
    }
}

#[test]
fn abs_agrees_with_the_machine() {
    for x in samples() {
        assert_eq!(num(x).abs().to_bits(), x.abs().to_bits(), "{:?}", x);
    }
    assert_eq!(num(-3.75).abs(), num(3.75));
    assert_eq!(num(-0.0).abs(), num(0.0));
}

#[test]
fn total_key_orders_as_the_total_order_does() {
    for a in samples() {
        for b in samples() {
            let by_key = num(a).total_key().cmp(&num(b).total_key());
            assert_eq!(by_key, a.total_cmp(&b), "{:?} {:?}", a, b);
        }
    }
}

#[test]
fn total_key_of_chosen_patterns() {
    assert_eq!(num(0.0).total_key(), 0x8000_0000_0000_0000);
    assert_eq!(num(-0.0).total_key(), 0x7fff_ffff_ffff_ffff);
    assert_eq!(num(1.0).total_key(), 0xbff0_0000_0000_0000);
    assert_eq!(num(-1.0).total_key(), 0x400f_ffff_ffff_ffff);
    assert_eq!(Real::from_bits(u64::MAX).total_key(), 0);
    assert_eq!(Real::from_bits(0x7fff_ffff_ffff_ffff).total_key(), u64::MAX);
}

#[test]
fn equal_rank_means_equal_pattern() {
    for a in samples() {
        for b in samples() {
            if num(a).total_key() == num(b).total_key() {
                assert_eq!(a.to_bits(), b.to_bits());
            }
        }
    }
}
