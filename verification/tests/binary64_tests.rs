use virtualbow::binary64::Binary64;

fn num(x: f64) -> Binary64 {
    Binary64::from_bits(x.to_bits())
}

fn val(b: Binary64) -> f64 {
    f64::from_bits(b.to_bits())
}

#[test]
fn comparisons_follow_ieee() {
    assert!(num(1.0).lt(&num(2.0)));
    assert!(!num(2.0).lt(&num(1.0)));
    assert!(num(-3.5).lt(&num(-1.0)));
    assert!(num(-1.0).lt(&num(0.0)));
    assert!(num(f64::NEG_INFINITY).lt(&num(-1e300)));
    assert!(num(1e300).lt(&num(f64::INFINITY)));
    assert!(num(5e-324).gt(&num(0.0)));
    assert!(num(1.0).le(&num(1.0)));
    assert!(num(3.0).ge(&num(2.0)));
}

#[test]
fn signed_zeros_are_equal() {
    assert!(num(0.0).equals(&num(-0.0)));
    assert!(num(-0.0) == num(0.0));
    assert!(!num(-0.0).lt(&num(0.0)));
}

#[test]
fn nan_is_unordered() {
    let nan = num(f64::NAN);
    assert!(nan.is_nan());
    assert!(!nan.lt(&num(1.0)));
    assert!(!num(1.0).lt(&nan));
    assert!(!nan.le(&nan));
    assert!(!nan.equals(&nan));
    assert!(nan != nan);
}

#[test]
fn classification() {
    assert!(num(1.0).is_finite());
    assert!(num(f64::INFINITY).is_infinite());
    assert!(!num(f64::INFINITY).is_finite());
    assert!(num(-2.0).is_sign_negative());
    assert!(!num(2.0).is_sign_negative());
}

#[test]
fn constants_are_exact() {
    assert_eq!(val(Binary64::zero()), 0.0);
    assert_eq!(val(Binary64::one()), 1.0);
    assert_eq!(val(Binary64::minus_one()), -1.0);
}

#[test]
fn half_matches_multiplication_by_one_half() {
    let cases = [
        1.0, 0.6, -0.6, 3.0, 1e300, -7.25, 0.0, -0.0,
        f64::MIN_POSITIVE, 3.0 * f64::MIN_POSITIVE, 5e-324, 1.5e-323, -1.5e-323,
        f64::from_bits(0x000f_ffff_ffff_ffff), f64::from_bits(0x001f_ffff_ffff_ffff),
        f64::MAX, f64::INFINITY, f64::NEG_INFINITY,
    ];
    for x in cases {
        let h = num(x).half();
        assert_eq!(h.to_bits(), (0.5 * x).to_bits(), "half of {x:e}");
    }
}

#[test]
fn half_of_subnormals_rounds_to_even() {
    // 1 unit halves to 0.5 unit, which rounds to the even neighbour 0.
    assert_eq!(num(5e-324).half().to_bits(), 0);
    // 3 units halve to 1.5 units, which round to the even neighbour 2.
    assert_eq!(num(f64::from_bits(3)).half().to_bits(), 2);
    // 5 units halve to 2.5 units, which round to the even neighbour 2.
    assert_eq!(num(f64::from_bits(5)).half().to_bits(), 2);
}

#[test]
fn half_of_nan_is_a_quiet_nan() {
    let signalling = Binary64::from_bits(0x7ff0_0000_0000_0001);
    let h = signalling.half();
    assert!(h.is_nan());
    assert_eq!(h.to_bits(), 0x7ff8_0000_0000_0001);
    let quiet_negative = Binary64::from_bits(0xfff8_0000_0000_0abc);
    assert_eq!(quiet_negative.half().to_bits(), 0xfff8_0000_0000_0abc);
    let x = std::hint::black_box(f64::from_bits(0xfff8_0000_0000_0abc));
    assert_eq!(quiet_negative.half().to_bits(), (0.5 * x).to_bits());
}

#[test]
fn halves_of_handle_lengths_sum_back() {
    for x in [0.1, 0.35, 1.0, 12.5] {
        let h = val(num(x).half());
        assert_eq!(h + h, x);
    }
}
