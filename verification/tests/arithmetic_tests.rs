use virtualbow::binary64::Binary64;

fn num(x: f64) -> Binary64 {
    Binary64::from_bits(x.to_bits())
}

fn val(b: Binary64) -> f64 {
    f64::from_bits(b.to_bits())
}

fn interesting() -> Vec<f64> {
    vec![
        0.0,
        -0.0,
        f64::from_bits(1),
        f64::from_bits(2),
        f64::from_bits(3),
        f64::from_bits(0x000f_ffff_ffff_ffff),
        f64::MIN_POSITIVE,
        f64::MIN_POSITIVE * 1.5,
        1.0,
        -1.0,
        1.0 + f64::EPSILON,
        1.0 - f64::EPSILON / 2.0,
        0.1,
        0.2,
        0.3,
        -0.7,
        0.04445,
        2.5,
        3.0,
        9007199254740992.0,
        9007199254740993.0,
        -9007199254740994.0,
        1e16,
        1e-300,
        -1e-310,
        1e300,
        -1e308,
        f64::MAX,
        -f64::MAX,
        f64::MAX / 2.0,
        f64::INFINITY,
        f64::NEG_INFINITY,
        f64::NAN,
    ]
}

fn same(actual: Binary64, expected: f64, what: &str) {
    if expected.is_nan() {
        assert!(actual.is_nan(), "{what}");
    } else {
        assert_eq!(actual.to_bits(), expected.to_bits(), "{what}");
    }
}

/// Compares products and quotients with the processor's arithmetic.
fn check_product_quotient(a: f64, b: f64) {
    same(num(a).times(&num(b)), a * b, &format!("{a:e} * {b:e}"));
    same(num(a).divided_by(&num(b)), a / b, &format!("{a:e} / {b:e}"));
}

/// Compares with the processor's arithmetic: the same bits, or NaN for NaN.
fn check_pair(a: f64, b: f64) {
    let sum = num(a).plus(&num(b));
    let expected = a + b;
    if expected.is_nan() {
        assert!(sum.is_nan(), "{a:e} + {b:e}");
    } else {
        assert_eq!(sum.to_bits(), expected.to_bits(), "{a:e} + {b:e}");
    }
    let difference = num(a).minus(&num(b));
    let expected = a - b;
    if expected.is_nan() {
        assert!(difference.is_nan(), "{a:e} - {b:e}");
    } else {
        assert_eq!(difference.to_bits(), expected.to_bits(), "{a:e} - {b:e}");
    }
}

#[test]
fn sums_and_differences_of_special_values() {
    let values = interesting();
    for &a in &values {
        for &b in &values {
            check_pair(a, b);
            check_product_quotient(a, b);
        }
    }
}

#[test]
fn products_and_quotients_of_many_patterns() {
    let mut state: u64 = 0x9e37_79b9_7f4a_7c15;
    let mut next = move || {
        state ^= state << 13;
        state ^= state >> 7;
        state ^= state << 17;
        state
    };
    for _ in 0..40_000 {
        let a = next();
        let b = next();
        check_product_quotient(f64::from_bits(a), f64::from_bits(b));
        // Exponents that meet near the subnormal range and near overflow.
        let lo = (a & 0x800f_ffff_ffff_ffff) | ((next() % 600) << 52);
        let hi = (b & 0x800f_ffff_ffff_ffff) | ((1500 + next() % 547) << 52);
        check_product_quotient(f64::from_bits(lo), f64::from_bits(lo));
        check_product_quotient(f64::from_bits(lo), f64::from_bits(hi));
        check_product_quotient(f64::from_bits(hi), f64::from_bits(lo));
        check_product_quotient(f64::from_bits(hi), f64::from_bits(hi));
        check_product_quotient(f64::from_bits(a & 0x800f_ffff_ffff_ffff), f64::from_bits(b));
    }
}

#[test]
fn exact_products_and_quotients() {
    assert_eq!(val(num(0.1).times(&num(3.0))), 0.30000000000000004);
    assert_eq!(val(num(1.0).divided_by(&num(3.0))), 1.0 / 3.0);
    assert_eq!(val(num(-2.0).times(&num(0.0))).to_bits(), (-0.0f64).to_bits());
    assert_eq!(val(num(1.0).divided_by(&num(-0.0))), f64::NEG_INFINITY);
    assert!(num(0.0).divided_by(&num(0.0)).is_nan());
    assert!(num(f64::INFINITY).times(&num(0.0)).is_nan());
    assert!(num(f64::INFINITY).divided_by(&num(f64::NEG_INFINITY)).is_nan());
    assert_eq!(val(num(5.0).divided_by(&num(f64::INFINITY))).to_bits(), 0);
    assert_eq!(val(num(f64::MAX).times(&num(2.0))), f64::INFINITY);
    assert_eq!(num(f64::MIN_POSITIVE).times(&num(0.5)).to_bits(), 0x0008_0000_0000_0000);
    assert_eq!(num(f64::from_bits(1)).times(&num(0.5)).to_bits(), 0);
    assert_eq!(num(f64::from_bits(3)).times(&num(0.5)).to_bits(), 2);
    assert_eq!(num(f64::from_bits(1)).divided_by(&num(2.0)).to_bits(), 0);
    assert_eq!(num(f64::from_bits(3)).divided_by(&num(2.0)).to_bits(), 2);
    assert_eq!(val(num(1e300).divided_by(&num(1e-300))), f64::INFINITY);
}

#[test]
fn sums_and_differences_of_many_patterns() {
    let mut state: u64 = 0x2545_f491_4f6c_dd1d;
    let mut next = move || {
        state ^= state << 13;
        state ^= state >> 7;
        state ^= state << 17;
        state
    };
    for _ in 0..50_000 {
        let a = next();
        let b = next();
        check_pair(f64::from_bits(a), f64::from_bits(b));
        // Operands of nearby exponents exercise rounding and cancellation.
        let shift = (next() % 70) << 52;
        let near = (a & 0x800f_ffff_ffff_ffff) | ((a & 0x7ff0_0000_0000_0000).wrapping_add(shift) & 0x7ff0_0000_0000_0000);
        check_pair(f64::from_bits(a), f64::from_bits(near));
        check_pair(f64::from_bits(near), -f64::from_bits(a));
    }
}

#[test]
fn exact_values() {
    assert_eq!(val(num(0.1).plus(&num(0.2))), 0.30000000000000004);
    assert_eq!(val(num(1.0).minus(&num(1.0))).to_bits(), 0.0f64.to_bits());
    assert_eq!(val(num(-0.0).plus(&num(-0.0))).to_bits(), (-0.0f64).to_bits());
    assert_eq!(val(num(-0.0).minus(&num(0.0))).to_bits(), (-0.0f64).to_bits());
    // Ties go to the even significand.
    assert_eq!(val(num(9007199254740992.0).plus(&num(1.0))), 9007199254740992.0);
    assert_eq!(val(num(9007199254740992.0).plus(&num(3.0))), 9007199254740996.0);
    // Overflow gives an infinity of the sum's sign.
    assert_eq!(val(num(f64::MAX).plus(&num(f64::MAX))), f64::INFINITY);
    assert_eq!(val(num(-f64::MAX).minus(&num(f64::MAX))), f64::NEG_INFINITY);
    // Far apart operands leave the larger one.
    assert_eq!(val(num(1e300).plus(&num(1e-300))), 1e300);
    assert_eq!(val(num(1.0).minus(&num(1e-30))), 1.0 - 1e-30);
    // Subnormal results are exact.
    assert_eq!(num(f64::MIN_POSITIVE).minus(&num(f64::from_bits(0x000f_ffff_ffff_ffff))).to_bits(), 1);
}

#[test]
fn invalid_and_nan_operands() {
    assert!(num(f64::INFINITY).minus(&num(f64::INFINITY)).is_nan());
    assert!(num(f64::INFINITY).plus(&num(f64::NEG_INFINITY)).is_nan());
    assert_eq!(val(num(f64::INFINITY).plus(&num(f64::INFINITY))), f64::INFINITY);
    assert_eq!(val(num(f64::INFINITY).minus(&num(1e308))), f64::INFINITY);
    assert!(num(f64::NAN).plus(&num(1.0)).is_nan());
    assert!(num(1.0).minus(&num(f64::NAN)).is_nan());
}

#[test]
fn absolute_values() {
    assert_eq!(val(num(-2.5).abs()), 2.5);
    assert_eq!(val(num(2.5).abs()), 2.5);
    assert_eq!(num(-0.0).abs().to_bits(), 0);
    assert_eq!(val(num(f64::NEG_INFINITY).abs()), f64::INFINITY);
}
