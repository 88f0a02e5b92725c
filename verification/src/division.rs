//! Rounding of quotients to binary64, for division.
//!
//! The exact quotient of two finite binary64 numbers is a rational number.
//! Scaled to units of 2^-1074 it is `x / y` for whole numbers `x` and `y`;
//! `round_ratio` rounds it to what binary64 holds (53 significant binary
//! digits, none below the unit), to nearest with ties to even.
use vstd::prelude::*;
use vstd::arithmetic::power2::{
    pow2,
    lemma_pow2_pos,
    lemma_pow2_unfold,
    lemma_pow2_adds,
    lemma_pow2_strictly_increases,
    lemma2_to64,
    lemma2_to64_rest,
};
use vstd::arithmetic::div_mod::{
    lemma_fundamental_div_mod,
    lemma_fundamental_div_mod_converse,
    lemma_div_is_ordered,
};
use crate::binary64::{magnitude_value, lemma_magnitude_value_zero, EXPONENT_UNIT, INFINITY_BITS};
use crate::rounding::{
    bit_length,
    rounds_up,
    overflow_bound,
    lemma_bit_length_bounds,
    lemma_bit_length_exact,
    power_of_two,
    split_magnitude,
    pack_magnitude,
};

verus! {

/// `x / y` rounded to what binary64 holds: 53 significant binary digits and
/// no digit below the unit, to nearest with ties to even.
pub open spec fn round_ratio(x: nat, y: nat) -> nat {
    let b = bit_length(x / y);
    let e: nat = if b > 53 {
        (b - 53) as nat
    } else {
        0
    };
    let d = y * pow2(e);
    let q = x / d;
    (if rounds_up(q, x % d, d) {
        q + 1
    } else {
        q
    }) * pow2(e)
}

/// Quotient and remainder of `x * c` by `d * c`.
pub proof fn lemma_div_mod_scaled(x: nat, d: nat, c: nat)
    requires
        d > 0,
        c > 0,
    ensures
        (x * c) / (d * c) == x / d,
        (x * c) % (d * c) == (x % d) * c,
{
    let q = x / d;
    let r = x % d;
    lemma_fundamental_div_mod(x as int, d as int);
    assert(x * c == q * (d * c) + r * c) by (nonlinear_arith)
        requires
            x == d * q + r,
    ;
    assert(r * c < d * c) by (nonlinear_arith)
        requires
            r < d,
            c > 0,
    ;
    assert(d * c > 0) by (nonlinear_arith)
        requires
            d > 0,
            c > 0,
    ;
    lemma_fundamental_div_mod_converse((x * c) as int, (d * c) as int, q as int, (r * c) as int);
}

/// The rounded quotient does not change when both terms are scaled alike.
pub proof fn lemma_round_ratio_scaled(x: nat, y: nat, c: nat)
    requires
        y > 0,
        c > 0,
    ensures
        round_ratio(x * c, y * c) == round_ratio(x, y),
{
    lemma_div_mod_scaled(x, y, c);
    let b = bit_length(x / y);
    let e: nat = if b > 53 {
        (b - 53) as nat
    } else {
        0
    };
    let d = y * pow2(e);
    lemma_pow2_pos(e);
    assert(d > 0) by (nonlinear_arith)
        requires
            y > 0,
            pow2(e) > 0,
            d == y * pow2(e),
    ;
    assert((y * c) * pow2(e) == d * c) by (nonlinear_arith)
        requires
            d == y * pow2(e),
    ;
    lemma_div_mod_scaled(x, d, c);
    let r = x % d;
    assert((2 * (r * c) > d * c) == (2 * r > d)) by (nonlinear_arith)
        requires
            c > 0,
    ;
    assert((2 * (r * c) == d * c) == (2 * r == d)) by (nonlinear_arith)
        requires
            c > 0,
    ;
}

/// Zero divided by anything rounds to zero.
pub proof fn lemma_round_ratio_zero(y: nat)
    requires
        y > 0,
    ensures
        round_ratio(0, y) == 0,
{
    lemma_bit_length_bounds(0);
    lemma2_to64();
    lemma_fundamental_div_mod_converse(0, y as int, 0, 0);
    assert(0nat / y == 0);
    assert(bit_length(0nat / y) == 0);
    let d = y * pow2(0);
    assert(d == y);
    assert(0nat / d == 0);
    assert(0nat % d == 0);
    assert(!rounds_up(0, 0, d));
    assert(round_ratio(0, y) == 0nat * pow2(0));
}

/// The bit length of the quotient of two 53-digit significands, the first
/// scaled by `2^k`.
pub proof fn lemma_quotient_bit_length(a: nat, b: nat, k: nat)
    requires
        pow2(52) <= a < pow2(53),
        pow2(52) <= b < pow2(53),
    ensures
        bit_length((a * pow2(k)) / b) == (if a >= b {
            k + 1
        } else {
            k
        }),
{
    let x = a * pow2(k);
    let v = x / b;
    let r = x % b;
    lemma2_to64_rest();
    lemma_pow2_pos(k);
    lemma_pow2_unfold(k + 1);
    lemma_fundamental_div_mod(x as int, b as int);
    if a >= b {
        assert(b * pow2(k) <= x < b * pow2(k + 1)) by (nonlinear_arith)
            requires
                b <= a,
                a < 2 * b,
                x == a * pow2(k),
                pow2(k + 1) == 2 * pow2(k),
                pow2(k) > 0,
        ;
        assert(pow2(k) <= v < pow2(k + 1)) by (nonlinear_arith)
            requires
                x == b * v + r,
                0 <= r < b,
                b * pow2(k) <= x,
                x < b * pow2(k + 1),
                b > 0,
        ;
        lemma_bit_length_exact(v, k + 1);
    } else if k == 0 {
        assert(pow2(0) == 1) by {
            lemma2_to64();
        }
        assert(x == a) by (nonlinear_arith)
            requires
                x == a * pow2(k),
                pow2(k) == 1,
        ;
        assert(v == 0) by (nonlinear_arith)
            requires
                x == b * v + r,
                0 <= r,
                x == a,
                a < b,
                v >= 0,
        ;
        lemma_bit_length_bounds(0);
    } else {
        lemma_pow2_unfold(k);
        let h = pow2((k - 1) as nat);
        assert(b * h <= x < b * pow2(k)) by (nonlinear_arith)
            requires
                a < b,
                b < 2 * a,
                x == a * pow2(k),
                pow2(k) == 2 * h,
                h > 0,
        ;
        assert(h <= v < pow2(k)) by (nonlinear_arith)
            requires
                x == b * v + r,
                0 <= r < b,
                b * h <= x,
                x < b * pow2(k),
                b > 0,
        ;
        lemma_bit_length_exact(v, k);
    }
}

/// The quotient `n / d` at the scale `2^e` that rounding picks for
/// `n * 2^e / d`: below 2^53, and at least 2^52 when the scale is above 1.
proof fn lemma_scaled_quotient_range(n: nat, d: nat, e: nat, b: nat)
    requires
        d > 0,
        bit_length((n * pow2(e)) / d) == b,
        b <= 53 + e,
        e > 0 ==> b == 53 + e,
    ensures
        n / d < pow2(53),
        e > 0 ==> n / d >= pow2(52),
{
    let t = pow2(e);
    let q = n / d;
    let r = n % d;
    let v = (n * t) / d;
    let r2 = (n * t) % d;
    lemma_pow2_pos(e);
    lemma_fundamental_div_mod(n as int, d as int);
    lemma_fundamental_div_mod((n * t) as int, d as int);
    assert(q * t <= v < (q + 1) * t) by (nonlinear_arith)
        requires
            n == d * q + r,
            0 <= r < d,
            n * t == d * v + r2,
            0 <= r2 < d,
            t > 0,
            d > 0,
    ;
    lemma_bit_length_bounds(v);
    lemma_pow2_adds(53, e);
    lemma_pow2_adds(52, e);
    if b < 53 + e {
        lemma_pow2_strictly_increases(b, 53 + e);
    }
    assert(q < pow2(53)) by (nonlinear_arith)
        requires
            q * t <= v,
            v < pow2(b),
            pow2(b) <= pow2(53) * t,
            t > 0,
    ;
    if e > 0 {
        assert((b - 1) as nat == 52 + e);
        assert(q >= pow2(52)) by (nonlinear_arith)
            requires
                pow2(52) * t <= v,
                v < (q + 1) * t,
                t > 0,
        ;
    }
}

/// Scales a significand up to 53 digits: `m * 2^u`.
pub(crate) fn normalize_significand(m: u64) -> (r: (u64, u64))
    requires
        0 < m < 2 * EXPONENT_UNIT,
    ensures
        EXPONENT_UNIT <= r.0 < 2 * EXPONENT_UNIT,
        r.0 == m * pow2(r.1 as nat),
        r.1 <= 52,
{
    proof {
        lemma2_to64();
    }
    let mut v: u64 = m;
    let mut u: u64 = 0;
    while v < EXPONENT_UNIT
        invariant
            0 < v < 2 * EXPONENT_UNIT,
            v == m * pow2(u as nat),
            u <= 52,
            m * pow2(u as nat) < 2 * EXPONENT_UNIT,
            u > 0 ==> m * pow2(u as nat) >= pow2(u as nat),
        decreases 52 - u,
    {
        proof {
            lemma2_to64_rest();
            if u == 52 {
                assert(false);
            }
            lemma_pow2_unfold((u + 1) as nat);
            assert(m * pow2((u + 1) as nat) == 2 * v) by (nonlinear_arith)
                requires
                    v == m * pow2(u as nat),
                    pow2((u + 1) as nat) == 2 * pow2(u as nat),
            ;
            lemma_pow2_pos(u as nat);
            assert(m * pow2((u + 1) as nat) >= pow2((u + 1) as nat)) by (nonlinear_arith)
                requires
                    m >= 1,
                    pow2((u + 1) as nat) > 0,
            ;
            if u >= 52 {
                lemma_pow2_strictly_increases(52, (u + 1) as nat);
            }
        }
        v = v * 2;
        u = u + 1;
    }
    (v, u)
}

/// The magnitude pattern of the rounded quotient of the scaled values of two
/// finite magnitude patterns, neither zero; the pattern of infinity when the
/// result overflows.
pub(crate) fn divide_magnitudes(ma: u64, mb: u64) -> (m: u64)
    requires
        0 < ma < INFINITY_BITS,
        0 < mb < INFINITY_BITS,
    ensures
        magnitude_value(mb as nat) > 0,
        ({
            let rounded = round_ratio(
                magnitude_value(ma as nat) * pow2(1074),
                magnitude_value(mb as nat),
            );
            &&& rounded >= overflow_bound() ==> m == INFINITY_BITS
            &&& rounded < overflow_bound() ==> m < INFINITY_BITS && magnitude_value(m as nat)
                == rounded
        }),
{
    proof {
        lemma_magnitude_value_zero(ma as nat);
        lemma_magnitude_value_zero(mb as nat);
        lemma2_to64();
        lemma2_to64_rest();
    }
    let (sa, ea) = split_magnitude(ma);
    let (sb, eb) = split_magnitude(mb);
    proof {
        lemma_pow2_pos(ea as nat);
        lemma_pow2_pos(eb as nat);
        assert(sa > 0 && sb > 0) by (nonlinear_arith)
            requires
                magnitude_value(ma as nat) == sa * pow2(ea as nat),
                magnitude_value(mb as nat) == sb * pow2(eb as nat),
                magnitude_value(ma as nat) > 0,
                magnitude_value(mb as nat) > 0,
        ;
    }
    let (na, ua) = normalize_significand(sa);
    let (nb, ub) = normalize_significand(sb);
    let num_exp: u64 = ea + 1074 + ub;
    let den_exp: u64 = eb + ua;
    let ghost x = magnitude_value(ma as nat) * pow2(1074);
    let ghost y = magnitude_value(mb as nat);
    let ghost c = pow2((ua + ub) as nat);
    proof {
        lemma_pow2_pos((ua + ub) as nat);
        lemma_pow2_adds(ua as nat, ub as nat);
        lemma_pow2_adds(ea as nat, 1074);
        lemma_pow2_adds((ea + 1074) as nat, ub as nat);
        lemma_pow2_adds(eb as nat, ua as nat);
        assert(x * c == na * pow2(num_exp as nat)) by (nonlinear_arith)
            requires
                x == magnitude_value(ma as nat) * pow2(1074),
                magnitude_value(ma as nat) == sa * pow2(ea as nat),
                na == sa * pow2(ua as nat),
                c == pow2(ua as nat) * pow2(ub as nat),
                pow2((ea + 1074) as nat) == pow2(ea as nat) * pow2(1074),
                pow2(num_exp as nat) == pow2((ea + 1074) as nat) * pow2(ub as nat),
        ;
        assert(y * c == nb * pow2(den_exp as nat)) by (nonlinear_arith)
            requires
                y == magnitude_value(mb as nat),
                magnitude_value(mb as nat) == sb * pow2(eb as nat),
                nb == sb * pow2(ub as nat),
                c == pow2(ua as nat) * pow2(ub as nat),
                pow2(den_exp as nat) == pow2(eb as nat) * pow2(ua as nat),
        ;
        lemma_round_ratio_scaled(x, y, c);
    }
    if num_exp >= den_exp {
        let dd: u64 = num_exp - den_exp;
        proof {
            lemma_pow2_pos(den_exp as nat);
            lemma_pow2_adds(dd as nat, den_exp as nat);
            assert(na * pow2(num_exp as nat) == (na * pow2(dd as nat)) * pow2(den_exp as nat))
                by (nonlinear_arith)
                requires
                    pow2(num_exp as nat) == pow2(dd as nat) * pow2(den_exp as nat),
            ;
            lemma_round_ratio_scaled((na * pow2(dd as nat)) as nat, nb as nat, pow2(den_exp as nat));
            lemma_quotient_bit_length(na as nat, nb as nat, dd as nat);
        }
        let b: u64 = if na >= nb {
            dd + 1
        } else {
            dd
        };
        let e: u64 = if b > 53 {
            b - 53
        } else {
            0
        };
        let sh: u64 = dd - e;
        let p = power_of_two(sh);
        proof {
            if sh < 53 {
                lemma_pow2_strictly_increases(sh as nat, 53);
            }
            assert(na * p < pow2(53) * pow2(53)) by (nonlinear_arith)
                requires
                    na < pow2(53),
                    p <= pow2(53),
            ;
        }
        let n: u128 = (na as u128) * p;
        let q = n / (nb as u128);
        let rem = n % (nb as u128);
        proof {
            lemma_pow2_pos(e as nat);
            lemma_pow2_adds(sh as nat, e as nat);
            assert(na * pow2(dd as nat) == n * pow2(e as nat)) by (nonlinear_arith)
                requires
                    n == na * p,
                    p == pow2(sh as nat),
                    pow2(dd as nat) == pow2(sh as nat) * pow2(e as nat),
            ;
            lemma_div_mod_scaled(n as nat, nb as nat, pow2(e as nat));
            let t = pow2(e as nat);
            assert((2 * (rem * t) > nb * t) == (2 * rem > nb)) by (nonlinear_arith)
                requires
                    t > 0,
            ;
            assert((2 * (rem * t) == nb * t) == (2 * rem == nb)) by (nonlinear_arith)
                requires
                    t > 0,
            ;
            assert((na * pow2(dd as nat)) as nat / (nb as nat) == (n * pow2(e as nat)) as nat / (
            nb as nat));
            lemma_scaled_quotient_range(n as nat, nb as nat, e as nat, b as nat);
        }
        let up = 2 * rem > (nb as u128) || (2 * rem == (nb as u128) && q % 2 == 1);
        let q1: u64 = if up {
            (q + 1) as u64
        } else {
            q as u64
        };
        let (qq, kk) = if q1 == 2 * EXPONENT_UNIT {
            proof {
                lemma_pow2_unfold((e + 1) as nat);
            }
            (EXPONENT_UNIT, e + 1)
        } else {
            (q1, e)
        };
        proof {
            assert(qq * pow2(kk as nat) == q1 * pow2(e as nat)) by (nonlinear_arith)
                requires
                    q1 == 2 * EXPONENT_UNIT ==> qq == EXPONENT_UNIT && pow2(kk as nat) == 2
                        * pow2(e as nat),
                    q1 != 2 * EXPONENT_UNIT ==> qq == q1 && kk == e,
            ;
        }
        pack_magnitude(qq, kk)
    } else {
        let dd: u64 = den_exp - num_exp;
        proof {
            lemma_pow2_pos(num_exp as nat);
            lemma_pow2_pos(dd as nat);
            lemma_pow2_adds(dd as nat, num_exp as nat);
            assert(nb * pow2(den_exp as nat) == (nb * pow2(dd as nat)) * pow2(num_exp as nat))
                by (nonlinear_arith)
                requires
                    pow2(den_exp as nat) == pow2(dd as nat) * pow2(num_exp as nat),
            ;
            assert(nb * pow2(dd as nat) > 0) by (nonlinear_arith)
                requires
                    nb > 0,
                    pow2(dd as nat) > 0,
            ;
            lemma_round_ratio_scaled(na as nat, (nb * pow2(dd as nat)) as nat, pow2(num_exp as nat));
            lemma_pow2_unfold(dd as nat);
            lemma_pow2_pos((dd - 1) as nat);
            assert(na < nb * pow2(dd as nat)) by (nonlinear_arith)
                requires
                    na < 2 * nb,
                    pow2(dd as nat) == 2 * pow2((dd - 1) as nat),
                    pow2((dd - 1) as nat) >= 1,
            ;
            lemma_fundamental_div_mod_converse(na as int, (nb * pow2(dd as nat)) as int, 0, na as int);
            lemma_bit_length_bounds(0);
        }
        let q1: u64 = if dd > 64 {
            proof {
                lemma_pow2_strictly_increases(2, dd as nat);
                assert(2 * na < nb * pow2(dd as nat)) by (nonlinear_arith)
                    requires
                        na < 2 * nb,
                        pow2(dd as nat) > 4,
                ;
            }
            0
        } else {
            proof {
                lemma2_to64_rest();
                if dd < 64 {
                    lemma_pow2_strictly_increases(dd as nat, 64);
                }
                assert(nb * pow2(dd as nat) < pow2(53) * pow2(64)) by (nonlinear_arith)
                    requires
                        nb < pow2(53),
                        pow2(dd as nat) <= pow2(64),
                        pow2(dd as nat) > 0,
                ;
                lemma_pow2_adds(53, 64);
                lemma_pow2_strictly_increases(117, 127);
                lemma_pow2_adds(64, 63);
            }
            let den: u128 = (nb as u128) * power_of_two(dd);
            if 2 * (na as u128) > den {
                1
            } else {
                0
            }
        };
        proof {
            assert(pow2(0) == 1);
            if dd <= 64 && q1 == 1 {
                assert(2 * na > nb * pow2(dd as nat));
            }
            let yy = (nb * pow2(dd as nat)) as nat;
            assert(yy * pow2(0) == yy) by (nonlinear_arith)
                requires
                    pow2(0) == 1,
            ;
            assert(rounds_up(0, na as nat, yy) == (2 * na > yy));
            let up = rounds_up(0, na as nat, yy);
            assert(round_ratio(na as nat, yy) == (if up { 1nat } else { 0nat }) * pow2(0));
            assert((if up { 1nat } else { 0nat }) * pow2(0) == (if up { 1nat } else { 0nat })) by (nonlinear_arith)
                requires
                    pow2(0) == 1,
            ;
        }
        pack_magnitude(q1, 0)
    }
}

} // verus!
