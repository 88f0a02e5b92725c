//! Rounding of exact results to binary64.
//!
//! A finite binary64 number is an integer multiple of 2^-1074, so the exact
//! sum or difference of two of them is one as well, and their exact product
//! is one divided by 2^1074. The multiples that binary64 holds are those with
//! at most 53 significant binary digits, below the overflow bound 2^1024.
//! `round_significand` rounds a scaled value to 53 significant digits, and
//! `round_scaled_down` a scaled value divided by a power of two, to nearest
//! with ties to even, which is the rounding IEEE 754 prescribes; the helpers
//! here take binary64 magnitudes apart into significand and exponent and put
//! rounded results back together.
use vstd::prelude::*;
use vstd::arithmetic::power2::{
    pow2,
    lemma_pow2_pos,
    lemma_pow2_unfold,
    lemma_pow2_adds,
    lemma_pow2_strictly_increases,
    lemma2_to64,
    lemma2_to64_rest,
};
use vstd::arithmetic::div_mod::{lemma_fundamental_div_mod_converse, lemma_div_is_ordered};
use crate::binary64::{
    magnitude_value,
    lemma_magnitude_value_small,
    lemma_magnitude_value_strictly_increasing,
    EXPONENT_UNIT,
    INFINITY_BITS,
};

verus! {

/// The number of binary digits of `n`, zero for zero.
pub open spec fn bit_length(n: nat) -> nat
    decreases n,
{
    if n == 0 {
        0
    } else {
        1 + bit_length(n / 2)
    }
}

/// A value cut at `p` into quotient `q` and remainder `r` rounds up: the
/// remainder is above half of `p`, or exactly half with an odd quotient.
pub open spec fn rounds_up(q: nat, r: nat, p: nat) -> bool {
    2 * r > p || (2 * r == p && q % 2 == 1)
}

/// `n` rounded to 53 significant binary digits, to nearest with ties to even.
pub open spec fn round_significand(n: nat) -> nat {
    let b = bit_length(n);
    if b <= 53 {
        n
    } else {
        let p = pow2((b - 53) as nat);
        let q = n / p;
        if rounds_up(q, n % p, p) {
            (q + 1) * p
        } else {
            q * p
        }
    }
}

/// A rounded scaled magnitude at or above this bound, 2^1024 in units of
/// 2^-1074, is out of range: the result is an infinity.
pub open spec fn overflow_bound() -> nat {
    pow2(2098)
}

/// The significand of a finite magnitude pattern: its fraction field, with
/// the hidden leading digit for a normal number.
pub open spec fn significand_of(m: nat) -> nat {
    let e = m / (EXPONENT_UNIT as nat);
    let f = m % (EXPONENT_UNIT as nat);
    if e == 0 {
        f
    } else {
        f + (EXPONENT_UNIT as nat)
    }
}

/// The power of two that the significand of a finite magnitude pattern is
/// scaled by, in units of 2^-1074.
pub open spec fn exponent_of(m: nat) -> nat {
    let e = m / (EXPONENT_UNIT as nat);
    if e == 0 {
        0
    } else {
        (e - 1) as nat
    }
}

/// `n` lies between `2^(b-1)` and `2^b`, where `b` is its bit length.
pub proof fn lemma_bit_length_bounds(n: nat)
    ensures
        n == 0 ==> bit_length(n) == 0,
        n > 0 ==> bit_length(n) >= 1,
        n > 0 ==> pow2((bit_length(n) - 1) as nat) <= n,
        n < pow2(bit_length(n)),
    decreases n,
{
    lemma2_to64();
    if n > 0 {
        let h = n / 2;
        lemma_bit_length_bounds(h);
        lemma_pow2_unfold(bit_length(n));
        if h > 0 {
            lemma_pow2_unfold(bit_length(h));
        }
    }
}

/// A number between `2^(b-1)` and `2^b` has bit length `b`.
pub proof fn lemma_bit_length_exact(n: nat, b: nat)
    requires
        b >= 1,
        pow2((b - 1) as nat) <= n,
        n < pow2(b),
    ensures
        bit_length(n) == b,
{
    lemma_bit_length_bounds(n);
    let c = bit_length(n);
    if c < b {
        if c < (b - 1) as nat {
            lemma_pow2_strictly_increases(c, (b - 1) as nat);
        }
    } else if c > b {
        if (c - 1) as nat > b {
            lemma_pow2_strictly_increases(b, (c - 1) as nat);
        }
    }
}

/// A number below `2^b` has bit length at most `b`.
pub proof fn lemma_bit_length_at_most(n: nat, b: nat)
    requires
        n < pow2(b),
    ensures
        bit_length(n) <= b,
{
    lemma_bit_length_bounds(n);
    let c = bit_length(n);
    if c > b {
        if (c - 1) as nat > b {
            lemma_pow2_strictly_increases(b, (c - 1) as nat);
        }
    }
}

/// Rounding a value given as `q * 2^s + r`, with a 53-digit quotient `q`,
/// keeps `q` or raises it by one, as the remainder says.
pub proof fn lemma_round_decomposed(n: nat, q: nat, r: nat, s: nat)
    requires
        n == q * pow2(s) + r,
        r < pow2(s),
        pow2(52) <= q < pow2(53),
    ensures
        round_significand(n) == (if rounds_up(q, r, pow2(s)) {
            q + 1
        } else {
            q
        }) * pow2(s),
{
    let p = pow2(s);
    lemma_pow2_pos(s);
    lemma_pow2_adds(52, s);
    lemma_pow2_adds(53, s);
    assert(pow2(52) * p <= q * p) by (nonlinear_arith)
        requires
            pow2(52) <= q,
    ;
    assert((q + 1) * p <= pow2(53) * p) by (nonlinear_arith)
        requires
            q < pow2(53),
    ;
    assert(q * p + r < (q + 1) * p) by (nonlinear_arith)
        requires
            r < p,
    ;
    lemma_bit_length_exact(n, 53 + s);
    if s == 0 {
        lemma2_to64();
        assert(r == 0);
    } else {
        lemma_fundamental_div_mod_converse(n as int, p as int, q as int, r as int);
    }
}

/// The same, for a value scaled by a further power of two: rounding commutes
/// with the scaling.
pub proof fn lemma_round_decomposed_scaled(n: nat, q: nat, r: nat, s: nat, k: nat)
    requires
        n == (q * pow2(s) + r) * pow2(k),
        r < pow2(s),
        pow2(52) <= q < pow2(53),
    ensures
        round_significand(n) == (if rounds_up(q, r, pow2(s)) {
            q + 1
        } else {
            q
        }) * pow2(s + k),
{
    let p = pow2(s);
    let t = pow2(k);
    lemma_pow2_pos(k);
    lemma_pow2_adds(s, k);
    assert(n == q * (p * t) + r * t) by (nonlinear_arith)
        requires
            n == (q * p + r) * t,
    ;
    assert(r * t < p * t) by (nonlinear_arith)
        requires
            r < p,
            t > 0,
    ;
    lemma_round_decomposed(n, q, r * t, s + k);
    assert(rounds_up(q, r * t, p * t) == rounds_up(q, r, p)) by {
        assert((2 * (r * t) > p * t) == (2 * r > p)) by (nonlinear_arith)
            requires
                t > 0,
        ;
        assert((2 * (r * t) == p * t) == (2 * r == p)) by (nonlinear_arith)
            requires
                t > 0,
        ;
    }
}

/// A value with at most 53 significant digits rounds to itself.
pub proof fn lemma_round_exact(m: nat, k: nat)
    requires
        m < pow2(53),
    ensures
        round_significand(m * pow2(k)) == m * pow2(k),
{
    let n = m * pow2(k);
    lemma_pow2_pos(k);
    if m == 0 {
        assert(n == 0);
        lemma_bit_length_bounds(n);
    } else {
        lemma_bit_length_bounds(m);
        lemma_bit_length_at_most(m, 53);
        let b = bit_length(m);
        if b + k <= 53 {
            lemma_pow2_adds(b, k);
            assert(n < pow2(b) * pow2(k)) by (nonlinear_arith)
                requires
                    m < pow2(b),
                    pow2(k) > 0,
                    n == m * pow2(k),
            ;
            if b + k < 53 {
                lemma_pow2_strictly_increases(b + k, 53);
            }
            lemma_bit_length_at_most(n, 53);
        } else {
            let s = (b + k - 53) as nat;
            let t = (53 - b) as nat;
            let q = m * pow2(t);
            lemma_pow2_adds((b - 1) as nat, t);
            lemma_pow2_adds(b, t);
            lemma_pow2_adds(t, s);
            lemma_pow2_pos(t);
            assert(pow2((b - 1) as nat) * pow2(t) <= q < pow2(b) * pow2(t)) by (nonlinear_arith)
                requires
                    pow2((b - 1) as nat) <= m < pow2(b),
                    pow2(t) > 0,
                    q == m * pow2(t),
            ;
            assert(n == q * pow2(s)) by (nonlinear_arith)
                requires
                    n == m * pow2(k),
                    q == m * pow2(t),
                    pow2(k) == pow2(t) * pow2(s),
            ;
            lemma_round_decomposed(n, q, 0, s);
        }
    }
}

/// Zero rounds to zero.
pub proof fn lemma_round_zero()
    ensures
        round_significand(0) == 0,
{
    lemma_bit_length_bounds(0);
}

/// A finite magnitude pattern is its significand times a power of two.
pub proof fn lemma_magnitude_split(m: nat)
    ensures
        magnitude_value(m) == significand_of(m) * pow2(exponent_of(m)),
        significand_of(m) < 2 * (EXPONENT_UNIT as nat),
        exponent_of(m) > 0 ==> significand_of(m) >= EXPONENT_UNIT,
{
    lemma2_to64();
    let u = EXPONENT_UNIT as nat;
    let e = m / u;
    let f = m % u;
    if e == 0 {
        assert(magnitude_value(m) == f);
        assert(significand_of(m) == f);
        assert(exponent_of(m) == 0);
        assert(f * pow2(0) == f);
    } else {
        let p = pow2((e - 1) as nat);
        assert(magnitude_value(m) == (u + f) * p);
        assert(significand_of(m) == f + u);
        assert(exponent_of(m) == (e - 1) as nat);
        assert((u + f) * p == (f + u) * p);
    }
}

/// The exponent grows with the magnitude pattern.
pub proof fn lemma_exponent_ordered(m1: nat, m2: nat)
    requires
        m1 <= m2,
    ensures
        exponent_of(m1) <= exponent_of(m2),
{
    lemma_div_is_ordered(m1 as int, m2 as int, EXPONENT_UNIT as int);
}

/// A finite scaled magnitude lies below the overflow bound.
pub proof fn lemma_finite_below_overflow(m: nat)
    requires
        m < INFINITY_BITS,
    ensures
        magnitude_value(m) < overflow_bound(),
{
    let u = EXPONENT_UNIT as nat;
    lemma_magnitude_split(m);
    lemma2_to64_rest();
    let e = m / u;
    assert(e <= 2046) by {
        lemma_div_is_ordered(m as int, (2047 * u - 1) as int, u as int);
        lemma_fundamental_div_mod_converse((2047 * u - 1) as int, u as int, 2046, (u - 1) as int);
    }
    let x = exponent_of(m);
    assert(x <= 2045);
    if x < 2045 {
        lemma_pow2_strictly_increases(x, 2045);
    }
    lemma_pow2_adds(53, 2045);
    lemma_pow2_pos(x);
    assert(significand_of(m) * pow2(x) < pow2(53) * pow2(2045)) by (nonlinear_arith)
        requires
            significand_of(m) < pow2(53),
            pow2(x) <= pow2(2045),
            pow2(x) > 0,
    ;
}

/// Putting a 53-digit significand and an exponent into a normal magnitude
/// pattern.
pub proof fn lemma_magnitude_encode(q: nat, k: nat)
    requires
        EXPONENT_UNIT <= q < 2 * (EXPONENT_UNIT as nat),
        k < 2046,
    ensures
        (k + 1) * (EXPONENT_UNIT as nat) + (q - EXPONENT_UNIT) < INFINITY_BITS,
        magnitude_value(((k + 1) * (EXPONENT_UNIT as nat) + (q - EXPONENT_UNIT)) as nat) == q
            * pow2(k),
{
    let u = EXPONENT_UNIT as nat;
    let f = (q - u) as nat;
    let m = (k + 1) * u + f;
    assert(m < 2047 * u) by (nonlinear_arith)
        requires
            m == (k + 1) * u + f,
            f < u,
            k < 2046,
    ;
    lemma_fundamental_div_mod_converse(m as int, u as int, (k + 1) as int, f as int);
}

/// `2^s` as a 128-bit integer.
pub(crate) fn power_of_two(s: u64) -> (p: u128)
    requires
        s <= 126,
    ensures
        p == pow2(s as nat),
{
    proof {
        lemma2_to64();
    }
    let mut p: u128 = 1;
    let mut i: u64 = 0;
    while i < s
        invariant
            i <= s,
            s <= 126,
            p == pow2(i as nat),
        decreases s - i,
    {
        proof {
            lemma2_to64_rest();
            lemma_pow2_adds(64, 61);
            assert(pow2(125) == 0x2000_0000_0000_0000_0000_0000_0000_0000);
            lemma_pow2_unfold((i + 1) as nat);
            if i < 125 {
                lemma_pow2_strictly_increases(i as nat, 125);
            }
        }
        p = p * 2;
        i = i + 1;
    }
    p
}

/// Takes a finite magnitude pattern apart into significand and exponent.
pub(crate) fn split_magnitude(m: u64) -> (r: (u64, u64))
    requires
        m < INFINITY_BITS,
    ensures
        r.0 == significand_of(m as nat),
        r.1 == exponent_of(m as nat),
        r.1 <= 2045,
        r.0 < 2 * EXPONENT_UNIT,
        magnitude_value(m as nat) == r.0 * pow2(r.1 as nat),
        r.1 > 0 ==> r.0 >= EXPONENT_UNIT,
{
    proof {
        lemma_magnitude_split(m as nat);
    }
    let e = m / EXPONENT_UNIT;
    let f = m % EXPONENT_UNIT;
    if e == 0 {
        (f, 0)
    } else {
        (f + EXPONENT_UNIT, e - 1)
    }
}

/// The magnitude pattern of `q * 2^k` (in units of 2^-1074), or the pattern of
/// infinity when that value reaches the overflow bound.
pub(crate) fn pack_magnitude(q: u64, k: u64) -> (m: u64)
    requires
        q < 2 * EXPONENT_UNIT,
        q < EXPONENT_UNIT ==> k == 0,
    ensures
        q * pow2(k as nat) >= overflow_bound() ==> m == INFINITY_BITS,
        q * pow2(k as nat) < overflow_bound() ==> m < INFINITY_BITS && magnitude_value(m as nat)
            == q * pow2(k as nat),
{
    proof {
        lemma2_to64();
        lemma2_to64_rest();
        lemma_pow2_strictly_increases(53, 2098);
    }
    if q < EXPONENT_UNIT {
        proof {
            lemma_magnitude_value_small(q as nat);
            assert(k == 0);
            assert(q * pow2(k as nat) == q);
            assert(q < pow2(53));
        }
        q
    } else if k >= 2046 {
        proof {
            if k > 2046 {
                lemma_pow2_strictly_increases(2046, k as nat);
            }
            lemma_pow2_adds(52, 2046);
            assert(q * pow2(k as nat) >= pow2(52) * pow2(2046)) by (nonlinear_arith)
                requires
                    q >= pow2(52),
                    pow2(k as nat) >= pow2(2046),
            ;
        }
        INFINITY_BITS
    } else {
        proof {
            lemma_magnitude_encode(q as nat, k as nat);
            if k < 2045 {
                lemma_pow2_strictly_increases(k as nat, 2045);
            }
            lemma_pow2_adds(53, 2045);
            lemma_pow2_pos(k as nat);
            assert(q * pow2(k as nat) < pow2(53) * pow2(2045)) by (nonlinear_arith)
                requires
                    q < pow2(53),
                    pow2(k as nat) <= pow2(2045),
                    pow2(k as nat) > 0,
            ;
        }
        (k + 1) * EXPONENT_UNIT + (q - EXPONENT_UNIT)
    }
}

/// Rounds `t * 2^e` to 53 significant digits and gives the result as
/// `q * 2^k` in the form `pack_magnitude` takes.
pub(crate) fn round_scaled(t: u128, e: u64) -> (r: (u64, u64))
    requires
        t < pow2(117),
        e <= 3100,
    ensures
        r.0 < 2 * EXPONENT_UNIT,
        r.0 < EXPONENT_UNIT ==> r.1 == 0,
        r.0 * pow2(r.1 as nat) == round_significand((t * pow2(e as nat)) as nat),
{
    proof {
        lemma2_to64();
        lemma2_to64_rest();
        lemma_bit_length_at_most(t as nat, 117);
    }
    let mut b: u64 = 0;
    let mut x: u128 = t;
    while x > 0
        invariant
            b + bit_length(x as nat) == bit_length(t as nat),
            bit_length(t as nat) <= 117,
        decreases x,
    {
        x = x / 2;
        b = b + 1;
    }
    if b <= 53 {
        proof {
            lemma_bit_length_bounds(t as nat);
            if b < 53 {
                lemma_pow2_strictly_increases(b as nat, 53);
            }
        }
        let mut q: u64 = t as u64;
        let mut k: u64 = e;
        while q < EXPONENT_UNIT && k > 0
            invariant
                q < 2 * EXPONENT_UNIT,
                k <= e,
                q * pow2(k as nat) == t * pow2(e as nat),
            decreases k,
        {
            proof {
                lemma_pow2_unfold(k as nat);
                assert(q * pow2(k as nat) == (2 * q) * pow2((k - 1) as nat)) by (nonlinear_arith)
                    requires
                        pow2(k as nat) == 2 * pow2((k - 1) as nat),
                ;
            }
            q = q * 2;
            k = k - 1;
        }
        proof {
            lemma_round_exact(t as nat, e as nat);
        }
        (q, k)
    } else {
        let s: u64 = b - 53;
        let p = power_of_two(s);
        let q = t / p;
        let rem = t % p;
        proof {
            lemma_bit_length_bounds(t as nat);
            lemma_pow2_adds(52, s as nat);
            lemma_pow2_adds(53, s as nat);
            lemma_pow2_pos(s as nat);
            vstd::arithmetic::div_mod::lemma_fundamental_div_mod(t as int, p as int);
            assert(pow2(52) <= q < pow2(53)) by (nonlinear_arith)
                requires
                    t == p * q + rem,
                    0 <= rem < p,
                    pow2(52) * p <= t,
                    t < pow2(53) * p,
                    p > 0,
            ;
            assert(t * pow2(e as nat) == (q * pow2(s as nat) + rem) * pow2(e as nat)) by (nonlinear_arith)
                requires
                    t == p * q + rem,
                    p == pow2(s as nat),
            ;
            lemma_round_decomposed_scaled(
                (t * pow2(e as nat)) as nat,
                q as nat,
                rem as nat,
                s as nat,
                e as nat,
            );
        }
        let up = 2 * rem > p || (2 * rem == p && q % 2 == 1);
        let q1: u64 = if up {
            (q + 1) as u64
        } else {
            q as u64
        };
        if q1 == 2 * EXPONENT_UNIT {
            proof {
                lemma_pow2_unfold((s + e + 1) as nat);
                assert(q1 * pow2((s + e) as nat) == EXPONENT_UNIT * pow2((s + e + 1) as nat)) by (nonlinear_arith)
                    requires
                        q1 == 2 * EXPONENT_UNIT,
                        pow2((s + e + 1) as nat) == 2 * pow2((s + e) as nat),
                ;
            }
            (EXPONENT_UNIT, s + e + 1)
        } else {
            (q1, s + e)
        }
    }
}

/// The exact sum, or with `subtract` the difference, of two scaled
/// magnitudes, the first no smaller than the second.
pub open spec fn exact_combination(va: nat, vb: nat, subtract: bool) -> nat {
    if subtract {
        (va - vb) as nat
    } else {
        va + vb
    }
}

/// Exponents 64 or more apart: the smaller operand cannot move the rounded
/// result away from the larger one.
pub proof fn lemma_round_far(ma: nat, mb: nat, d: nat, k: nat, subtract: bool)
    requires
        pow2(52) <= ma < pow2(53),
        mb < pow2(53),
        d >= 64,
    ensures
        round_significand(exact_combination(ma * pow2(d), mb, subtract) * pow2(k)) == ma * pow2(
            d,
        ) * pow2(k),
{
    let p = pow2(d);
    let h = pow2((d - 1) as nat);
    let n = exact_combination(ma * p, mb, subtract) * pow2(k);
    lemma2_to64_rest();
    lemma_pow2_unfold(d);
    lemma_pow2_unfold((d - 1) as nat);
    lemma_pow2_strictly_increases(53, (d - 2) as nat);
    lemma_pow2_adds(d, k);
    lemma_pow2_adds((d - 1) as nat, k);
    assert(2 * mb < h);
    assert(ma * pow2(d + k) == ma * p * pow2(k)) by (nonlinear_arith)
        requires
            pow2(d + k) == p * pow2(k),
    ;
    if mb == 0 {
        assert(n == (ma * p + 0) * pow2(k));
        lemma_round_decomposed_scaled(n, ma, 0, d, k);
    } else if !subtract {
        assert(n == (ma * p + mb) * pow2(k));
        lemma_round_decomposed_scaled(n, ma, mb, d, k);
    } else if ma > pow2(52) {
        let q = (ma - 1) as nat;
        let r = (p - mb) as nat;
        assert(ma * p - mb == q * p + r) by (nonlinear_arith)
            requires
                q == ma - 1,
                r == p - mb,
        ;
        lemma_round_decomposed_scaled(n, q, r, d, k);
        assert(rounds_up(q, r, p));
        assert((q + 1) * pow2(d + k) == ma * p * pow2(k));
    } else {
        let q = (pow2(53) - 1) as nat;
        let r = (h - mb) as nat;
        assert(ma * p - mb == q * h + r) by (nonlinear_arith)
            requires
                ma == pow2(52),
                pow2(53) == 2 * pow2(52),
                p == 2 * h,
                q == pow2(53) - 1,
                r == h - mb,
        ;
        lemma_round_decomposed_scaled(n, q, r, (d - 1) as nat, k);
        assert((q + 1) * pow2((d - 1 + k) as nat) == ma * p * pow2(k)) by (nonlinear_arith)
            requires
                q + 1 == 2 * ma,
                p == 2 * h,
                pow2((d - 1 + k) as nat) == h * pow2(k),
        ;
    }
}

/// The magnitude pattern of the rounded sum (or, with `subtract`, difference)
/// of the scaled values of two finite magnitude patterns, the first no smaller
/// than the second; the pattern of infinity when the result overflows.
pub(crate) fn combine_magnitudes(ma: u64, mb: u64, subtract: bool) -> (m: u64)
    requires
        mb <= ma < INFINITY_BITS,
    ensures
        magnitude_value(mb as nat) <= magnitude_value(ma as nat),
        ({
            let rounded = round_significand(
                exact_combination(magnitude_value(ma as nat), magnitude_value(mb as nat), subtract),
            );
            &&& rounded >= overflow_bound() ==> m == INFINITY_BITS
            &&& rounded < overflow_bound() ==> m < INFINITY_BITS && magnitude_value(m as nat)
                == rounded
        }),
{
    proof {
        if mb < ma {
            lemma_magnitude_value_strictly_increasing(mb as nat, ma as nat);
        }
        lemma_exponent_ordered(mb as nat, ma as nat);
        lemma2_to64_rest();
    }
    let (sa, ea) = split_magnitude(ma);
    let (sb, eb) = split_magnitude(mb);
    let d = ea - eb;
    let ghost va = magnitude_value(ma as nat);
    let ghost vb = magnitude_value(mb as nat);
    proof {
        lemma_pow2_adds(d as nat, eb as nat);
        lemma_pow2_pos(eb as nat);
        assert(va == (sa * pow2(d as nat)) * pow2(eb as nat)) by (nonlinear_arith)
            requires
                va == sa * pow2(ea as nat),
                pow2(ea as nat) == pow2(d as nat) * pow2(eb as nat),
        ;
        assert(exact_combination(va, vb, subtract) == exact_combination(
            (sa * pow2(d as nat)) as nat,
            sb as nat,
            subtract,
        ) * pow2(eb as nat)) by (nonlinear_arith)
            requires
                va == (sa * pow2(d as nat)) * pow2(eb as nat),
                vb == sb * pow2(eb as nat),
                vb <= va,
        ;
    }
    if d >= 64 {
        proof {
            lemma_round_far(sa as nat, sb as nat, d as nat, eb as nat, subtract);
            lemma_finite_below_overflow(ma as nat);
        }
        ma
    } else {
        let pd = power_of_two(d);
        proof {
            if d < 63 {
                lemma_pow2_strictly_increases(d as nat, 63);
            }
            lemma_pow2_adds(53, 63);
            lemma_pow2_strictly_increases(116, 117);
            lemma_pow2_pos(63);
            lemma_pow2_unfold(117);
            lemma_pow2_strictly_increases(53, 116);
            assert(sa * pd < pow2(53) * pow2(63)) by (nonlinear_arith)
                requires
                    sa < pow2(53),
                    pd <= pow2(63),
                    pow2(63) > 0,
            ;
            assert(sb <= sa * pd) by (nonlinear_arith)
                requires
                    vb <= va,
                    va == (sa * pd) * pow2(eb as nat),
                    vb == sb * pow2(eb as nat),
                    pow2(eb as nat) > 0,
            ;
        }
        let hi: u128 = (sa as u128) * pd;
        let t: u128 = if subtract {
            hi - sb as u128
        } else {
            hi + sb as u128
        };
        let (q, k) = round_scaled(t, eb);
        pack_magnitude(q, k)
    }
}

/// `x / 2^z` rounded to what binary64 holds: 53 significant binary digits
/// and no digit below the unit 2^-1074, to nearest with ties to even.
pub open spec fn round_scaled_down(x: nat, z: nat) -> nat {
    let b = bit_length(x);
    let s: nat = if b >= 53 + z {
        (b - 53) as nat
    } else {
        z
    };
    let p = pow2(s);
    let q = x / p;
    (if rounds_up(q, x % p, p) {
        q + 1
    } else {
        q
    }) * pow2((s - z) as nat)
}

/// Scaling numerator and denominator by the same power of two leaves the
/// rounded quotient as it is.
pub proof fn lemma_round_scaled_down_shift(n: nat, z: nat, k: nat)
    ensures
        round_scaled_down(n * pow2(k), z + k) == round_scaled_down(n, z),
{
    let x = n * pow2(k);
    lemma_pow2_pos(k);
    if n == 0 {
        assert(x == 0);
        lemma_bit_length_bounds(0);
        lemma_pow2_pos(z);
        lemma_pow2_pos(z + k);
        vstd::arithmetic::div_mod::lemma_div_of0(pow2(z) as int);
        vstd::arithmetic::div_mod::lemma_div_of0(pow2(z + k) as int);
        lemma_fundamental_div_mod_converse(0, pow2(z) as int, 0, 0);
        lemma_fundamental_div_mod_converse(0, pow2(z + k) as int, 0, 0);
    } else {
        let b = bit_length(n);
        lemma_bit_length_bounds(n);
        lemma_pow2_adds((b - 1) as nat, k);
        lemma_pow2_adds(b, k);
        assert(pow2((b - 1) as nat) * pow2(k) <= x < pow2(b) * pow2(k)) by (nonlinear_arith)
            requires
                pow2((b - 1) as nat) <= n < pow2(b),
                x == n * pow2(k),
                pow2(k) > 0,
        ;
        assert((b + k - 1) as nat == (b - 1) as nat + k);
        lemma_bit_length_exact(x, b + k);
        let sn: nat = if b >= 53 + z {
            (b - 53) as nat
        } else {
            z
        };
        let pn = pow2(sn);
        lemma_pow2_pos(sn);
        lemma_pow2_adds(sn, k);
        let q = n / pn;
        let r = n % pn;
        vstd::arithmetic::div_mod::lemma_fundamental_div_mod(n as int, pn as int);
        assert(x == q * (pn * pow2(k)) + r * pow2(k)) by (nonlinear_arith)
            requires
                n == pn * q + r,
                x == n * pow2(k),
        ;
        assert(r * pow2(k) < pn * pow2(k)) by (nonlinear_arith)
            requires
                r < pn,
                pow2(k) > 0,
        ;
        lemma_fundamental_div_mod_converse(
            x as int,
            (pn * pow2(k)) as int,
            q as int,
            (r * pow2(k)) as int,
        );
        assert(rounds_up(q, r * pow2(k), pn * pow2(k)) == rounds_up(q, r, pn)) by {
            let t = pow2(k);
            assert((2 * (r * t) > pn * t) == (2 * r > pn)) by (nonlinear_arith)
                requires
                    t > 0,
            ;
            assert((2 * (r * t) == pn * t) == (2 * r == pn)) by (nonlinear_arith)
                requires
                    t > 0,
            ;
        }
        assert(((sn + k) - (z + k)) as nat == (sn - z) as nat);
    }
}

/// Rounding a whole number with no digit below the unit is rounding it to
/// 53 significant digits.
pub proof fn lemma_round_scaled_down_whole(n: nat)
    ensures
        round_scaled_down(n, 0) == round_significand(n),
{
    lemma2_to64();
    let b = bit_length(n);
    if b <= 53 {
        lemma_fundamental_div_mod_converse(n as int, 1, n as int, 0);
    }
}

/// `t / 2^z` rounded, given as `q * 2^k` in the form `pack_magnitude` takes.
pub(crate) fn round_quotient_by_power(t: u128, z: u64) -> (r: (u64, u64))
    requires
        t < pow2(117),
        z <= 2000,
    ensures
        r.0 < 2 * EXPONENT_UNIT,
        r.0 < EXPONENT_UNIT ==> r.1 == 0,
        r.0 * pow2(r.1 as nat) == round_scaled_down(t as nat, z as nat),
{
    proof {
        lemma2_to64();
        lemma2_to64_rest();
        lemma_bit_length_at_most(t as nat, 117);
    }
    let mut b: u64 = 0;
    let mut x: u128 = t;
    while x > 0
        invariant
            b + bit_length(x as nat) == bit_length(t as nat),
            bit_length(t as nat) <= 117,
        decreases x,
    {
        x = x / 2;
        b = b + 1;
    }
    let s: u64 = if b >= 53 + z {
        b - 53
    } else {
        z
    };
    if s > 120 {
        proof {
            lemma_pow2_strictly_increases(118, s as nat);
            lemma_pow2_unfold(118);
            lemma_fundamental_div_mod_converse(t as int, pow2(s as nat) as int, 0, t as int);
        }
        return (0, 0);
    }
    let p = power_of_two(s);
    proof {
        lemma_pow2_pos(s as nat);
        lemma_pow2_adds(64, 56);
        assert(pow2(120) == 0x100_0000_0000_0000_0000_0000_0000_0000);
        if s < 120 {
            lemma_pow2_strictly_increases(s as nat, 120);
        }
    }
    let q = t / p;
    let rem = t % p;
    proof {
        lemma_bit_length_bounds(t as nat);
        lemma_pow2_pos(s as nat);
        lemma_pow2_adds(52, s as nat);
        lemma_pow2_adds(53, s as nat);
        vstd::arithmetic::div_mod::lemma_fundamental_div_mod(t as int, p as int);
        if b >= 53 + z {
            assert(pow2(52) <= q < pow2(53)) by (nonlinear_arith)
                requires
                    t == p * q + rem,
                    0 <= rem < p,
                    pow2(52) * p <= t,
                    t < pow2(53) * p,
                    p > 0,
            ;
        } else {
            if b < 52 + z {
                lemma_pow2_strictly_increases(b as nat, (52 + z) as nat);
            }
            assert(t < pow2(52) * p);
            assert(q < pow2(52)) by (nonlinear_arith)
                requires
                    t == p * q + rem,
                    0 <= rem,
                    t < pow2(52) * p,
                    p > 0,
            ;
        }
    }
    let up = 2 * rem > p || (2 * rem == p && q % 2 == 1);
    let q1: u64 = if up {
        (q + 1) as u64
    } else {
        q as u64
    };
    let k: u64 = s - z;
    if q1 == 2 * EXPONENT_UNIT {
        proof {
            lemma_pow2_unfold((k + 1) as nat);
            assert(q1 * pow2(k as nat) == EXPONENT_UNIT * pow2((k + 1) as nat)) by (nonlinear_arith)
                requires
                    q1 == 2 * EXPONENT_UNIT,
                    pow2((k + 1) as nat) == 2 * pow2(k as nat),
            ;
        }
        (EXPONENT_UNIT, k + 1)
    } else {
        (q1, k)
    }
}

} // verus!
