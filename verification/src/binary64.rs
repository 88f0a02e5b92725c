//! IEEE 754 binary64 numbers, held as their bit patterns.
//!
//! Every real-valued quantity of a bow model is a binary64 number. The library
//! keeps the 64-bit pattern and gives it an exact mathematical meaning: a
//! finite number is an integer multiple of 2^-1074 (the smallest positive
//! subnormal), so its value is described exactly by the integer `scaled()`.
//! Comparisons follow IEEE 754: NaN is unordered, `-0` equals `+0`.
use vstd::prelude::*;
use vstd::arithmetic::power2::{pow2, lemma_pow2_pos, lemma_pow2_unfold, lemma_pow2_strictly_increases};

verus! {

/// The sign bit of a binary64 pattern.
pub const SIGN_BIT: u64 = 0x8000_0000_0000_0000;

/// The magnitude bits of an infinity (all exponent bits set, zero fraction).
pub const INFINITY_BITS: u64 = 0x7ff0_0000_0000_0000;

/// One unit of the biased exponent field, 2^52.
pub const EXPONENT_UNIT: u64 = 0x0010_0000_0000_0000;

/// The bit that marks a NaN as quiet.
pub const QUIET_BIT: u64 = 0x0008_0000_0000_0000;

/// A binary64 floating-point number, stored as its IEEE 754 bit pattern.
#[derive(Clone, Copy, Debug)]
pub struct Binary64 {
    pub bits: u64,
}

/// The magnitude `m` (pattern without sign bit) of a finite number, as an
/// exact multiple of 2^-1074.
pub open spec fn magnitude_value(m: nat) -> nat {
    let e = m / (EXPONENT_UNIT as nat);
    let f = m % (EXPONENT_UNIT as nat);
    if e == 0 {
        f
    } else {
        ((EXPONENT_UNIT as nat) + f) * pow2((e - 1) as nat)
    }
}

/// `n / 2`, rounded to the nearest integer with ties to even.
pub open spec fn half_round_even(n: nat) -> nat {
    if n % 2 == 0 {
        n / 2
    } else if (n / 2) % 2 == 0 {
        n / 2
    } else {
        n / 2 + 1
    }
}

impl Binary64 {
    /// The pattern without its sign bit.
    pub open spec fn magnitude(self) -> nat {
        if self.bits >= SIGN_BIT {
            (self.bits - SIGN_BIT) as nat
        } else {
            self.bits as nat
        }
    }

    /// The sign bit is set.
    pub open spec fn negative(self) -> bool {
        self.bits >= SIGN_BIT
    }

    pub open spec fn nan(self) -> bool {
        self.magnitude() > INFINITY_BITS
    }

    pub open spec fn infinite(self) -> bool {
        self.magnitude() == INFINITY_BITS
    }

    pub open spec fn finite(self) -> bool {
        self.magnitude() < INFINITY_BITS
    }

    /// The value of a finite number times 2^1074, an exact integer.
    pub open spec fn scaled(self) -> int {
        if self.negative() {
            -(magnitude_value(self.magnitude()) as int)
        } else {
            magnitude_value(self.magnitude()) as int
        }
    }

    /// IEEE `<`: false whenever a NaN takes part.
    pub open spec fn less_than(self, other: Binary64) -> bool {
        &&& !self.nan()
        &&& !other.nan()
        &&& {
            ||| (self.infinite() && self.negative() && !(other.infinite() && other.negative()))
            ||| (other.infinite() && !other.negative() && !(self.infinite() && !self.negative()))
            ||| (self.finite() && other.finite() && self.scaled() < other.scaled())
        }
    }

    /// IEEE `==`: false whenever a NaN takes part, `-0 == +0`.
    pub open spec fn equal_to(self, other: Binary64) -> bool {
        &&& !self.nan()
        &&& !other.nan()
        &&& {
            ||| (self.finite() && other.finite() && self.scaled() == other.scaled())
            ||| (self.infinite() && other.infinite() && self.negative() == other.negative())
        }
    }

    /// IEEE `<=`.
    pub open spec fn at_most(self, other: Binary64) -> bool {
        self.less_than(other) || self.equal_to(other)
    }

    /// Finite and above zero.
    pub open spec fn positive_finite(self) -> bool {
        self.finite() && self.scaled() > 0
    }

    /// Finite and zero or above.
    pub open spec fn nonneg_finite(self) -> bool {
        self.finite() && self.scaled() >= 0
    }

    /// Finite and in the closed range from `min` to `max`.
    pub open spec fn finite_within(self, min: Binary64, max: Binary64) -> bool {
        self.finite() && min.at_most(self) && self.at_most(max)
    }

    /// The pattern of positive zero.
    pub open spec fn zero_pattern() -> Binary64 {
        Binary64 { bits: 0 }
    }

    /// The pattern of 1.
    pub open spec fn one_pattern() -> Binary64 {
        Binary64 { bits: 0x3ff0_0000_0000_0000 }
    }

    /// The pattern of -1.
    pub open spec fn minus_one_pattern() -> Binary64 {
        Binary64 { bits: 0xbff0_0000_0000_0000 }
    }

    /// The number with the given bit pattern.
    pub fn from_bits(bits: u64) -> (r: Binary64)
        ensures
            r.bits == bits,
    {
        Binary64 { bits }
    }

    /// The bit pattern of the number.
    pub fn to_bits(&self) -> (r: u64)
        ensures
            r == self.bits,
    {
        self.bits
    }

    /// Positive zero.
    pub fn zero() -> (r: Binary64)
        ensures
            r == Binary64::zero_pattern(),
            r.finite(),
            !r.negative(),
            r.scaled() == 0,
    {
        Binary64 { bits: 0 }
    }

    /// The number 1.
    pub fn one() -> (r: Binary64)
        ensures
            r == Binary64::one_pattern(),
            r.finite(),
            !r.negative(),
            r.scaled() == pow2(1074),
    {
        proof {
            lemma_magnitude_value_one();
        }
        Binary64 { bits: 0x3ff0_0000_0000_0000 }
    }

    /// The number -1.
    pub fn minus_one() -> (r: Binary64)
        ensures
            r == Binary64::minus_one_pattern(),
            r.finite(),
            r.negative(),
            r.scaled() == -pow2(1074),
    {
        proof {
            lemma_magnitude_value_one();
        }
        Binary64 { bits: 0xbff0_0000_0000_0000 }
    }

    pub fn magnitude_bits(&self) -> (m: u64)
        ensures
            m as nat == self.magnitude(),
    {
        if self.bits >= SIGN_BIT {
            self.bits - SIGN_BIT
        } else {
            self.bits
        }
    }

    pub fn is_sign_negative(&self) -> (r: bool)
        ensures
            r == self.negative(),
    {
        self.bits >= SIGN_BIT
    }

    pub fn is_nan(&self) -> (r: bool)
        ensures
            r == self.nan(),
    {
        self.magnitude_bits() > INFINITY_BITS
    }

    pub fn is_infinite(&self) -> (r: bool)
        ensures
            r == self.infinite(),
    {
        self.magnitude_bits() == INFINITY_BITS
    }

    pub fn is_finite(&self) -> (r: bool)
        ensures
            r == self.finite(),
    {
        self.magnitude_bits() < INFINITY_BITS
    }

    /// A key whose integer order is the IEEE order of non-NaN numbers.
    fn order_key(&self) -> (k: i128)
        ensures
            k == (if self.negative() {
                -(self.magnitude() as int)
            } else {
                self.magnitude() as int
            }),
    {
        let m = self.magnitude_bits();
        if self.bits >= SIGN_BIT {
            -(m as i128)
        } else {
            m as i128
        }
    }

    /// IEEE `a < b`.
    pub fn lt(&self, other: &Binary64) -> (r: bool)
        ensures
            r == self.less_than(*other),
    {
        if self.is_nan() || other.is_nan() {
            return false;
        }
        proof {
            lemma_key_order(*self, *other);
        }
        self.order_key() < other.order_key()
    }

    /// IEEE `a <= b`.
    pub fn le(&self, other: &Binary64) -> (r: bool)
        ensures
            r == self.at_most(*other),
    {
        if self.is_nan() || other.is_nan() {
            return false;
        }
        proof {
            lemma_key_order(*self, *other);
        }
        self.order_key() <= other.order_key()
    }

    /// IEEE `a > b`.
    pub fn gt(&self, other: &Binary64) -> (r: bool)
        ensures
            r == other.less_than(*self),
    {
        other.lt(self)
    }

    /// IEEE `a >= b`.
    pub fn ge(&self, other: &Binary64) -> (r: bool)
        ensures
            r == other.at_most(*self),
    {
        other.le(self)
    }

    /// IEEE `a == b`.
    pub fn equals(&self, other: &Binary64) -> (r: bool)
        ensures
            r == self.equal_to(*other),
    {
        if self.is_nan() || other.is_nan() {
            return false;
        }
        proof {
            lemma_key_order(*self, *other);
        }
        self.order_key() == other.order_key()
    }

    /// `r` is the product `0.5 * self` as IEEE 754 computes it (round to
    /// nearest, ties to even): a finite number keeps its sign and its scaled
    /// value is halved and rounded; an infinity stays; a NaN is quieted.
    pub open spec fn halves_to(self, r: Binary64) -> bool {
        if self.nan() {
            r.bits == self.bits | QUIET_BIT
        } else if self.infinite() {
            r == self
        } else {
            &&& r.finite()
            &&& r.negative() == self.negative()
            &&& magnitude_value(r.magnitude()) == half_round_even(magnitude_value(self.magnitude()))
        }
    }

    /// The product `0.5 * self`.
    pub open spec fn halved(self) -> Binary64 {
        choose|r: Binary64| self.halves_to(r)
    }

    /// The product `0.5 * self` as IEEE 754 computes it.
    pub fn half(&self) -> (r: Binary64)
        ensures
            self.halves_to(r),
            r == self.halved(),
    {
        let m = self.magnitude_bits();
        let sign: u64 = if self.bits >= SIGN_BIT { SIGN_BIT } else { 0 };
        if m > INFINITY_BITS {
            let b = self.bits;
            let q: u64 = b | QUIET_BIT;
            proof {
                lemma_halves_unique(*self, Binary64 { bits: q });
            }
            return Binary64 { bits: q };
        }
        if m == INFINITY_BITS {
            proof {
                lemma_halves_unique(*self, *self);
            }
            return *self;
        }
        let rm: u64 = if m >= 2 * EXPONENT_UNIT {
            m - EXPONENT_UNIT
        } else {
            let q = m / 2;
            if m % 2 == 1 && q % 2 == 1 {
                q + 1
            } else {
                q
            }
        };
        proof {
            if m >= 2 * EXPONENT_UNIT {
                lemma_magnitude_value_halves(m as nat);
            } else {
                lemma_magnitude_value_small(m as nat);
                lemma_magnitude_value_small(rm as nat);
            }
            lemma_halves_unique(*self, Binary64 { bits: (sign + rm) as u64 });
        }
        Binary64 { bits: sign + rm }
    }
}

/// The half of a number is unique.
proof fn lemma_halves_unique(x: Binary64, r: Binary64)
    requires
        x.halves_to(r),
    ensures
        x.halved() == r,
{
    let c = x.halved();
    assert(x.halves_to(c));
    if x.finite() {
        if c.magnitude() < r.magnitude() {
            lemma_magnitude_value_strictly_increasing(c.magnitude(), r.magnitude());
        } else if r.magnitude() < c.magnitude() {
            lemma_magnitude_value_strictly_increasing(r.magnitude(), c.magnitude());
        }
        assert(c.magnitude() == r.magnitude());
    }
}

impl PartialEq for Binary64 {
    fn eq(&self, other: &Binary64) -> (r: bool) {
        self.equals(other)
    }
}

impl vstd::std_specs::cmp::PartialEqSpecImpl for Binary64 {
    open spec fn obeys_eq_spec() -> bool {
        true
    }

    open spec fn eq_spec(&self, other: &Binary64) -> bool {
        self.equal_to(*other)
    }
}

/// A magnitude below 2^53 is its own scaled value.
pub proof fn lemma_magnitude_value_small(m: nat)
    requires
        m < 2 * (EXPONENT_UNIT as nat),
    ensures
        magnitude_value(m) == m,
{
    let e = m / (EXPONENT_UNIT as nat);
    vstd::arithmetic::power2::lemma2_to64();
    if e != 0 {
        assert(e == 1);
        assert(m % (EXPONENT_UNIT as nat) == m - EXPONENT_UNIT);
        assert(pow2((e - 1) as nat) == 1);
    }
}

proof fn lemma_magnitude_value_one()
    ensures
        magnitude_value(0x3ff0_0000_0000_0000) == pow2(1074),
{
    let e: nat = 0x3ff0_0000_0000_0000nat / (EXPONENT_UNIT as nat);
    assert(e == 1023);
    assert(0x3ff0_0000_0000_0000nat % (EXPONENT_UNIT as nat) == 0);
    vstd::arithmetic::power2::lemma2_to64();
    vstd::arithmetic::power2::lemma_pow2_adds(52, 1022);
    vstd::arithmetic::power2::lemma_pow2_adds(20, 32);
    assert(pow2(52) == EXPONENT_UNIT);
}

/// Lowering the exponent field by one halves the value of a normal number
/// whose exponent field is at least 2.
proof fn lemma_magnitude_value_halves(m: nat)
    requires
        2 * (EXPONENT_UNIT as nat) <= m,
    ensures
        magnitude_value(m) == 2 * magnitude_value((m - EXPONENT_UNIT) as nat),
{
    let u = EXPONENT_UNIT as nat;
    let e = m / u;
    let f = m % u;
    let m2 = (m - u) as nat;
    assert(m2 / u == e - 1 && m2 % u == f) by {
        assert(m == e * u + f);
        assert(m2 == (e - 1) * u + f) by (nonlinear_arith)
            requires
                m == e * u + f,
                m2 == m - u,
        ;
        vstd::arithmetic::div_mod::lemma_fundamental_div_mod_converse(m2 as int, u as int, (e - 1) as int, f as int);
    }
    assert(e >= 2) by {
        vstd::arithmetic::div_mod::lemma_div_is_ordered((2 * u) as int, m as int, u as int);
        vstd::arithmetic::div_mod::lemma_div_by_multiple(2, u as int);
        assert((2 * u) / u == 2) by (nonlinear_arith)
            requires
                u > 0,
        ;
    }
    lemma_pow2_unfold((e - 1) as nat);
    let p = pow2((e - 2) as nat);
    assert((u + f) * (2 * p) == 2 * ((u + f) * p)) by (nonlinear_arith);
}

/// Bounds of the scaled value by the exponent field: below 2^(e+52), and at
/// least 2^(e+51) for a normal number.
proof fn lemma_magnitude_value_bounds(m: nat)
    ensures
        magnitude_value(m) < (EXPONENT_UNIT as nat) * pow2(m / (EXPONENT_UNIT as nat)),
        m / (EXPONENT_UNIT as nat) >= 1 ==> (EXPONENT_UNIT as nat) * pow2(
            (m / (EXPONENT_UNIT as nat) - 1) as nat,
        ) <= magnitude_value(m),
{
    let u = EXPONENT_UNIT as nat;
    let e = m / u;
    let f = m % u;
    vstd::arithmetic::power2::lemma2_to64();
    if e == 0 {
        assert(pow2(0) == 1);
    } else {
        let p = pow2((e - 1) as nat);
        lemma_pow2_unfold(e);
        lemma_pow2_pos((e - 1) as nat);
        assert((u + f) * p < u * (2 * p)) by (nonlinear_arith)
            requires
                f < u,
                p > 0,
        ;
        assert(u * p <= (u + f) * p) by (nonlinear_arith)
            requires
                p > 0,
        ;
    }
}

/// The scaled value is strictly increasing in the magnitude pattern.
pub proof fn lemma_magnitude_value_strictly_increasing(m1: nat, m2: nat)
    requires
        m1 < m2,
    ensures
        magnitude_value(m1) < magnitude_value(m2),
{
    let u = EXPONENT_UNIT as nat;
    let e1 = m1 / u;
    let e2 = m2 / u;
    let f1 = m1 % u;
    let f2 = m2 % u;
    vstd::arithmetic::div_mod::lemma_div_is_ordered(m1 as int, m2 as int, u as int);
    if e1 == e2 {
        assert(f1 < f2) by {
            assert(m1 == e1 * u + f1);
            assert(m2 == e2 * u + f2);
        }
        if e1 != 0 {
            let p = pow2((e1 - 1) as nat);
            lemma_pow2_pos((e1 - 1) as nat);
            assert((u + f1) * p < (u + f2) * p) by (nonlinear_arith)
                requires
                    f1 < f2,
                    p > 0,
            ;
        }
    } else {
        lemma_magnitude_value_bounds(m1);
        lemma_magnitude_value_bounds(m2);
        assert(e1 < e2);
        if e1 < (e2 - 1) as nat {
            lemma_pow2_strictly_increases(e1, (e2 - 1) as nat);
        }
        assert(pow2(e1) <= pow2((e2 - 1) as nat));
        assert(u * pow2(e1) <= u * pow2((e2 - 1) as nat)) by (nonlinear_arith)
            requires
                pow2(e1) <= pow2((e2 - 1) as nat),
        ;
    }
}

/// A magnitude pattern is zero exactly when its scaled value is.
pub proof fn lemma_magnitude_value_zero(m: nat)
    ensures
        magnitude_value(m) == 0 <==> m == 0,
{
    if m > 0 {
        lemma_magnitude_value_strictly_increasing(0, m);
    }
}

/// For numbers that are not NaN, the IEEE order is the integer order of the
/// signed magnitude patterns.
pub proof fn lemma_key_order(a: Binary64, b: Binary64)
    requires
        !a.nan(),
        !b.nan(),
    ensures
        ({
            let ka = if a.negative() { -(a.magnitude() as int) } else { a.magnitude() as int };
            let kb = if b.negative() { -(b.magnitude() as int) } else { b.magnitude() as int };
            &&& a.less_than(b) <==> ka < kb
            &&& a.equal_to(b) <==> ka == kb
        }),
{
    let ma = a.magnitude();
    let mb = b.magnitude();
    lemma_magnitude_value_zero(ma);
    lemma_magnitude_value_zero(mb);
    if ma < mb {
        lemma_magnitude_value_strictly_increasing(ma, mb);
    } else if mb < ma {
        lemma_magnitude_value_strictly_increasing(mb, ma);
    }
}

/// A pattern with the sign bit clear and a magnitude between zero and
/// infinity (both excluded) is a finite number above zero.
pub proof fn lemma_positive_pattern(x: Binary64)
    requires
        0 < x.bits < INFINITY_BITS,
    ensures
        x.finite(),
        !x.negative(),
        x.positive_finite(),
        x.nonneg_finite(),
{
    lemma_magnitude_value_zero(x.bits as nat);
}

/// Every number has a half.
pub proof fn lemma_halved(x: Binary64)
    ensures
        x.halves_to(x.halved()),
{
    let m = x.magnitude();
    let sign: nat = if x.negative() { SIGN_BIT as nat } else { 0 };
    let u = EXPONENT_UNIT as nat;
    if x.nan() {
        assert(x.halves_to(Binary64 { bits: x.bits | QUIET_BIT }));
    } else if x.infinite() {
        assert(x.halves_to(x));
    } else if m >= 2 * u {
        lemma_magnitude_value_halves(m);
        let r = Binary64 { bits: (sign + m - u) as u64 };
        assert(r.magnitude() == m - u);
        assert(x.halves_to(r));
    } else {
        lemma_magnitude_value_small(m);
        let rm = half_round_even(m);
        lemma_magnitude_value_small(rm);
        let r = Binary64 { bits: (sign + rm) as u64 };
        assert(r.magnitude() == rm);
        assert(x.halves_to(r));
    }
}

} // verus!
