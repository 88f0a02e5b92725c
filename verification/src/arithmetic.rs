//! Addition, subtraction, multiplication and division of binary64 numbers,
//! rounded as IEEE 754 does: to nearest, ties to even, with overflow to
//! infinity.
use vstd::prelude::*;
use crate::binary64::{
    Binary64,
    magnitude_value,
    lemma_magnitude_value_strictly_increasing,
    lemma_magnitude_value_zero,
    SIGN_BIT,
    INFINITY_BITS,
    QUIET_BIT,
};
use crate::rounding::{
    round_significand,
    round_scaled_down,
    overflow_bound,
    exact_combination,
    combine_magnitudes,
    split_magnitude,
    pack_magnitude,
    round_scaled,
    round_quotient_by_power,
    lemma_round_zero,
    lemma_round_scaled_down_shift,
    lemma_round_scaled_down_whole,
};
use crate::division::{round_ratio, divide_magnitudes, lemma_round_ratio_zero};
use vstd::arithmetic::power2::{pow2, lemma_pow2_adds, lemma_pow2_pos, lemma2_to64_rest};

verus! {

/// The quiet NaN that an invalid operation gives: infinities of opposite
/// signs added, zero times infinity, zero by zero, infinity by infinity.
pub const DEFAULT_NAN_BITS: u64 = 0x7ff8_0000_0000_0000;

impl Binary64 {
    /// The number with its sign bit flipped.
    pub open spec fn negated(self) -> Binary64 {
        Binary64 {
            bits: if self.negative() {
                (self.bits - SIGN_BIT) as u64
            } else {
                (self.bits + SIGN_BIT) as u64
            },
        }
    }

    /// The number with its sign bit cleared.
    pub open spec fn absolute(self) -> Binary64 {
        Binary64 { bits: self.magnitude() as u64 }
    }

    /// `r` is `self + other` as IEEE 754 computes it. Two finite operands
    /// give their exact sum rounded to 53 significant digits, to nearest
    /// with ties to even; a rounded magnitude of 2^1024 or more gives an
    /// infinity of the sum's sign, and an exact zero is negative only when
    /// both operands are. An infinity wins over a finite operand, opposite
    /// infinities give the default NaN, and a NaN operand (the first one, if
    /// both are) is passed on, quieted.
    pub open spec fn sums_to(self, other: Binary64, r: Binary64) -> bool {
        if self.nan() {
            r.bits == self.bits | QUIET_BIT
        } else if other.nan() {
            r.bits == other.bits | QUIET_BIT
        } else if self.infinite() && other.infinite() && self.negative() != other.negative() {
            r.bits == DEFAULT_NAN_BITS
        } else if self.infinite() {
            r == self
        } else if other.infinite() {
            r == other
        } else {
            let n = self.scaled() + other.scaled();
            let exact: nat = (if n < 0 {
                -n
            } else {
                n
            }) as nat;
            let rounded = round_significand(exact);
            if rounded >= overflow_bound() {
                r.infinite() && r.negative() == (n < 0)
            } else {
                &&& r.finite()
                &&& magnitude_value(r.magnitude()) == rounded
                &&& r.negative() == (if n == 0 {
                    self.negative() && other.negative()
                } else {
                    n < 0
                })
            }
        }
    }

    /// The sum `self + other`.
    pub open spec fn sum(self, other: Binary64) -> Binary64 {
        choose|r: Binary64| self.sums_to(other, r)
    }

    /// The difference `self - other`, which IEEE 754 defines as
    /// `self + (-other)`.
    pub open spec fn difference(self, other: Binary64) -> Binary64 {
        self.sum(other.negated())
    }

    /// The sum `self + other` as IEEE 754 computes it.
    pub fn plus(&self, other: &Binary64) -> (r: Binary64)
        ensures
            self.sums_to(*other, r),
            r == self.sum(*other),
    {
        let ma = self.magnitude_bits();
        let mb = other.magnitude_bits();
        if ma > INFINITY_BITS {
            let r = Binary64 { bits: self.bits | QUIET_BIT };
            proof {
                lemma_sum_unique(*self, *other, r);
            }
            return r;
        }
        if mb > INFINITY_BITS {
            let r = Binary64 { bits: other.bits | QUIET_BIT };
            proof {
                lemma_sum_unique(*self, *other, r);
            }
            return r;
        }
        let na = self.bits >= SIGN_BIT;
        let nb = other.bits >= SIGN_BIT;
        if ma == INFINITY_BITS {
            let r = if mb == INFINITY_BITS && na != nb {
                Binary64 { bits: DEFAULT_NAN_BITS }
            } else {
                *self
            };
            proof {
                lemma_sum_unique(*self, *other, r);
            }
            return r;
        }
        if mb == INFINITY_BITS {
            proof {
                lemma_sum_unique(*self, *other, *other);
            }
            return *other;
        }
        let subtract = na != nb;
        let (big, small, neg) = if ma < mb {
            (mb, ma, nb)
        } else {
            (ma, mb, na)
        };
        let m = combine_magnitudes(big, small, subtract);
        let zero = if subtract {
            ma == mb
        } else {
            ma == 0 && mb == 0
        };
        let ghost va = magnitude_value(ma as nat);
        let ghost vb = magnitude_value(mb as nat);
        let ghost n = self.scaled() + other.scaled();
        let ghost exact = exact_combination(
            magnitude_value(big as nat),
            magnitude_value(small as nat),
            subtract,
        );
        proof {
            lemma_magnitude_value_zero(ma as nat);
            lemma_magnitude_value_zero(mb as nat);
            lemma_magnitude_value_zero(m as nat);
            lemma_round_zero();
            if ma < mb {
                lemma_magnitude_value_strictly_increasing(ma as nat, mb as nat);
            } else if mb < ma {
                lemma_magnitude_value_strictly_increasing(mb as nat, ma as nat);
            }
            assert(exact == (if n < 0 {
                -n
            } else {
                n
            }));
            assert(zero == (n == 0));
            assert(!zero ==> (n < 0) == neg);
        }
        let sign: u64 = if zero {
            if na && nb {
                SIGN_BIT
            } else {
                0
            }
        } else if neg {
            SIGN_BIT
        } else {
            0
        };
        let r = Binary64 { bits: sign + m };
        proof {
            assert(r.magnitude() == m);
            assert(r.negative() == (sign == SIGN_BIT));
            vstd::arithmetic::power2::lemma_pow2_pos(2098);
            let rounded = round_significand(exact);
            if rounded >= overflow_bound() {
                assert(!zero);
                assert(r.infinite());
            } else {
                assert(r.finite());
                assert(magnitude_value(r.magnitude()) == rounded);
            }
            assert(self.sums_to(*other, r));
            lemma_sum_unique(*self, *other, r);
        }
        r
    }

    /// The difference `self - other` as IEEE 754 computes it.
    pub fn minus(&self, other: &Binary64) -> (r: Binary64)
        ensures
            self.sums_to(other.negated(), r),
            r == self.difference(*other),
    {
        let flipped = if other.bits >= SIGN_BIT {
            other.bits - SIGN_BIT
        } else {
            other.bits + SIGN_BIT
        };
        self.plus(&Binary64 { bits: flipped })
    }

    /// `r` is `self * other` as IEEE 754 computes it. Two finite operands
    /// give their exact product rounded to what binary64 holds (53
    /// significant digits, none below 2^-1074), to nearest with ties to
    /// even; a rounded magnitude of 2^1024 or more gives an infinity. The
    /// sign is negative exactly when the operands' signs differ, zeros
    /// included. An infinity times a zero gives the default NaN, times
    /// anything else an infinity; a NaN operand (the first one, if both are)
    /// is passed on, quieted.
    pub open spec fn multiplies_to(self, other: Binary64, r: Binary64) -> bool {
        let negative = self.negative() != other.negative();
        if self.nan() {
            r.bits == self.bits | QUIET_BIT
        } else if other.nan() {
            r.bits == other.bits | QUIET_BIT
        } else if (self.infinite() && other.magnitude() == 0) || (other.infinite()
            && self.magnitude() == 0) {
            r.bits == DEFAULT_NAN_BITS
        } else if self.infinite() || other.infinite() {
            r.infinite() && r.negative() == negative
        } else {
            let rounded = round_scaled_down(
                magnitude_value(self.magnitude()) * magnitude_value(other.magnitude()),
                1074,
            );
            if rounded >= overflow_bound() {
                r.infinite() && r.negative() == negative
            } else {
                &&& r.finite()
                &&& magnitude_value(r.magnitude()) == rounded
                &&& r.negative() == negative
            }
        }
    }

    /// The product `self * other`.
    pub open spec fn product(self, other: Binary64) -> Binary64 {
        choose|r: Binary64| self.multiplies_to(other, r)
    }

    /// The product `self * other` as IEEE 754 computes it.
    pub fn times(&self, other: &Binary64) -> (r: Binary64)
        ensures
            self.multiplies_to(*other, r),
            r == self.product(*other),
    {
        let ma = self.magnitude_bits();
        let mb = other.magnitude_bits();
        if ma > INFINITY_BITS {
            let r = Binary64 { bits: self.bits | QUIET_BIT };
            proof {
                lemma_product_unique(*self, *other, r);
            }
            return r;
        }
        if mb > INFINITY_BITS {
            let r = Binary64 { bits: other.bits | QUIET_BIT };
            proof {
                lemma_product_unique(*self, *other, r);
            }
            return r;
        }
        let sign: u64 = if (self.bits >= SIGN_BIT) != (other.bits >= SIGN_BIT) {
            SIGN_BIT
        } else {
            0
        };
        if ma == INFINITY_BITS || mb == INFINITY_BITS {
            let r = if ma == 0 || mb == 0 {
                Binary64 { bits: DEFAULT_NAN_BITS }
            } else {
                Binary64 { bits: sign + INFINITY_BITS }
            };
            proof {
                lemma_product_unique(*self, *other, r);
            }
            return r;
        }
        let (sa, ea) = split_magnitude(ma);
        let (sb, eb) = split_magnitude(mb);
        proof {
            lemma2_to64_rest();
            assert(sa * sb < 0x20_0000_0000_0000 * 0x20_0000_0000_0000) by (nonlinear_arith)
                requires
                    sa < 0x20_0000_0000_0000,
                    sb < 0x20_0000_0000_0000,
            ;
        }
        let t: u128 = (sa as u128) * (sb as u128);
        let e: u64 = ea + eb;
        let ghost x = magnitude_value(ma as nat) * magnitude_value(mb as nat);
        proof {
            lemma2_to64_rest();
            lemma_pow2_adds(ea as nat, eb as nat);
            lemma_pow2_adds(53, 53);
            lemma_pow2_adds(106, 11);
            vstd::arithmetic::power2::lemma_pow2_strictly_increases(106, 117);
            assert(x == t * pow2(e as nat)) by (nonlinear_arith)
                requires
                    x == magnitude_value(ma as nat) * magnitude_value(mb as nat),
                    magnitude_value(ma as nat) == sa * pow2(ea as nat),
                    magnitude_value(mb as nat) == sb * pow2(eb as nat),
                    pow2(e as nat) == pow2(ea as nat) * pow2(eb as nat),
                    t == sa * sb,
            ;
            assert(t < pow2(53) * pow2(53)) by (nonlinear_arith)
                requires
                    sa < pow2(53),
                    sb < pow2(53),
                    t == sa * sb,
            ;
        }
        let (q, k) = if e >= 1074 {
            proof {
                let n = t * pow2((e - 1074) as nat);
                lemma_pow2_adds((e - 1074) as nat, 1074);
                assert(x == n * pow2(1074)) by (nonlinear_arith)
                    requires
                        x == t * pow2(e as nat),
                        n == t * pow2((e - 1074) as nat),
                        pow2(e as nat) == pow2((e - 1074) as nat) * pow2(1074),
                ;
                lemma_round_scaled_down_shift(n as nat, 0, 1074);
                lemma_round_scaled_down_whole(n as nat);
            }
            round_scaled(t, e - 1074)
        } else {
            proof {
                lemma_round_scaled_down_shift(t as nat, (1074 - e) as nat, e as nat);
            }
            round_quotient_by_power(t, 1074 - e)
        };
        let m = pack_magnitude(q, k);
        let r = Binary64 { bits: sign + m };
        proof {
            assert(r.magnitude() == m);
            assert(r.negative() == (sign == SIGN_BIT));
            lemma_product_unique(*self, *other, r);
        }
        r
    }

    /// `r` is `self / other` as IEEE 754 computes it. Two finite operands,
    /// the divisor not zero, give their exact quotient rounded to what
    /// binary64 holds (53 significant digits, none below 2^-1074), to nearest
    /// with ties to even; a rounded magnitude of 2^1024 or more gives an
    /// infinity. The sign is negative exactly when the operands' signs
    /// differ. Zero by zero and infinity by infinity give the default NaN;
    /// anything else by zero, and an infinity by a finite number, give an
    /// infinity; a finite number by an infinity gives zero. A NaN operand
    /// (the first one, if both are) is passed on, quieted.
    pub open spec fn divides_to(self, other: Binary64, r: Binary64) -> bool {
        let negative = self.negative() != other.negative();
        if self.nan() {
            r.bits == self.bits | QUIET_BIT
        } else if other.nan() {
            r.bits == other.bits | QUIET_BIT
        } else if (self.infinite() && other.infinite()) || (self.magnitude() == 0
            && other.magnitude() == 0) {
            r.bits == DEFAULT_NAN_BITS
        } else if self.infinite() || other.magnitude() == 0 {
            r.infinite() && r.negative() == negative
        } else if other.infinite() {
            r.magnitude() == 0 && r.negative() == negative
        } else {
            let rounded = round_ratio(
                magnitude_value(self.magnitude()) * pow2(1074),
                magnitude_value(other.magnitude()),
            );
            if rounded >= overflow_bound() {
                r.infinite() && r.negative() == negative
            } else {
                &&& r.finite()
                &&& magnitude_value(r.magnitude()) == rounded
                &&& r.negative() == negative
            }
        }
    }

    /// The quotient `self / other`.
    pub open spec fn quotient(self, other: Binary64) -> Binary64 {
        choose|r: Binary64| self.divides_to(other, r)
    }

    /// The quotient `self / other` as IEEE 754 computes it.
    pub fn divided_by(&self, other: &Binary64) -> (r: Binary64)
        ensures
            self.divides_to(*other, r),
            r == self.quotient(*other),
    {
        let ma = self.magnitude_bits();
        let mb = other.magnitude_bits();
        if ma > INFINITY_BITS {
            let r = Binary64 { bits: self.bits | QUIET_BIT };
            proof {
                lemma_quotient_unique(*self, *other, r);
            }
            return r;
        }
        if mb > INFINITY_BITS {
            let r = Binary64 { bits: other.bits | QUIET_BIT };
            proof {
                lemma_quotient_unique(*self, *other, r);
            }
            return r;
        }
        let sign: u64 = if (self.bits >= SIGN_BIT) != (other.bits >= SIGN_BIT) {
            SIGN_BIT
        } else {
            0
        };
        let r = if (ma == INFINITY_BITS && mb == INFINITY_BITS) || (ma == 0 && mb == 0) {
            Binary64 { bits: DEFAULT_NAN_BITS }
        } else if ma == INFINITY_BITS || mb == 0 {
            Binary64 { bits: sign + INFINITY_BITS }
        } else if mb == INFINITY_BITS {
            Binary64 { bits: sign }
        } else if ma == 0 {
            proof {
                lemma_magnitude_value_zero(0);
                lemma_magnitude_value_zero(mb as nat);
                lemma_round_ratio_zero(magnitude_value(mb as nat));
                lemma_pow2_pos(2098);
                assert(magnitude_value(0) * pow2(1074) == 0) by (nonlinear_arith)
                    requires
                        magnitude_value(0) == 0,
                ;
            }
            Binary64 { bits: sign }
        } else {
            let m = divide_magnitudes(ma, mb);
            Binary64 { bits: sign + m }
        };
        proof {
            lemma_quotient_unique(*self, *other, r);
        }
        r
    }

    /// The absolute value: the number with its sign bit cleared.
    pub fn abs(&self) -> (r: Binary64)
        ensures
            r == self.absolute(),
            !r.negative(),
            r.magnitude() == self.magnitude(),
    {
        Binary64 { bits: self.magnitude_bits() }
    }
}

/// A sum is unique.
pub proof fn lemma_sum_unique(a: Binary64, b: Binary64, r: Binary64)
    requires
        a.sums_to(b, r),
    ensures
        a.sum(b) == r,
{
    let c = a.sum(b);
    assert(a.sums_to(b, c));
    if c.magnitude() < r.magnitude() && c.finite() && r.finite() {
        lemma_magnitude_value_strictly_increasing(c.magnitude(), r.magnitude());
    } else if r.magnitude() < c.magnitude() && c.finite() && r.finite() {
        lemma_magnitude_value_strictly_increasing(r.magnitude(), c.magnitude());
    }
    if c.negative() == r.negative() && c.magnitude() == r.magnitude() {
        assert(c.bits == r.bits);
    }
}

/// A product is unique.
pub proof fn lemma_product_unique(a: Binary64, b: Binary64, r: Binary64)
    requires
        a.multiplies_to(b, r),
    ensures
        a.product(b) == r,
{
    let c = a.product(b);
    assert(a.multiplies_to(b, c));
    if c.magnitude() < r.magnitude() && c.finite() && r.finite() {
        lemma_magnitude_value_strictly_increasing(c.magnitude(), r.magnitude());
    } else if r.magnitude() < c.magnitude() && c.finite() && r.finite() {
        lemma_magnitude_value_strictly_increasing(r.magnitude(), c.magnitude());
    }
    if c.negative() == r.negative() && c.magnitude() == r.magnitude() {
        assert(c.bits == r.bits);
    }
}

/// A quotient is unique.
pub proof fn lemma_quotient_unique(a: Binary64, b: Binary64, r: Binary64)
    requires
        a.divides_to(b, r),
    ensures
        a.quotient(b) == r,
{
    let c = a.quotient(b);
    assert(a.divides_to(b, c));
    if c.magnitude() < r.magnitude() && c.finite() && r.finite() {
        lemma_magnitude_value_strictly_increasing(c.magnitude(), r.magnitude());
    } else if r.magnitude() < c.magnitude() && c.finite() && r.finite() {
        lemma_magnitude_value_strictly_increasing(r.magnitude(), c.magnitude());
    }
    if c.negative() == r.negative() && c.magnitude() == r.magnitude() {
        assert(c.bits == r.bits);
    }
}

/// Halving is undone by adding the half to itself, whenever the halving is
/// exact: for an infinity, and for a finite number whose scaled value is
/// even (every normal number of magnitude 2^-1021 or more among them).
pub proof fn lemma_half_sums_back(x: Binary64)
    requires
        x.infinite() || (x.finite() && magnitude_value(x.magnitude()) % 2 == 0),
    ensures
        x.halved().sum(x.halved()) == x,
{
    let h = x.halved();
    crate::binary64::lemma_halved(x);
    if x.finite() {
        let m = x.magnitude();
        lemma2_to64_rest();
        crate::rounding::lemma_magnitude_split(m);
        crate::rounding::lemma_round_exact(
            crate::rounding::significand_of(m),
            crate::rounding::exponent_of(m),
        );
        crate::rounding::lemma_finite_below_overflow(m);
        lemma_round_zero();
        lemma_magnitude_value_zero(m);
        assert(h.scaled() + h.scaled() == x.scaled());
    }
    lemma_sum_unique(h, h, x);
}

} // verus!
