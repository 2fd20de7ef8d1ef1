//! Numbers of the language: IEEE-754 binary64 values, held as bit patterns.
//!
//! Comparisons and the conversions from and to whole numbers are decided
//! here, on the bits. Arithmetic, parsing and formatting are left to the
//! host.

use vstd::prelude::*;
use vstd::arithmetic::power2::pow2;
use vstd::arithmetic::power2::lemma2_to64;
use vstd::arithmetic::power2::lemma2_to64_rest;
use vstd::arithmetic::power2::lemma_pow2_strictly_increases;
use vstd::arithmetic::power2::lemma_pow2_pos;
use vstd::bits::lemma_u64_shl_is_mul;
use vstd::bits::lemma_u64_shr_is_div;
use vstd::bits::lemma_u64_low_bits_mask_is_mod;

verus! {

/// Everything but the sign bit.
pub const MAGNITUDE_MASK: u64 = 0x7fff_ffff_ffff_ffff;

/// The magnitude of the infinities: exponent all ones, fraction zero.
pub const INFINITY_BITS: u64 = 0x7ff0_0000_0000_0000;

/// The fraction field.
pub const FRACTION_MASK: u64 = 0x000f_ffff_ffff_ffff;

/// The bit that a normal number's significand has above its fraction.
pub const HIDDEN_BIT: u64 = 0x0010_0000_0000_0000;

/// A binary64 value, as its bits.
#[derive(Clone, Copy, Debug)]
pub struct Number {
    pub bits: u64,
}

/// What a number is when it is used to count or to index.
#[derive(Clone, Copy, Debug, PartialEq, Eq, Structural)]
pub enum Whole {
    /// A non-negative whole number that fits in 64 bits.
    Exact(u64),
    /// A non-negative whole number of 2^64 or more.
    Huge,
    /// Negative, fractional, infinite or not a number.
    NotWhole,
}

/// The bits without the sign.
pub open spec fn magnitude(bits: u64) -> u64 {
    bits & MAGNITUDE_MASK
}

/// Whether the sign bit is set.
pub open spec fn is_negative(bits: u64) -> bool {
    bits >> 63 != 0
}

/// Whether the bits are those of a NaN: exponent all ones, fraction not zero.
pub open spec fn is_nan(bits: u64) -> bool {
    magnitude(bits) > INFINITY_BITS
}

/// Whether the bits are those of one of the two zeros.
pub open spec fn is_zero(bits: u64) -> bool {
    magnitude(bits) == 0
}

/// The biased exponent field.
pub open spec fn exponent(bits: u64) -> u64 {
    magnitude(bits) >> 52
}

/// The significand of a normal number: the fraction with the hidden bit.
pub open spec fn significand(bits: u64) -> u64 {
    (bits & FRACTION_MASK) | HIDDEN_BIT
}

/// Equality of the two values as IEEE-754 defines it: a NaN equals nothing,
/// the two zeros equal each other, and otherwise the bits decide.
pub open spec fn number_eq(a: u64, b: u64) -> bool {
    !is_nan(a) && !is_nan(b) && (a == b || (is_zero(a) && is_zero(b)))
}

/// Where a value that is not a NaN stands on the number line, as an integer
/// that grows with the value.
pub open spec fn rank(bits: u64) -> int {
    if is_negative(bits) {
        -(magnitude(bits) as int)
    } else {
        magnitude(bits) as int
    }
}

/// `a < b` as IEEE-754 defines it: false when either is a NaN.
pub open spec fn number_lt(a: u64, b: u64) -> bool {
    !is_nan(a) && !is_nan(b) && rank(a) < rank(b)
}

/// `a <= b` as IEEE-754 defines it: false when either is a NaN.
pub open spec fn number_le(a: u64, b: u64) -> bool {
    !is_nan(a) && !is_nan(b) && rank(a) <= rank(b)
}

/// The value of the number if it is a non-negative whole number.
///
/// A normal number with exponent field `e` is `significand * 2^(e - 1075)`.
pub open spec fn natural_value(bits: u64) -> Option<nat> {
    let e = exponent(bits);
    let sig = significand(bits);
    if is_zero(bits) {
        Some(0)
    } else if is_negative(bits) || e < 1023 || e == 2047 {
        None
    } else if e >= 1075 {
        Some(sig as nat * pow2((e - 1075) as nat))
    } else if sig as nat % pow2((1075 - e) as nat) == 0 {
        Some(sig as nat / pow2((1075 - e) as nat))
    } else {
        None
    }
}

/// Which `Whole` stands for the number.
pub open spec fn whole_of(bits: u64) -> Whole {
    match natural_value(bits) {
        None => Whole::NotWhole,
        Some(k) => if k <= u64::MAX {
            Whole::Exact(k as u64)
        } else {
            Whole::Huge
        },
    }
}

/// The position of the highest set bit of a positive number.
pub open spec fn top_bit(n: u64) -> nat
    decreases n,
{
    if n < 2 {
        0
    } else {
        1 + top_bit(n / 2)
    }
}

/// The binary64 value nearest to `n`, ties going to the even significand.
///
/// Below 2^53 every count has a value of its own. From there on the count
/// is cut to its 53 highest bits and rounded on what was cut off; a carry out
/// of the significand raises the exponent by itself.
pub open spec fn bits_of_count(n: u64) -> u64 {
    let p = top_bit(n) as u64;
    if n == 0 {
        0
    } else if p <= 52 {
        ((1023 + p) as u64) << 52 | ((n << ((52 - p) as u64)) & FRACTION_MASK)
    } else {
        let cut = (p - 52) as u64;
        let kept = n >> cut;
        let lost = n & (((1u64 << cut) - 1) as u64);
        let half = 1u64 << ((cut - 1) as u64);
        let up: u64 = if lost > half || (lost == half && kept & 1 == 1) { 1 } else { 0 };
        ((((1023 + p) as u64) << 52) + (kept & FRACTION_MASK) + up) as u64
    }
}

/// The highest set bit of a positive number is where `top_bit` says.
pub proof fn lemma_top_bit(n: u64)
    requires
        n >= 1,
    ensures
        top_bit(n) <= 63,
        n >> (top_bit(n) as u64) == 1,
    decreases n,
{
    if n < 2 {
        assert(n >> 0u64 == 1) by (bit_vector)
            requires
                n == 1,
        ;
    } else {
        let half = n / 2;
        lemma_top_bit(half);
        let q = top_bit(half) as u64;
        assert(q <= 62 && n >> ((q + 1) as u64) == 1) by (bit_vector)
            requires
                half == n / 2,
                half >> q == 1,
                q <= 63,
        ;
    }
}

/// A count below 2^53 becomes the number that is the count: nothing is
/// rounded.
pub proof fn lemma_small_count_is_exact(n: u64)
    requires
        n < 0x0020_0000_0000_0000,
    ensures
        whole_of(bits_of_count(n)) == Whole::Exact(n),
{
    if n == 0 {
        assert(0u64 & MAGNITUDE_MASK == 0) by (bit_vector);
    } else {
        lemma_top_bit(n);
        let p = top_bit(n) as u64;
        assert(p <= 52) by (bit_vector)
            requires
                n >> p == 1,
                p <= 63,
                n < 0x0020_0000_0000_0000,
        ;
        let s = (52 - p) as u64;
        let sig = n << s;
        let bits = ((1023 + p) as u64) << 52 | (sig & FRACTION_MASK);
        assert(bits == bits_of_count(n));
        let biased = (1023 + p) as u64;
        assert((bits & 0x7fff_ffff_ffff_ffff) != 0 && bits >> 63 == 0 && (bits
            & 0x7fff_ffff_ffff_ffff) >> 52 == biased && (bits & 0x000f_ffff_ffff_ffff)
            | 0x0010_0000_0000_0000 == sig) by (bit_vector)
            requires
                n >> p == 1,
                p <= 52,
                s == 52 - p,
                sig == n << s,
                biased == 1023 + p,
                bits == biased << 52 | (sig & 0x000f_ffff_ffff_ffff),
        ;
        assert(sig >> s == n && sig & (((1u64 << s) - 1) as u64) == 0 && (1u64 << s) >= 1) by (bit_vector)
            requires
                n >> p == 1,
                p <= 52,
                s == 52 - p,
                sig == n << s,
        ;
        lemma2_to64();
        lemma2_to64_rest();
        if p == 52 {
            assert(sig == n) by (bit_vector)
                requires
                    sig == n << s,
                    s == 0,
            ;
            assert(sig as nat * pow2(0) == n);
        } else {
            lemma_pow2_strictly_increases(s as nat, 53);
            lemma_pow2_pos(s as nat);
            lemma_u64_shl_is_mul(1, s);
            lemma_u64_shr_is_div(sig, s);
            lemma_u64_low_bits_mask_is_mod(sig, s as nat);
        }
    }
}

impl View for Number {
    type V = u64;

    open spec fn view(&self) -> u64 {
        self.bits
    }
}

impl Number {
    /// The number with these bits.
    pub fn from_bits(bits: u64) -> (r: Number)
        ensures
            r@ == bits,
    {
        Number { bits }
    }

    /// The bits of the number.
    pub fn to_bits(&self) -> (r: u64)
        ensures
            r == self@,
    {
        self.bits
    }

    /// Whether the number is a NaN.
    pub fn is_nan(&self) -> (r: bool)
        ensures
            r == is_nan(self@),
    {
        (self.bits & MAGNITUDE_MASK) > INFINITY_BITS
    }

    /// `self == other` on the values.
    pub fn equals(&self, other: &Number) -> (r: bool)
        ensures
            r == number_eq(self@, other@),
    {
        !self.is_nan() && !other.is_nan() && (self.bits == other.bits || ((self.bits
            & MAGNITUDE_MASK) == 0 && (other.bits & MAGNITUDE_MASK) == 0))
    }

    /// `self < other` on the values.
    pub fn less_than(&self, other: &Number) -> (r: bool)
        ensures
            r == number_lt(self@, other@),
    {
        if self.is_nan() || other.is_nan() {
            return false;
        }
        let a: u64 = self.bits & MAGNITUDE_MASK;
        let b: u64 = other.bits & MAGNITUDE_MASK;
        let a_negative: bool = self.bits >> 63 != 0;
        let b_negative: bool = other.bits >> 63 != 0;
        if a_negative {
            if b_negative {
                b < a
            } else {
                a != 0 || b != 0
            }
        } else {
            if b_negative {
                false
            } else {
                a < b
            }
        }
    }

    /// `self <= other` on the values.
    pub fn less_or_equal(&self, other: &Number) -> (r: bool)
        ensures
            r == number_le(self@, other@),
    {
        if self.is_nan() || other.is_nan() {
            return false;
        }
        let a: u64 = self.bits & MAGNITUDE_MASK;
        let b: u64 = other.bits & MAGNITUDE_MASK;
        let a_negative: bool = self.bits >> 63 != 0;
        let b_negative: bool = other.bits >> 63 != 0;
        if a_negative {
            if b_negative {
                b <= a
            } else {
                true
            }
        } else {
            if b_negative {
                a == 0 && b == 0
            } else {
                a <= b
            }
        }
    }

    /// The number as a count or an index.
    pub fn as_whole(&self) -> (r: Whole)
        ensures
            r == whole_of(self@),
    {
        let bits: u64 = self.bits;
        let mag: u64 = bits & MAGNITUDE_MASK;
        if mag == 0 {
            return Whole::Exact(0);
        }
        if bits >> 63 != 0 {
            return Whole::NotWhole;
        }
        let e: u64 = mag >> 52;
        if e < 1023 || e == 2047 {
            return Whole::NotWhole;
        }
        let sig: u64 = (bits & FRACTION_MASK) | HIDDEN_BIT;
        assert(HIDDEN_BIT <= sig < 2 * HIDDEN_BIT) by (bit_vector)
            requires
                sig == (bits & FRACTION_MASK) | HIDDEN_BIT,
        ;
        assert(e <= 2047) by (bit_vector)
            requires
                e == (bits & MAGNITUDE_MASK) >> 52,
        ;
        proof {
            lemma2_to64();
            lemma2_to64_rest();
        }
        if e >= 1075 {
            let shift: u64 = e - 1075;
            if shift > 11 {
                proof {
                    if shift > 12 {
                        lemma_pow2_strictly_increases(12, shift as nat);
                    }
                    assert(sig as nat * pow2(shift as nat) > u64::MAX) by (nonlinear_arith)
                        requires
                            sig >= 0x0010_0000_0000_0000,
                            pow2(shift as nat) >= 0x1000,
                    ;
                }
                Whole::Huge
            } else {
                proof {
                    if shift < 11 {
                        lemma_pow2_strictly_increases(shift as nat, 11);
                    }
                    lemma_pow2_pos(shift as nat);
                    assert(sig as nat * pow2(shift as nat) <= u64::MAX) by (nonlinear_arith)
                        requires
                            sig < 0x0020_0000_0000_0000,
                            0 < pow2(shift as nat) <= 0x800,
                    ;
                    lemma_u64_shl_is_mul(sig, shift);
                }
                Whole::Exact(sig << shift)
            }
        } else {
            let shift: u64 = 1075 - e;
            assert((1u64 << shift) >= 1) by (bit_vector)
                requires
                    0 < shift <= 52,
            ;
            let mask: u64 = (1u64 << shift) - 1;
            let low: u64 = sig & mask;
            proof {
                lemma_pow2_strictly_increases(shift as nat, 53);
                lemma_pow2_pos(shift as nat);
                lemma_u64_shl_is_mul(1, shift);
                lemma_u64_shr_is_div(sig, shift);
                lemma_u64_low_bits_mask_is_mod(sig, shift as nat);
            }
            if low != 0 {
                Whole::NotWhole
            } else {
                Whole::Exact(sig >> shift)
            }
        }
    }

    /// The number that stands for a count of `n` things.
    pub fn from_count(n: u64) -> (r: Number)
        ensures
            r@ == bits_of_count(n),
    {
        if n == 0 {
            return Number { bits: 0 };
        }
        let mut p: u64 = 0;
        let mut rest: u64 = n;
        assert(u64::MAX >> 0u64 == u64::MAX) by (bit_vector);
        while rest >= 2
            invariant
                rest >= 1,
                p + top_bit(rest) == top_bit(n),
                p <= 63,
                rest <= u64::MAX >> p,
            decreases rest,
        {
            assert((rest / 2) <= u64::MAX >> ((p + 1) as u64)) by (bit_vector)
                requires
                    rest <= u64::MAX >> p,
                    p <= 63,
            ;
            assert(p < 63) by (bit_vector)
                requires
                    rest <= u64::MAX >> p,
                    rest >= 2,
                    p <= 63,
            ;
            rest = rest / 2;
            p = p + 1;
        }
        assert(top_bit(rest) == 0);
        if p <= 52 {
            Number { bits: ((1023 + p) << 52) | ((n << (52 - p)) & FRACTION_MASK) }
        } else {
            let cut: u64 = p - 52;
            assert((1u64 << cut) >= 1) by (bit_vector)
                requires
                    0 < cut <= 11,
            ;
            let kept: u64 = n >> cut;
            let lost: u64 = n & ((1u64 << cut) - 1);
            let half: u64 = 1u64 << (cut - 1);
            let up: u64 = if lost > half || (lost == half && kept & 1 == 1) {
                1
            } else {
                0
            };
            let biased: u64 = 1023 + p;
            let high: u64 = biased << 52;
            let low: u64 = kept & FRACTION_MASK;
            assert(high <= 0x43e0_0000_0000_0000) by (bit_vector)
                requires
                    high == biased << 52,
                    biased <= 1086,
            ;
            assert(low <= 0x000f_ffff_ffff_ffff) by (bit_vector)
                requires
                    low == kept & 0x000f_ffff_ffff_ffff,
            ;
            Number { bits: high + low + up }
        }
    }
}

} // verus!
