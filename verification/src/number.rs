//! Real numbers, carried as IEEE-754 binary64 patterns.
//!
//! The library never computes with a real number: sums, products and quotients
//! come from the arithmetic that the caller supplies. What it does decide itself
//! is settled by the pattern alone: whether a number is below zero, and which of
//! two numbers comes first in the IEEE-754 total order.
use vstd::prelude::*;

verus! {

/// Weight of the sign bit, 2^63.
pub const SIGN_WEIGHT: u64 = 0x8000_0000_0000_0000;

/// Weight of the lowest exponent bit, 2^52; the fraction lies below it.
pub const EXPONENT_WEIGHT: u64 = 0x0010_0000_0000_0000;

/// Pattern of positive infinity: every exponent bit set, the fraction clear.
pub const INFINITY: u64 = 0x7ff0_0000_0000_0000;

/// Pattern of 0.
pub const ZERO: u64 = 0;

/// Pattern of 2.
pub const TWO: u64 = 0x4000_0000_0000_0000;

/// Pattern of 4.
pub const FOUR: u64 = 0x4010_0000_0000_0000;

/// Pattern of 6.
pub const SIX: u64 = 0x4018_0000_0000_0000;

/// Pattern of -1.
pub const MINUS_ONE: u64 = 0xbff0_0000_0000_0000;

/// Pattern of the binary64 number nearest to the circle constant pi.
pub const PI: u64 = 0x4009_21fb_5444_2d18;

/// A real number in binary64 encoding: one sign bit, eleven exponent bits and
/// fifty-two fraction bits, from the highest bit down.
#[derive(Clone, Copy, Debug, PartialEq, Eq, Structural)]
pub struct Real {
    pub bits: u64,
}

impl Real {
    /// The sign bit: 1 for a pattern with the minus sign.
    pub open spec fn sign(self) -> int {
        self.bits as int / SIGN_WEIGHT as int
    }

    /// The biased exponent, from 0 to 2047.
    pub open spec fn exponent(self) -> int {
        (self.bits as int / EXPONENT_WEIGHT as int) % 2048
    }

    /// The fraction, below 2^52.
    pub open spec fn fraction(self) -> int {
        self.bits as int % EXPONENT_WEIGHT as int
    }

    /// Not a number: the exponent is all ones and the fraction is not zero.
    pub open spec fn spec_is_nan(self) -> bool {
        self.exponent() == 2047 && self.fraction() != 0
    }

    /// Zero of either sign.
    pub open spec fn is_zero(self) -> bool {
        self.exponent() == 0 && self.fraction() == 0
    }

    /// `self < 0`: a number with the minus sign that is not zero.
    pub open spec fn spec_below_zero(self) -> bool {
        self.sign() == 1 && !self.spec_is_nan() && !self.is_zero()
    }

    /// `self >= 0`: a number that is zero or has the plus sign.
    pub open spec fn spec_at_least_zero(self) -> bool {
        !self.spec_is_nan() && (self.sign() == 0 || self.is_zero())
    }

    /// The pattern with the sign bit cleared.
    pub open spec fn spec_abs(self) -> Real {
        Real { bits: (self.bits as int % SIGN_WEIGHT as int) as u64 }
    }

    /// Rank in the IEEE-754 total order: patterns with the minus sign come
    /// first, the larger pattern earlier; then those with the plus sign, the
    /// larger pattern later.
    pub open spec fn spec_total_key(self) -> u64 {
        if self.sign() == 0 {
            (self.bits + SIGN_WEIGHT) as u64
        } else {
            (u64::MAX - self.bits) as u64
        }
    }

    /// The number with the given pattern.
    pub fn from_bits(bits: u64) -> (r: Real)
        ensures
            r.bits == bits,
    {
        Real { bits }
    }

    /// The pattern of this number.
    pub fn to_bits(self) -> (bits: u64)
        ensures
            bits == self.bits,
    {
        self.bits
    }

    /// Whether this is not a number.
    #[verifier::when_used_as_spec(spec_is_nan)]
    pub fn is_nan(self) -> (r: bool)
        ensures
            r == self.spec_is_nan(),
    {
        let b: u64 = self.bits;
        assert((b & 0x7fff_ffff_ffff_ffff) > 0x7ff0_0000_0000_0000 <==> (b / 0x0010_0000_0000_0000)
            % 2048 == 2047 && b % 0x0010_0000_0000_0000 != 0) by (bit_vector);
        (b & 0x7fff_ffff_ffff_ffff) > INFINITY
    }

    /// Whether this number is below zero. Zero of either sign is not, and
    /// neither is what is not a number.
    #[verifier::when_used_as_spec(spec_below_zero)]
    pub fn below_zero(self) -> (r: bool)
        ensures
            r == self.spec_below_zero(),
    {
        let b: u64 = self.bits;
        assert(0x8000_0000_0000_0000 < b && b <= 0xfff0_0000_0000_0000 <==> b
            / 0x8000_0000_0000_0000 == 1 && !((b / 0x0010_0000_0000_0000) % 2048 == 2047 && b
            % 0x0010_0000_0000_0000 != 0) && !((b / 0x0010_0000_0000_0000) % 2048 == 0 && b
            % 0x0010_0000_0000_0000 == 0)) by (bit_vector);
        SIGN_WEIGHT < b && b <= 0xfff0_0000_0000_0000
    }

    /// Whether this number is zero or above. What is not a number is not.
    #[verifier::when_used_as_spec(spec_at_least_zero)]
    pub fn at_least_zero(self) -> (r: bool)
        ensures
            r == self.spec_at_least_zero(),
    {
        let b: u64 = self.bits;
        assert(b <= 0x7ff0_0000_0000_0000 || b == 0x8000_0000_0000_0000 <==> !((b
            / 0x0010_0000_0000_0000) % 2048 == 2047 && b % 0x0010_0000_0000_0000 != 0) && (b
            / 0x8000_0000_0000_0000 == 0 || ((b / 0x0010_0000_0000_0000) % 2048 == 0 && b
            % 0x0010_0000_0000_0000 == 0))) by (bit_vector);
        b <= INFINITY || b == SIGN_WEIGHT
    }

    /// The absolute value: the same number with the plus sign.
    #[verifier::when_used_as_spec(spec_abs)]
    pub fn abs(self) -> (r: Real)
        ensures
            r == self.spec_abs(),
    {
        let b: u64 = self.bits;
        assert(b & 0x7fff_ffff_ffff_ffff == b % 0x8000_0000_0000_0000) by (bit_vector);
        Real { bits: b & 0x7fff_ffff_ffff_ffff }
    }

    /// The rank of this number in the IEEE-754 total order, in which every
    /// pattern has a place: `a` comes before `b` exactly if the key of `a` is
    /// the smaller one.
    #[verifier::when_used_as_spec(spec_total_key)]
    pub fn total_key(self) -> (key: u64)
        ensures
            key == self.spec_total_key(),
    {
        let b: u64 = self.bits;
        assert(b < 0x8000_0000_0000_0000 <==> b / 0x8000_0000_0000_0000 == 0) by (bit_vector);
        if b < SIGN_WEIGHT {
            b + SIGN_WEIGHT
        } else {
            u64::MAX - b
        }
    }
}

/// Every pattern is of exactly one kind: not a number, a number below zero, or
/// a number that is zero or above.
pub proof fn lemma_one_kind(x: Real)
    ensures
        x.is_nan() || x.below_zero() || x.at_least_zero(),
        !(x.is_nan() && x.below_zero()),
        !(x.is_nan() && x.at_least_zero()),
        !(x.below_zero() && x.at_least_zero()),
{
}

/// The total order gives every pattern a place of its own: two numbers of
/// equal rank are the same pattern.
pub proof fn lemma_rank_tells_apart(a: Real, b: Real)
    requires
        a.total_key() == b.total_key(),
    ensures
        a == b,
{
}

} // verus!
