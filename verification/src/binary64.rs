//! IEEE 754 binary64 values as 64-bit words.
//!
//! A word has one sign bit, eleven exponent bits and fifty-two fraction bits.
//! The predicates below are defined on those three fields; the executable
//! tests compute them with one or two comparisons on the whole word.

use vstd::prelude::*;

verus! {

/// The word of `1.0`.
pub const ONE: u64 = 0x3ff0_0000_0000_0000;

/// The word of `+0.0`.
pub const ZERO: u64 = 0;

/// The sign bit of the word is set.
pub open spec fn sign_set(w: u64) -> bool {
    w & 0x8000_0000_0000_0000 != 0
}

/// The eleven exponent bits of the word.
pub open spec fn exponent_field(w: u64) -> u64 {
    (w >> 52) & 0x7ff
}

/// The fifty-two fraction bits of the word.
pub open spec fn fraction_field(w: u64) -> u64 {
    w & 0x000f_ffff_ffff_ffff
}

/// The word encodes a NaN: all exponent bits set, some fraction bit set.
pub open spec fn nan(w: u64) -> bool {
    exponent_field(w) == 0x7ff && fraction_field(w) != 0
}

/// The word encodes `+0.0` or `-0.0`.
pub open spec fn zero(w: u64) -> bool {
    exponent_field(w) == 0 && fraction_field(w) == 0
}

/// The value that the word encodes compares greater than zero: it is not a
/// NaN, not a zero, and its sign is clear. Positive infinity and the positive
/// subnormals are positive.
pub open spec fn positive(w: u64) -> bool {
    !sign_set(w) && !nan(w) && !zero(w)
}

/// The two words encode the same real: they are equal, or both are zeros,
/// or both are NaNs. Comparison and arithmetic on the encoded values do not
/// tell the words of such a pair apart.
pub open spec fn same_real(a: u64, b: u64) -> bool {
    a == b || (zero(a) && zero(b)) || (nan(a) && nan(b))
}

/// The zeros are the two words with no bit set below the sign bit.
pub proof fn lemma_zero_words(w: u64)
    ensures
        zero(w) <==> (w == 0 || w == 0x8000_0000_0000_0000),
        zero(w) <==> w & 0x7fff_ffff_ffff_ffff == 0,
{
    assert((((w >> 52) & 0x7ff) == 0 && w & 0x000f_ffff_ffff_ffff == 0) == (w == 0 || w
        == 0x8000_0000_0000_0000)) by (bit_vector);
    assert((w == 0 || w == 0x8000_0000_0000_0000) == (w & 0x7fff_ffff_ffff_ffff == 0))
        by (bit_vector);
}

/// The NaNs are the words that, without their sign bit, lie above the word
/// of infinity.
pub proof fn lemma_nan_words(w: u64)
    ensures
        nan(w) <==> w & 0x7fff_ffff_ffff_ffff > 0x7ff0_0000_0000_0000,
{
    assert((((w >> 52) & 0x7ff) == 0x7ff && w & 0x000f_ffff_ffff_ffff != 0) == (w
        & 0x7fff_ffff_ffff_ffff > 0x7ff0_0000_0000_0000)) by (bit_vector);
}

/// The positive words are those from the smallest subnormal up to positive
/// infinity: as unsigned integers they are ordered as the values they encode.
pub proof fn lemma_positive_words(w: u64)
    ensures
        positive(w) <==> 0 < w <= 0x7ff0_0000_0000_0000,
{
    assert((!(w & 0x8000_0000_0000_0000 != 0) && !(((w >> 52) & 0x7ff) == 0x7ff && w
        & 0x000f_ffff_ffff_ffff != 0) && !(((w >> 52) & 0x7ff) == 0 && w & 0x000f_ffff_ffff_ffff
        == 0)) == (0 < w && w <= 0x7ff0_0000_0000_0000)) by (bit_vector);
}

/// Tells whether the word encodes a zero of either sign.
pub fn is_zero(w: u64) -> (r: bool)
    ensures
        r == zero(w),
{
    proof {
        lemma_zero_words(w);
    }
    w & 0x7fff_ffff_ffff_ffff == 0
}

/// Tells whether the word encodes a NaN.
pub fn is_nan(w: u64) -> (r: bool)
    ensures
        r == nan(w),
{
    proof {
        lemma_nan_words(w);
    }
    w & 0x7fff_ffff_ffff_ffff > 0x7ff0_0000_0000_0000
}

/// Tells whether the value that the word encodes is greater than zero.
pub fn is_positive(w: u64) -> (r: bool)
    ensures
        r == positive(w),
{
    proof {
        lemma_positive_words(w);
    }
    0 < w && w <= 0x7ff0_0000_0000_0000
}

/// A complex number as the words of its real and imaginary parts.
#[derive(Clone, Copy, Debug, PartialEq, Eq, Structural, Hash)]
pub struct ComplexWord {
    pub re: u64,
    pub im: u64,
}

impl ComplexWord {
    /// The words of `1 + 0j`.
    pub open spec fn unit_spec() -> ComplexWord {
        ComplexWord { re: ONE, im: ZERO }
    }

    /// The words of `0 + 0j`.
    pub open spec fn zero_spec() -> ComplexWord {
        ComplexWord { re: ZERO, im: ZERO }
    }

    /// The two pairs encode the same complex number: the same real part and
    /// the same imaginary part, up to the sign of a zero and the payload of
    /// a NaN.
    pub open spec fn same_number(self, other: ComplexWord) -> bool {
        same_real(self.re, other.re) && same_real(self.im, other.im)
    }

    /// Pairs the words of a real and an imaginary part.
    pub fn new(re: u64, im: u64) -> (r: ComplexWord)
        ensures
            r.re == re,
            r.im == im,
    {
        ComplexWord { re, im }
    }

    /// The words of `1 + 0j`, the weight of an element that has been given none.
    pub fn unit() -> (r: ComplexWord)
        ensures
            r == Self::unit_spec(),
            exponent_field(r.re) == 1023,
            fraction_field(r.re) == 0,
            !sign_set(r.re),
            r.im == 0,
    {
        assert((0x3ff0_0000_0000_0000u64 >> 52) & 0x7ff == 1023) by (bit_vector);
        assert(0x3ff0_0000_0000_0000u64 & 0x000f_ffff_ffff_ffff == 0) by (bit_vector);
        assert(0x3ff0_0000_0000_0000u64 & 0x8000_0000_0000_0000 == 0) by (bit_vector);
        ComplexWord { re: ONE, im: ZERO }
    }

    /// The words of `0 + 0j`, the sum of no terms.
    pub fn zero() -> (r: ComplexWord)
        ensures
            r == Self::zero_spec(),
            r.re == 0,
            r.im == 0,
    {
        ComplexWord { re: ZERO, im: ZERO }
    }
}

} // verus!
