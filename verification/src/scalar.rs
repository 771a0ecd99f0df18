//! 32-bit floating-point numbers as bit patterns.

use vstd::prelude::*;
use crate::layout::word_image;
use crate::layout::word_at;
use crate::layout::put_word;
use crate::layout::get_word;
use crate::layout::lemma_word_round_trip;

verus! {

/// Bit pattern of `0.0`.
pub const ZERO_BITS: u32 = 0x0000_0000;

/// Bit pattern of `1.0`.
pub const ONE_BITS: u32 = 0x3F80_0000;

/// The sign bit of a binary32 number; every pattern at or above it has the sign set.
pub const SIGN_BIT: u32 = 0x8000_0000;

/// Bit pattern of positive infinity; a larger magnitude is not a number.
pub const INFINITY_BITS: u32 = 0x7F80_0000;

/// Size of a scalar in a buffer, in bytes.
pub const SCALAR_SIZE: usize = 4;

/// Alignment of a scalar in a buffer, in bytes.
pub const SCALAR_ALIGN: usize = 4;

/// An IEEE-754 binary32 number, held as its bit pattern.
///
/// Bit 31 is the sign, bits 30 to 23 the biased exponent, bits 22 to 0 the
/// fraction. Two scalars are equal when their bits are equal: a negative zero
/// differs from a positive one, and a not-a-number pattern equals itself.
#[derive(Clone, Copy, Debug, PartialEq, Eq, Structural)]
pub struct Scalar {
    pub bits: u32,
}

impl Scalar {
    /// Whether the sign bit is set.
    pub open spec fn sign(self) -> bool {
        self.bits >= SIGN_BIT
    }

    /// The pattern with the sign bit cleared.
    pub open spec fn magnitude(self) -> int {
        if self.bits >= SIGN_BIT {
            self.bits - SIGN_BIT
        } else {
            self.bits as int
        }
    }

    /// Whether the pattern encodes no number.
    pub open spec fn is_nan(self) -> bool {
        self.magnitude() > INFINITY_BITS
    }

    /// Whether the pattern encodes positive or negative zero.
    pub open spec fn is_zero(self) -> bool {
        self.magnitude() == 0
    }

    /// Whether the number is less than zero: the sign is set, and the pattern is
    /// neither a zero nor not-a-number.
    pub open spec fn is_negative(self) -> bool {
        self.sign() && !self.is_zero() && !self.is_nan()
    }

    /// Whether the number is zero or less than zero.
    pub open spec fn is_non_positive(self) -> bool {
        self.is_zero() || self.is_negative()
    }

    /// The byte image: the bit pattern as one word.
    #[verifier::opaque]
    pub open spec fn image(self) -> Seq<u8> {
        word_image(self.bits)
    }

    /// The scalar whose image starts at `at`.
    #[verifier::opaque]
    pub open spec fn at(bytes: Seq<u8>, at: int) -> Scalar {
        Scalar { bits: word_at(bytes, at) }
    }

    /// The image is one word long, and reading it back gives the scalar,
    /// wherever the image stands.
    pub proof fn lemma_image(self, before: Seq<u8>, after: Seq<u8>)
        ensures
            self.image().len() == SCALAR_SIZE,
            Scalar::at(before + self.image() + after, before.len() as int) == self,
    {
        reveal(Scalar::image);
        reveal(Scalar::at);
        lemma_word_round_trip(before, self.bits, after);
    }

    /// Appends the image of the scalar.
    pub fn put(&self, out: &mut Vec<u8>)
        ensures
            final(out)@ == old(out)@ + self.image(),
    {
        proof {
            reveal(Scalar::image);
        }
        put_word(out, self.bits);
    }

    /// Reads the scalar whose image starts at `at`.
    pub fn get(bytes: &[u8], at: usize) -> (r: Self)
        requires
            at + SCALAR_SIZE <= bytes.len(),
        ensures
            r == Scalar::at(bytes@, at as int),
    {
        proof {
            reveal(Scalar::at);
        }
        Scalar { bits: get_word(bytes, at) }
    }

    /// The scalar with the given bit pattern.
    pub fn from_bits(bits: u32) -> (r: Self)
        ensures
            r.bits == bits,
    {
        Scalar { bits }
    }

    /// The bit pattern of the scalar.
    pub fn to_bits(self) -> (r: u32)
        ensures
            r == self.bits,
    {
        self.bits
    }

    /// Positive zero.
    pub fn zero() -> (r: Self)
        ensures
            r.bits == ZERO_BITS,
    {
        Scalar { bits: ZERO_BITS }
    }

    /// The number one.
    pub fn one() -> (r: Self)
        ensures
            r.bits == ONE_BITS,
    {
        Scalar { bits: ONE_BITS }
    }

    fn magnitude_bits(self) -> (r: u32)
        ensures
            r == self.magnitude(),
    {
        if self.bits >= SIGN_BIT {
            self.bits - SIGN_BIT
        } else {
            self.bits
        }
    }

    /// Tells whether the number is less than zero.
    pub fn negative(self) -> (r: bool)
        ensures
            r == self.is_negative(),
    {
        let m: u32 = self.magnitude_bits();
        self.bits >= SIGN_BIT && m != 0 && m <= INFINITY_BITS
    }

    /// Tells whether the number is zero or less than zero.
    pub fn non_positive(self) -> (r: bool)
        ensures
            r == self.is_non_positive(),
    {
        let m: u32 = self.magnitude_bits();
        m == 0 || (self.bits >= SIGN_BIT && m <= INFINITY_BITS)
    }
}

impl Default for Scalar {
    /// Positive zero.
    fn default() -> (r: Self)
        ensures
            r.bits == ZERO_BITS,
    {
        Scalar::zero()
    }
}

} // verus!
