//! The number that a scalar stands for.
//!
//! The magnitude of a scalar is a whole number of units of 2⁻¹⁴⁹, the least
//! positive number that 32 bits can hold. With that, what it means to be below
//! zero, or to be the nearest scalar to a fraction, is a statement about
//! integers.

use vstd::prelude::*;
use vstd::arithmetic::power2::lemma_pow2_pos;
use vstd::arithmetic::power2::lemma_pow2_unfold;
use vstd::arithmetic::power2::pow2;
use crate::scalar::Scalar;
use crate::scalar::INFINITY_BITS;

verus! {

/// The exponent of the unit: a magnitude of one unit is 2⁻¹⁴⁹.
pub const UNIT_EXPONENT: u32 = 149;

/// The hidden bit of a normal number: 2²³.
pub const HIDDEN_BIT: u32 = 0x0080_0000;

impl Scalar {
    /// The exponent field: bits 30 to 23.
    pub open spec fn exponent_field(self) -> nat {
        (self.magnitude() / (HIDDEN_BIT as int)) as nat
    }

    /// The fraction field: bits 22 to 0.
    pub open spec fn fraction(self) -> nat {
        (self.magnitude() % (HIDDEN_BIT as int)) as nat
    }

    /// The significand as a whole number: the fraction, and for a normal number
    /// the hidden bit above it.
    pub open spec fn significand(self) -> nat {
        if self.exponent_field() == 0 {
            self.fraction()
        } else {
            HIDDEN_BIT as nat + self.fraction()
        }
    }

    /// The power of two by which the significand is scaled to give the
    /// magnitude in units.
    pub open spec fn scale(self) -> nat {
        if self.exponent_field() == 0 {
            0
        } else {
            (self.exponent_field() - 1) as nat
        }
    }

    /// The magnitude in units of 2⁻¹⁴⁹. An infinity counts as 2¹²⁸, the next
    /// power of two above every number.
    pub open spec fn units(self) -> nat {
        self.significand() * pow2(self.scale())
    }

    /// Whether the scalar is `num / den` rounded to the nearest number, and to
    /// the one with an even pattern where two are equally near: the fraction
    /// lies between the midpoints to the neighbours below and above. What lies
    /// at or beyond the midpoint between the greatest number and 2¹²⁸ rounds to
    /// infinity.
    pub open spec fn rounds(self, num: nat, den: nat) -> bool
        recommends
            den > 0,
    {
        let below = Scalar { bits: (self.bits - 1) as u32 };
        let above = Scalar { bits: (self.bits + 1) as u32 };
        let even = self.bits % 2 == 0;
        let twice = 2 * num * pow2(UNIT_EXPONENT as nat);
        let low = (below.units() + self.units()) * den;
        let high = (self.units() + above.units()) * den;
        &&& self.bits <= INFINITY_BITS
        &&& self.bits > 0 ==> low < twice || (low == twice && even)
        &&& self.bits < INFINITY_BITS ==> twice < high || (twice == high && even)
    }

    /// A scalar is below zero exactly when it is a number with the sign set
    /// and a magnitude of at least one unit; it is zero or below exactly when
    /// it is a number that has the sign set or no magnitude.
    pub proof fn lemma_sign_of_number(self)
        ensures
            self.is_negative() <==> !self.is_nan() && self.sign() && self.units() > 0,
            self.is_non_positive() <==> !self.is_nan() && (self.sign() || self.units() == 0),
            self.is_zero() <==> self.units() == 0,
    {
        lemma_pow2_pos(self.scale());
        assert(self.significand() == 0 <==> self.magnitude() == 0);
        assert(self.units() == 0 <==> self.significand() == 0) by (nonlinear_arith)
            requires
                self.units() == self.significand() * pow2(self.scale()),
                pow2(self.scale()) > 0,
        ;
    }

    /// From one pattern to the next the magnitude grows by one unit in the
    /// last place, also from one binade into the next and from the greatest
    /// number to infinity.
    pub proof fn lemma_next_units(self)
        requires
            self.bits < INFINITY_BITS,
        ensures
            (Scalar { bits: (self.bits + 1) as u32 }).units() == self.units() + pow2(self.scale()),
            self.scale() <= 253,
            self.significand() < 2 * HIDDEN_BIT,
    {
        let next = Scalar { bits: (self.bits + 1) as u32 };
        let p = pow2(self.scale());
        if self.fraction() + 1 < HIDDEN_BIT {
            assert(next.exponent_field() == self.exponent_field());
            assert(next.fraction() == self.fraction() + 1);
            assert((self.significand() + 1) * p == self.significand() * p + p)
                by (nonlinear_arith);
        } else {
            assert(next.exponent_field() == self.exponent_field() + 1);
            assert(next.fraction() == 0);
            if self.exponent_field() == 0 {
                assert(next.scale() == 0);
                assert((self.significand() + 1) * p == self.significand() * p + p)
                    by (nonlinear_arith);
            } else {
                lemma_pow2_unfold(next.scale());
                assert(HIDDEN_BIT * (2 * p) == (self.significand() + 1) * p) by (nonlinear_arith)
                    requires
                        self.significand() + 1 == 2 * HIDDEN_BIT,
                ;
                assert((self.significand() + 1) * p == self.significand() * p + p)
                    by (nonlinear_arith);
            }
        }
    }
}

/// A normal number that is not the least of its binade rounds `num / den` when
/// the fraction lies between the midpoints that its significand gives: half a
/// unit in the last place to either side.
pub proof fn lemma_rounds_within_binade(s: Scalar, num: nat, den: nat)
    requires
        0 < s.exponent_field() < 255,
        0 < s.fraction(),
        !s.sign(),
        ({
            let low = (2 * s.significand() - 1) * pow2(s.scale()) * den;
            let high = (2 * s.significand() + 1) * pow2(s.scale()) * den;
            let twice = 2 * num * pow2(UNIT_EXPONENT as nat);
            let even = s.bits % 2 == 0;
            &&& low < twice || (low == twice && even)
            &&& twice < high || (twice == high && even)
        }),
    ensures
        s.rounds(num, den),
{
    let below = Scalar { bits: (s.bits - 1) as u32 };
    let above = Scalar { bits: (s.bits + 1) as u32 };
    let p = pow2(s.scale());
    assert(below.exponent_field() == s.exponent_field());
    assert(below.fraction() + 1 == s.fraction());
    below.lemma_next_units();
    s.lemma_next_units();
    assert((below.units() + s.units()) * den == (2 * s.significand() - 1) * p * den)
        by (nonlinear_arith)
        requires
            s.units() == s.significand() * p,
            s.units() == below.units() + p,
    ;
    assert((s.units() + above.units()) * den == (2 * s.significand() + 1) * p * den)
        by (nonlinear_arith)
        requires
            s.units() == s.significand() * p,
            above.units() == s.units() + p,
    ;
}

/// The magnitude grows with the pattern: a greater pattern below the
/// not-a-number patterns stands for a greater magnitude.
pub proof fn lemma_units_increase(a: Scalar, b: Scalar)
    requires
        a.bits < b.bits <= INFINITY_BITS,
    ensures
        a.units() < b.units(),
        (Scalar { bits: (a.bits + 1) as u32 }).units() <= b.units(),
    decreases b.bits - a.bits,
{
    let next = Scalar { bits: (a.bits + 1) as u32 };
    a.lemma_next_units();
    lemma_pow2_pos(a.scale());
    if next.bits < b.bits {
        lemma_units_increase(next, b);
    }
}

/// No fraction rounds to two scalars.
pub proof fn lemma_rounds_to_one(a: Scalar, b: Scalar, num: nat, den: nat)
    requires
        den > 0,
        a.rounds(num, den),
        b.rounds(num, den),
    ensures
        a == b,
{
    if a.bits < b.bits {
        lemma_rounds_apart(a, b, num, den);
    } else if b.bits < a.bits {
        lemma_rounds_apart(b, a, num, den);
    }
}

/// Of two scalars, the lesser and the greater do not both round one fraction:
/// the midpoint above the lesser is not beyond the midpoint below the
/// greater, and where the two midpoints are one, only one of the two scalars
/// has an even pattern.
proof fn lemma_rounds_apart(a: Scalar, b: Scalar, num: nat, den: nat)
    requires
        den > 0,
        a.bits < b.bits,
    ensures
        !(a.rounds(num, den) && b.rounds(num, den)),
{
    let above = Scalar { bits: (a.bits + 1) as u32 };
    let below = Scalar { bits: (b.bits - 1) as u32 };
    let high = (a.units() + above.units()) * den;
    let low = (below.units() + b.units()) * den;
    if b.bits <= INFINITY_BITS {
        lemma_units_increase(a, b);
        if a.bits + 1 < b.bits {
            lemma_units_increase(a, below);
            lemma_units_increase(above, b);
            assert(high < low) by (nonlinear_arith)
                requires
                    high == (a.units() + above.units()) * den,
                    low == (below.units() + b.units()) * den,
                    a.units() < below.units(),
                    above.units() < b.units(),
                    den > 0,
            ;
        } else {
            assert(above == b && below == a);
            assert(high == low);
        }
    }
}

/// The pattern made of the scale `e` and a significand `q` with the hidden
/// bit stands for `q` at that scale.
pub proof fn lemma_composed(e: nat, q: nat)
    requires
        e <= 253,
        HIDDEN_BIT <= q < 2 * HIDDEN_BIT,
    ensures
        ({
            let s = Scalar { bits: (e * HIDDEN_BIT + q) as u32 };
            &&& s.bits == e * HIDDEN_BIT + q
            &&& s.bits < INFINITY_BITS
            &&& s.significand() == q
            &&& s.scale() == e
            &&& s.units() == q * pow2(e)
        }),
{
    let s = Scalar { bits: (e * HIDDEN_BIT + q) as u32 };
    assert(e * HIDDEN_BIT + q == (e + 1) * HIDDEN_BIT + (q - HIDDEN_BIT)) by (nonlinear_arith);
    assert(s.exponent_field() == e + 1 && s.fraction() == q - HIDDEN_BIT) by {
        let m = s.magnitude();
        assert(m == (e + 1) * 0x80_0000 + (q - 0x80_0000));
    }
}

} // verus!
