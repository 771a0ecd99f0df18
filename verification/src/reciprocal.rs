//! The reciprocal of a scalar, computed in whole numbers.
//!
//! The reciprocal of a number of `u` units is 2²⁹⁸ units divided by `u`. The
//! division is done once, on the significand, and rounded once: to the nearest
//! whole number, and to the even one where two are equally near.

use vstd::prelude::*;
use vstd::arithmetic::div_mod::lemma_fundamental_div_mod;
use vstd::arithmetic::power2::lemma2_to64;
use vstd::arithmetic::power2::lemma2_to64_rest;
use vstd::arithmetic::power2::lemma_pow2_adds;
use vstd::arithmetic::power2::lemma_pow2_pos;
use vstd::arithmetic::power2::lemma_pow2_strictly_increases;
use vstd::arithmetic::power2::lemma_pow2_unfold;
use vstd::arithmetic::power2::pow2;
use crate::number::lemma_composed;
use crate::number::lemma_rounds_to_one;
use crate::number::HIDDEN_BIT;
use crate::number::UNIT_EXPONENT;
use crate::scalar::Scalar;
use crate::scalar::INFINITY_BITS;
use crate::scalar::SIGN_BIT;
use crate::vector::Vec2;

verus! {

/// The quiet bit: the top bit of the fraction of a pattern that is no number.
pub const QUIET_BIT: u32 = 0x0040_0000;

/// Whether `q` is `n / d` rounded to the nearest whole number, and to the even
/// one where two are equally near.
pub open spec fn rounded_quotient(q: int, n: int, d: int) -> bool
    recommends
        d > 0,
{
    &&& (2 * q - 1) * d <= 2 * n <= (2 * q + 1) * d
    &&& 2 * n == (2 * q - 1) * d || 2 * n == (2 * q + 1) * d ==> q % 2 == 0
}

/// `n / d`, rounded to the nearest whole number and to the even one where
/// two are equally near.
fn divide_rounded(n: u64, d: u64) -> (q: u64)
    requires
        0 < d < 0x100_0000,
        n <= 0x8000_0000_0000,
    ensures
        rounded_quotient(q as int, n as int, d as int),
{
    let floor: u64 = n / d;
    let rest: u64 = n % d;
    proof {
        lemma_fundamental_div_mod(n as int, d as int);
        assert(floor * d <= n) by (nonlinear_arith)
            requires
                n == d * floor + rest,
                rest >= 0,
        ;
        assert(floor <= n) by (nonlinear_arith)
            requires
                floor * d <= n,
                d >= 1,
                floor >= 0,
        ;
    }
    let up: bool = 2 * rest > d || (2 * rest == d && floor % 2 == 1);
    let q: u64 = if up { floor + 1 } else { floor };
    proof {
        let (qi, ni, di, fi, ri) = (q as int, n as int, d as int, floor as int, rest as int);
        assert((2 * qi - 1) * di <= 2 * ni <= (2 * qi + 1) * di) by (nonlinear_arith)
            requires
                ni == di * fi + ri,
                0 <= ri < di,
                up ==> qi == fi + 1 && 2 * ri >= di,
                !up ==> qi == fi && 2 * ri <= di,
        ;
        assert(2 * ni == (2 * qi - 1) * di ==> 2 * ri == di && up) by (nonlinear_arith)
            requires
                ni == di * fi + ri,
                0 <= ri < di,
                up ==> qi == fi + 1 && 2 * ri >= di,
                !up ==> qi == fi && 2 * ri <= di,
        ;
        assert(2 * ni == (2 * qi + 1) * di ==> 2 * ri == di && !up) by (nonlinear_arith)
            requires
                ni == di * fi + ri,
                0 <= ri < di,
                up ==> qi == fi + 1 && 2 * ri >= di,
                !up ==> qi == fi && 2 * ri <= di,
        ;
    }
    q
}

/// Twice the numerator of the reciprocal, as it stands in [`Scalar::rounds`],
/// is twice 2²⁹⁸: twice `lift * n`.
proof fn lemma_twice(lift: nat, n: nat)
    requires
        pow2(298) == lift * n,
    ensures
        2 * pow2(UNIT_EXPONENT as nat) * pow2(UNIT_EXPONENT as nat) == 2 * lift * n,
{
    lemma_pow2_adds(149, 149);
    let u = pow2(149);
    assert(2 * u * u == 2 * (u * u)) by (nonlinear_arith);
    assert(2 * (lift * n) == 2 * lift * n) by (nonlinear_arith);
}

/// A pattern below 2²⁴ stands for as many units as the pattern says.
proof fn lemma_small_units(s: Scalar)
    requires
        s.bits < 2 * HIDDEN_BIT,
    ensures
        s.units() == s.bits,
{
    lemma2_to64();
    assert(s.scale() == 0);
    assert(s.significand() == s.bits);
    assert(s.units() == s.significand() * 1);
}

/// The rounded quotient `q` of the significand, put at the scale `e`, is the
/// reciprocal rounded, where the pattern so made is that of a number.
///
/// `lift` is the power of two by which both sides are scaled: the magnitude of
/// the number at the scale `e` is `lift * d`, and 2²⁹⁸ is `lift * n`.
proof fn lemma_rounds_normal(e: nat, q: nat, n: nat, d: nat, units: nat, lift: nat)
    requires
        HIDDEN_BIT < q <= 2 * HIDDEN_BIT,
        e * HIDDEN_BIT + q < INFINITY_BITS,
        d > 0,
        lift > 0,
        units > 0,
        rounded_quotient(q as int, n as int, d as int),
        pow2(e) * units == lift * d,
        pow2(298) == lift * n,
    ensures
        (Scalar { bits: (e * HIDDEN_BIT + q) as u32 }).rounds(pow2(UNIT_EXPONENT as nat), units),
{
    let b = Scalar { bits: (e * HIDDEN_BIT + q) as u32 };
    let below = Scalar { bits: (b.bits - 1) as u32 };
    let above = Scalar { bits: (b.bits + 1) as u32 };
    let p = pow2(e);
    lemma_pow2_pos(e);
    lemma_twice(lift, n);
    lemma_composed(e, (q - 1) as nat);
    below.lemma_next_units();
    assert(b.units() == q * p) by (nonlinear_arith)
        requires
            b.units() == (q - 1) * p + p,
    ;
    b.lemma_next_units();
    if q < 2 * HIDDEN_BIT {
        lemma_composed(e, q);
    } else {
        lemma_composed(e + 1, HIDDEN_BIT as nat);
        lemma_pow2_unfold(e + 1);
    }
    let step = pow2(b.scale());
    assert(step >= p && (step == p || q == 2 * HIDDEN_BIT));
    let (qi, ni, di, ui, li, pi) = (q as int, n as int, d as int, units as int, lift as int, p as int);
    let twice = 2 * pow2(UNIT_EXPONENT as nat) * pow2(UNIT_EXPONENT as nat);
    let low = (below.units() + b.units()) * units;
    let high = (b.units() + above.units()) * units;
    assert(low == (2 * qi - 1) * li * di) by (nonlinear_arith)
        requires
            low == ((qi - 1) * pi + qi * pi) * ui,
            pi * ui == li * di,
    ;
    assert(high == (2 * qi) * (pi * ui) + step * ui) by (nonlinear_arith)
        requires
            high == (qi * pi + (qi * pi + step)) * ui,
    ;
    assert(step * ui >= pi * ui && (step == pi ==> step * ui == pi * ui)) by (nonlinear_arith)
        requires
            step >= pi,
            ui >= 0,
    ;
    assert((2 * qi) * (li * di) + li * di == (2 * qi + 1) * li * di) by (nonlinear_arith);
    assert(twice == 2 * li * ni);
    assert((2 * qi - 1) * li * di <= 2 * li * ni <= (2 * qi + 1) * li * di) by (nonlinear_arith)
        requires
            (2 * qi - 1) * di <= 2 * ni <= (2 * qi + 1) * di,
            li > 0,
    ;
    assert((2 * qi - 1) * li * di == 2 * li * ni ==> (2 * qi - 1) * di == 2 * ni)
        by (nonlinear_arith)
        requires
            li > 0,
    ;
    assert((2 * qi + 1) * li * di == 2 * li * ni ==> (2 * qi + 1) * di == 2 * ni)
        by (nonlinear_arith)
        requires
            li > 0,
    ;
    assert(b.bits % 2 == q % 2) by {
        assert(e * HIDDEN_BIT == 2 * (e * 0x40_0000)) by (nonlinear_arith);
    }
}

/// Where the rounded quotient at its scale is at or beyond infinity, the
/// reciprocal rounds to infinity.
proof fn lemma_rounds_infinite(e: nat, q: nat, n: nat, d: nat, units: nat, lift: nat)
    requires
        HIDDEN_BIT < q <= 2 * HIDDEN_BIT,
        e * HIDDEN_BIT + q >= INFINITY_BITS,
        d > 0,
        lift > 0,
        units > 0,
        rounded_quotient(q as int, n as int, d as int),
        pow2(e) * units == lift * d,
        pow2(298) == lift * n,
    ensures
        (Scalar { bits: INFINITY_BITS }).rounds(pow2(UNIT_EXPONENT as nat), units),
{
    let b = Scalar { bits: INFINITY_BITS };
    let below = Scalar { bits: (INFINITY_BITS - 1) as u32 };
    let top = pow2(253);
    let p = pow2(e);
    lemma_twice(lift, n);
    lemma_pow2_pos(253);
    lemma_composed(253, (2 * HIDDEN_BIT - 1) as nat);
    below.lemma_next_units();
    assert(e >= 253) by (nonlinear_arith)
        requires
            e * HIDDEN_BIT + q >= INFINITY_BITS,
            q <= 2 * HIDDEN_BIT,
            HIDDEN_BIT == 0x80_0000,
            INFINITY_BITS == 0x7F80_0000,
    ;
    if e > 253 {
        lemma_pow2_unfold(254);
        if e > 254 {
            lemma_pow2_strictly_increases(254, e);
        }
    }
    let (qi, ni, di, ui, li, pi, ti) = (
        q as int,
        n as int,
        d as int,
        units as int,
        lift as int,
        p as int,
        top as int,
    );
    let low = (below.units() + b.units()) * units;
    assert(0x1FF_FFFF * ti <= (2 * qi - 1) * pi) by (nonlinear_arith)
        requires
            ti > 0,
            (pi == ti && qi == 0x100_0000) || (pi >= 2 * ti && qi > 0x80_0000),
    ;
    assert(low <= (2 * qi - 1) * li * di) by (nonlinear_arith)
        requires
            low == ((0x100_0000 - 1) * ti + ((0x100_0000 - 1) * ti + ti)) * ui,
            0x1FF_FFFF * ti <= (2 * qi - 1) * pi,
            ui >= 0,
            pi * ui == li * di,
    ;
    assert((2 * qi - 1) * li * di <= 2 * li * ni) by (nonlinear_arith)
        requires
            (2 * qi - 1) * di <= 2 * ni,
            li > 0,
    ;
}

/// Where the reciprocal is below the least normal number, the rounded
/// quotient is itself the pattern of the reciprocal rounded.
///
/// `lift` is the power of two by which both sides are scaled: the magnitude of
/// the number is `lift * d`, and 2²⁹⁸ is `lift * n`.
proof fn lemma_rounds_subnormal(q: nat, n: nat, d: nat, units: nat, lift: nat)
    requires
        0 < q <= HIDDEN_BIT,
        d > 0,
        lift > 0,
        units > 0,
        rounded_quotient(q as int, n as int, d as int),
        units == lift * d,
        pow2(298) == lift * n,
    ensures
        (Scalar { bits: q as u32 }).rounds(pow2(UNIT_EXPONENT as nat), units),
{
    let b = Scalar { bits: q as u32 };
    let below = Scalar { bits: (b.bits - 1) as u32 };
    let above = Scalar { bits: (b.bits + 1) as u32 };
    lemma_twice(lift, n);
    lemma_small_units(b);
    lemma_small_units(below);
    lemma_small_units(above);
    let (qi, ni, di, ui, li) = (q as int, n as int, d as int, units as int, lift as int);
    let low = (below.units() + b.units()) * units;
    let high = (b.units() + above.units()) * units;
    assert(low == (2 * qi - 1) * li * di) by (nonlinear_arith)
        requires
            low == ((qi - 1) + qi) * ui,
            ui == li * di,
    ;
    assert(high == (2 * qi + 1) * li * di) by (nonlinear_arith)
        requires
            high == (qi + (qi + 1)) * ui,
            ui == li * di,
    ;
    assert((2 * qi - 1) * li * di <= 2 * li * ni <= (2 * qi + 1) * li * di) by (nonlinear_arith)
        requires
            (2 * qi - 1) * di <= 2 * ni <= (2 * qi + 1) * di,
            li > 0,
    ;
    assert((2 * qi - 1) * li * di == 2 * li * ni ==> (2 * qi - 1) * di == 2 * ni)
        by (nonlinear_arith)
        requires
            li > 0,
    ;
    assert((2 * qi + 1) * li * di == 2 * li * ni ==> (2 * qi + 1) * di == 2 * ni)
        by (nonlinear_arith)
        requires
            li > 0,
    ;
}

/// The rounded quotient of 2⁴⁷ by a significand with the hidden bit has the
/// hidden bit and something above it, and at most one bit more.
proof fn lemma_quotient_normal(q: int, d: int)
    requires
        HIDDEN_BIT <= d < 2 * HIDDEN_BIT,
        rounded_quotient(q, 0x8000_0000_0000, d),
    ensures
        HIDDEN_BIT < q <= 2 * HIDDEN_BIT,
{
    assert(q <= 0x100_0000) by (nonlinear_arith)
        requires
            (2 * q - 1) * d <= 0x1_0000_0000_0000,
            d >= 0x80_0000,
    ;
    assert(q > 0x80_0000) by (nonlinear_arith)
        requires
            0x1_0000_0000_0000 <= (2 * q + 1) * d,
            0 < d <= 0xFF_FFFF,
    ;
}

/// The rounded quotient of 2⁴⁵ or 2⁴⁶ by a significand with the hidden bit is
/// above zero and not above the hidden bit.
proof fn lemma_quotient_subnormal(q: int, n: int, d: int)
    requires
        HIDDEN_BIT <= d < 2 * HIDDEN_BIT,
        n == 0x2000_0000_0000 || n == 0x4000_0000_0000,
        rounded_quotient(q, n, d),
    ensures
        0 < q <= HIDDEN_BIT,
{
    assert(q <= 0x80_0000) by (nonlinear_arith)
        requires
            (2 * q - 1) * d <= 0x8000_0000_0000,
            d >= 0x80_0000,
    ;
    assert(q > 0) by (nonlinear_arith)
        requires
            0x4000_0000_0000 <= (2 * q + 1) * d,
            0 < d <= 0xFF_FFFF,
    ;
}

/// Doubles the fraction of a subnormal number until the hidden bit is set,
/// and counts the doublings.
fn normalise(fraction: u32) -> (r: (u32, u32))
    requires
        0 < fraction < HIDDEN_BIT,
    ensures
        r.0 == fraction * pow2(r.1 as nat),
        HIDDEN_BIT <= r.0 < 2 * HIDDEN_BIT,
        0 < r.1 <= 23,
{
    let mut d: u32 = fraction;
    let mut k: u32 = 0;
    proof {
        lemma2_to64();
    }
    while d < HIDDEN_BIT
        invariant
            0 < fraction < HIDDEN_BIT,
            0 < d < 2 * HIDDEN_BIT,
            d == fraction * pow2(k as nat),
            k <= 23,
            k == 0 ==> d == fraction,
        decreases 2 * HIDDEN_BIT - d,
    {
        proof {
            lemma2_to64();
            lemma_pow2_pos(k as nat);
            lemma_pow2_unfold((k + 1) as nat);
            if k >= 23 {
                if k > 23 {
                    lemma_pow2_strictly_increases(23, k as nat);
                }
                assert(fraction * pow2(k as nat) >= 0x80_0000) by (nonlinear_arith)
                    requires
                        fraction >= 1,
                        pow2(k as nat) >= 0x80_0000,
                ;
            }
            assert(fraction * (2 * pow2(k as nat)) == 2 * (fraction * pow2(k as nat)))
                by (nonlinear_arith);
        }
        d = d * 2;
        k = k + 1;
    }
    (d, k)
}

/// The reciprocal of a number that is neither zero nor infinite, as the
/// pattern of its magnitude.
fn recip_magnitude(m: u32) -> (r: u32)
    requires
        0 < m < INFINITY_BITS,
    ensures
        (Scalar { bits: r }).rounds(pow2(UNIT_EXPONENT as nat), (Scalar { bits: m }).units()),
{
    let field: u32 = m / HIDDEN_BIT;
    let fraction: u32 = m % HIDDEN_BIT;
    let ghost x = Scalar { bits: m };
    let ghost lift = pow2(251);
    proof {
        lemma2_to64();
        lemma2_to64_rest();
        lemma_pow2_pos(251);
        lemma_pow2_adds(251, 47);
        x.lemma_sign_of_number();
        assert(x.exponent_field() == field && x.fraction() == fraction);
    }
    if field == 0 {
        let (d, k) = normalise(fraction);
        let q: u64 = divide_rounded(0x8000_0000_0000, d as u64);
        let e: u32 = 251 + k;
        proof {
            lemma_quotient_normal(q as int, d as int);
            assert(e * HIDDEN_BIT <= 274 * 0x80_0000) by (nonlinear_arith)
                requires
                    0 <= e <= 274,
                    HIDDEN_BIT == 0x80_0000,
            ;
        }
        let pattern: u64 = e as u64 * (HIDDEN_BIT as u64) + q;
        proof {
            lemma_pow2_adds(251, k as nat);
            lemma_small_units(x);
            assert(pow2(e as nat) * x.units() == lift * d) by (nonlinear_arith)
                requires
                    pow2(e as nat) == lift * pow2(k as nat),
                    d == fraction * pow2(k as nat),
                    x.units() == fraction,
            ;
            if pattern >= INFINITY_BITS {
                lemma_rounds_infinite(
                    e as nat,
                    q as nat,
                    0x8000_0000_0000,
                    d as nat,
                    x.units(),
                    lift,
                );
            } else {
                lemma_rounds_normal(e as nat, q as nat, 0x8000_0000_0000, d as nat, x.units(), lift);
            }
        }
        if pattern >= INFINITY_BITS as u64 {
            INFINITY_BITS
        } else {
            pattern as u32
        }
    } else {
        let d: u32 = HIDDEN_BIT + fraction;
        let scale: u32 = field - 1;
        if scale <= 251 {
            let q: u64 = divide_rounded(0x8000_0000_0000, d as u64);
            let e: u32 = 251 - scale;
            proof {
                lemma_quotient_normal(q as int, d as int);
                assert(e * HIDDEN_BIT <= 251 * 0x80_0000) by (nonlinear_arith)
                    requires
                        0 <= e <= 251,
                        HIDDEN_BIT == 0x80_0000,
                ;
            }
            let pattern: u64 = e as u64 * (HIDDEN_BIT as u64) + q;
            proof {
                lemma_pow2_adds(e as nat, scale as nat);
                assert(pow2(e as nat) * x.units() == lift * d) by (nonlinear_arith)
                    requires
                        pow2(e as nat) * pow2(scale as nat) == lift,
                        x.units() == d * pow2(scale as nat),
                ;
                lemma_rounds_normal(e as nat, q as nat, 0x8000_0000_0000, d as nat, x.units(), lift);
            }
            pattern as u32
        } else {
            let n: u64 = if scale == 252 { 0x4000_0000_0000 } else { 0x2000_0000_0000 };
            let q: u64 = divide_rounded(n, d as u64);
            proof {
                let up = pow2(scale as nat);
                lemma_pow2_pos(scale as nat);
                lemma_quotient_subnormal(q as int, n as int, d as int);
                if scale == 252 {
                    lemma_pow2_adds(252, 46);
                } else {
                    lemma_pow2_adds(253, 45);
                }
                assert(x.units() == up * d) by (nonlinear_arith)
                    requires
                        x.units() == d * up,
                ;
                lemma_rounds_subnormal(q as nat, n as nat, d as nat, x.units(), up);
            }
            q as u32
        }
    }
}

impl Scalar {
    /// The scalar without its sign.
    pub open spec fn abs(self) -> Scalar {
        Scalar { bits: self.magnitude() as u32 }
    }

    /// Whether the scalar is the reciprocal of `x`: no number where `x` is
    /// none; else of the sign of `x`, and infinite for a zero, zero for an
    /// infinity, and for every other number one divided by it, rounded to the
    /// nearest scalar.
    pub open spec fn is_reciprocal_of(self, x: Scalar) -> bool {
        if x.is_nan() {
            self.is_nan()
        } else {
            &&& !self.is_nan()
            &&& self.sign() == x.sign()
            &&& if x.is_zero() {
                self.magnitude() == INFINITY_BITS
            } else if x.magnitude() == INFINITY_BITS {
                self.is_zero()
            } else {
                self.abs().rounds(pow2(UNIT_EXPONENT as nat), x.units())
            }
        }
    }

    /// One divided by the scalar.
    pub fn recip(self) -> (r: Scalar)
        ensures
            r.is_reciprocal_of(self),
    {
        let sign: u32 = if self.bits >= SIGN_BIT { SIGN_BIT } else { 0 };
        let m: u32 = self.bits - sign;
        if m > INFINITY_BITS {
            let quiet: u32 = if m % HIDDEN_BIT < QUIET_BIT { QUIET_BIT } else { 0 };
            Scalar { bits: self.bits + quiet }
        } else if m == 0 {
            Scalar { bits: sign + INFINITY_BITS }
        } else if m == INFINITY_BITS {
            Scalar { bits: sign }
        } else {
            let r: u32 = recip_magnitude(m);
            proof {
                assert((Scalar { bits: m }).units() == self.units());
            }
            Scalar { bits: sign + r }
        }
    }
}

impl Vec2 {
    /// Whether each component of the vector is the reciprocal of that
    /// component of `v`.
    pub open spec fn is_reciprocal_of(self, v: Vec2) -> bool {
        self.x.is_reciprocal_of(v.x) && self.y.is_reciprocal_of(v.y)
    }

    /// The reciprocal of each component.
    pub fn recip(self) -> (r: Vec2)
        ensures
            r.is_reciprocal_of(self),
    {
        Vec2 { x: self.x.recip(), y: self.y.recip() }
    }
}

/// A number has one reciprocal: two scalars that are both the reciprocal of a
/// number are the same scalar.
pub proof fn lemma_one_reciprocal(a: Scalar, b: Scalar, x: Scalar)
    requires
        !x.is_nan(),
        a.is_reciprocal_of(x),
        b.is_reciprocal_of(x),
    ensures
        a == b,
{
    x.lemma_sign_of_number();
    if !x.is_zero() && x.magnitude() != INFINITY_BITS {
        lemma_rounds_to_one(a.abs(), b.abs(), pow2(UNIT_EXPONENT as nat), x.units());
    }
    assert(a.magnitude() == b.magnitude());
}

} // verus!
