//! Logical positions of analog channels.

use vstd::arithmetic::div_mod::lemma_fundamental_div_mod_converse;
use vstd::arithmetic::power2::{
    lemma2_to64, lemma2_to64_rest, lemma_pow2_pos, lemma_pow2_strictly_increases, pow2,
};
use vstd::bits::lemma_u64_shl_is_mul;
use vstd::prelude::*;

verus! {

/// Bit pattern of the single-precision value `1.0`.
pub const ONE_BITS: u32 = 0x3F80_0000;

/// Bit pattern of the single-precision value `-0.0`.
pub const NEGATIVE_ZERO_BITS: u32 = 0x8000_0000;

/// Number of values that the 23 fraction bits of a single-precision number take.
pub const FRACTION_SPAN: u32 = 0x80_0000;

/// A position between zero and one, both included.
///
/// The position is an IEEE-754 single-precision number, kept by its bit
/// pattern. Every pattern from that of `0.0` up to that of `1.0` is a
/// position, and no other: the sign bit is clear, so the order of the
/// patterns is the order of the numbers. The number itself is the fraction
/// `significand() / 2^shift()`.
#[derive(Clone, Copy, Debug, PartialEq, Eq, Structural)]
pub struct Position {
    bits: u32,
}

/// The quotient `numerator / denominator` rounded to the nearest integer,
/// a tie going upward.
pub open spec fn round_ratio(numerator: int, denominator: int) -> int {
    (2 * numerator + denominator) / (2 * denominator)
}

impl Position {
    /// Every position lies in the unit interval.
    #[verifier::type_invariant]
    pub open spec fn in_unit_interval(self) -> bool {
        self.bits() <= ONE_BITS
    }

    /// The bit pattern of the position.
    pub closed spec fn bits(self) -> u32 {
        self.bits
    }

    /// The position with the bit pattern `bits`.
    pub closed spec fn with_bits(bits: u32) -> Position {
        Position { bits }
    }

    /// The position that the single-precision bit pattern `bits` stands
    /// for, if it stands for a number between zero and one. Negative zero
    /// is zero.
    pub open spec fn of_bits(bits: u32) -> Option<Position> {
        if bits == NEGATIVE_ZERO_BITS {
            Some(Position::with_bits(0))
        } else if bits <= ONE_BITS {
            Some(Position::with_bits(bits))
        } else {
            None
        }
    }

    /// The position with a bit pattern has that bit pattern.
    pub proof fn lemma_with_bits(bits: u32)
        ensures
            Position::with_bits(bits).bits() == bits,
    {
    }

    /// The biased exponent field of the pattern.
    pub open spec fn exponent(self) -> nat {
        (self.bits() / FRACTION_SPAN) as nat
    }

    /// The fraction field of the pattern.
    pub open spec fn fraction(self) -> nat {
        (self.bits() % FRACTION_SPAN) as nat
    }

    /// Numerator of the position over `2^shift()`: the fraction field, with
    /// the implicit leading bit unless the number is subnormal.
    pub open spec fn significand(self) -> nat {
        if self.exponent() == 0 {
            self.fraction()
        } else {
            FRACTION_SPAN as nat + self.fraction()
        }
    }

    /// Binary logarithm of the denominator of the position.
    pub open spec fn shift(self) -> nat {
        if self.exponent() == 0 {
            149
        } else {
            (150 - self.exponent()) as nat
        }
    }

    /// The position times `range`, rounded to the nearest integer; where
    /// `invert` is set, one minus the position takes the place of the
    /// position.
    pub open spec fn scaled(self, range: u16, invert: bool) -> int {
        let unit = pow2(self.shift()) as int;
        let part = if invert {
            unit - self.significand()
        } else {
            self.significand() as int
        };
        round_ratio(part * range, unit)
    }

    /// Two positions with the same bit pattern are the same position.
    pub proof fn lemma_bits_determine(self, other: Position)
        requires
            self.bits() == other.bits(),
        ensures
            self == other,
    {
    }

    /// A position whose numerator is zero scales to zero, and inverted to
    /// the whole range.
    pub proof fn lemma_scaled_zero(self, range: u16)
        requires
            self.significand() == 0,
        ensures
            self.scaled(range, false) == 0,
            self.scaled(range, true) == range,
    {
        let unit = pow2(self.shift()) as int;
        lemma_pow2_pos(self.shift());
        assert(0 * range == 0);
        lemma_fundamental_div_mod_converse(unit, 2 * unit, 0, unit);
        assert(2 * ((unit - 0) * range) + unit == range * (2 * unit) + unit) by (nonlinear_arith);
        lemma_fundamental_div_mod_converse(
            2 * ((unit - 0) * range) + unit,
            2 * unit,
            range as int,
            unit,
        );
    }

    /// A position whose numerator is its denominator scales to the whole
    /// range, and inverted to zero.
    pub proof fn lemma_scaled_one(self, range: u16)
        requires
            self.significand() == pow2(self.shift()),
        ensures
            self.scaled(range, false) == range,
            self.scaled(range, true) == 0,
    {
        let unit = pow2(self.shift()) as int;
        lemma_pow2_pos(self.shift());
        assert(0 * range == 0);
        lemma_fundamental_div_mod_converse(unit, 2 * unit, 0, unit);
        assert(2 * (unit * range) + unit == range * (2 * unit) + unit) by (nonlinear_arith);
        lemma_fundamental_div_mod_converse(
            2 * (unit * range) + unit,
            2 * unit,
            range as int,
            unit,
        );
    }

    /// The numerator of a position is at most its denominator: the position
    /// is at most one.
    pub proof fn lemma_at_most_one(self)
        requires
            self.in_unit_interval(),
        ensures
            self.significand() <= pow2(self.shift()),
            23 <= self.shift() <= 149,
    {
        lemma2_to64();
        if self.exponent() == 127 {
            assert(self.fraction() == 0);
        } else if self.shift() > 24 {
            lemma_pow2_strictly_increases(24, self.shift());
        }
    }

    /// A position scales into `0..=range`.
    pub proof fn lemma_scaled_bounds(self, range: u16, invert: bool)
        requires
            self.in_unit_interval(),
        ensures
            0 <= self.scaled(range, invert) <= range,
    {
        self.lemma_at_most_one();
        let unit = pow2(self.shift()) as int;
        let part = if invert {
            unit - self.significand()
        } else {
            self.significand() as int
        };
        lemma_pow2_pos(self.shift());
        assert(0 <= (2 * (part * range) + unit) / (2 * unit) <= range) by (nonlinear_arith)
            requires
                0 <= part <= unit,
                0 < unit,
                0 <= range,
        ;
    }

    /// The position zero.
    pub fn zero() -> (p: Position)
        ensures
            p == Position::with_bits(0),
            p.bits() == 0,
    {
        Position { bits: 0 }
    }

    /// The position one.
    pub fn one() -> (p: Position)
        ensures
            p == Position::with_bits(ONE_BITS),
            p.bits() == ONE_BITS,
    {
        Position { bits: ONE_BITS }
    }

    /// The position with the given single-precision bit pattern, if the
    /// number it stands for lies between zero and one. Negative zero is
    /// taken for zero.
    pub fn from_bits(bits: u32) -> (r: Option<Position>)
        ensures
            r == Position::of_bits(bits),
            r is Some <==> bits <= ONE_BITS || bits == NEGATIVE_ZERO_BITS,
            r matches Some(p) ==> p.bits() == (if bits == NEGATIVE_ZERO_BITS {
                0
            } else {
                bits
            }),
    {
        if bits == NEGATIVE_ZERO_BITS {
            Some(Position { bits: 0 })
        } else if bits <= ONE_BITS {
            Some(Position { bits })
        } else {
            None
        }
    }

    /// The single-precision bit pattern of the position.
    pub fn to_bits(&self) -> (bits: u32)
        ensures
            bits == self.bits(),
            bits <= ONE_BITS,
            *self == Position::with_bits(bits),
    {
        proof {
            use_type_invariant(self);
        }
        self.bits
    }

    /// Scales the position to `0..=range`: the position times `range`,
    /// rounded to the nearest integer, a tie going upward; where `invert` is
    /// set, one minus the position takes the place of the position.
    pub fn scale(&self, range: u16, invert: bool) -> (r: u16)
        ensures
            r == self.scaled(range, invert),
            r <= range,
    {
        proof {
            use_type_invariant(self);
        }
        let exponent: u32 = self.bits / FRACTION_SPAN;
        let fraction: u32 = self.bits % FRACTION_SPAN;
        let significand: u64 = if exponent == 0 {
            fraction as u64
        } else {
            (FRACTION_SPAN + fraction) as u64
        };
        let shift: u32 = if exponent == 0 {
            149
        } else {
            150 - exponent
        };
        assert(significand == self.significand());
        assert(shift == self.shift());
        assert(23 <= shift <= 149);
        assert(significand * range <= 0xFF_FFFF * 0xFFFF) by (nonlinear_arith)
            requires
                significand <= 0xFF_FFFF,
                range <= 0xFFFF,
        ;
        if shift > 41 {
            proof {
                lemma2_to64_rest();
                lemma_pow2_strictly_increases(41, shift as nat);
                let unit = pow2(shift as nat) as int;
                let product = significand * range;
                if invert {
                    assert((unit - significand) * range == unit * range - product)
                        by (nonlinear_arith)
                        requires
                            product == significand * range,
                    ;
                    assert(2 * ((unit - significand) * range) + unit == range * (2 * unit) + (unit
                        - 2 * product)) by (nonlinear_arith)
                        requires
                            (unit - significand) * range == unit * range - product,
                    ;
                    lemma_fundamental_div_mod_converse(
                        2 * ((unit - significand) * range) + unit,
                        2 * unit,
                        range as int,
                        unit - 2 * product,
                    );
                } else {
                    lemma_fundamental_div_mod_converse(
                        2 * product + unit,
                        2 * unit,
                        0,
                        2 * product + unit,
                    );
                }
            }
            if invert {
                range
            } else {
                0
            }
        } else {
            proof {
                lemma2_to64();
                lemma2_to64_rest();
                lemma_pow2_strictly_increases(shift as nat, 42);
                lemma_pow2_strictly_increases(22, shift as nat);
                lemma_u64_shl_is_mul(1, shift as u64);
            }
            let unit: u64 = 1u64 << shift;
            assert(unit == pow2(shift as nat));
            assert(significand <= unit) by {
                if exponent != 127 {
                    lemma_pow2_strictly_increases(23, shift as nat);
                }
            }
            let part: u64 = if invert {
                unit - significand
            } else {
                significand
            };
            assert(part * range <= unit * range <= 0x400_0000_0000 * 0xFFFF) by (nonlinear_arith)
                requires
                    part <= unit,
                    unit <= 0x400_0000_0000,
                    range <= 0xFFFF,
            ;
            let numerator: u64 = 2 * (part * (range as u64)) + unit;
            let scaled: u64 = numerator / (2 * unit);
            assert(scaled <= range) by (nonlinear_arith)
                requires
                    scaled == (numerator as int) / (2 * unit),
                    numerator == 2 * (part * range) + unit,
                    part * range <= unit * range,
                    unit > 0,
            ;
            scaled as u16
        }
    }
}

} // verus!
