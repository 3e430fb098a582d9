//! Glyph coverage and the blending of ink into a pixel.
//!
//! A rasterizer reports how much of a pixel a glyph covers as a single
//! precision number between zero and one. Here such a number travels as its
//! IEEE 754 bit pattern and is read, with integer arithmetic only, as the
//! exact fraction that it denotes.

use vstd::prelude::*;
use vstd::arithmetic::div_mod::lemma_div_is_ordered;
use vstd::arithmetic::div_mod::lemma_div_multiples_vanish;
use vstd::arithmetic::div_mod::lemma_fundamental_div_mod_converse_div;
use vstd::arithmetic::power2::lemma2_to64;
use vstd::arithmetic::power2::lemma2_to64_rest;
use vstd::arithmetic::power2::lemma_pow2_pos;
use vstd::arithmetic::power2::lemma_pow2_strictly_increases;
use vstd::arithmetic::power2::pow2;
use vstd::bits::lemma_u64_shl_is_mul;
use crate::color::Color;

verus! {

/// Greatest shift of a coverage: that of the least positive single precision
/// number, `2^-149`.
pub const MAX_SHIFT: u32 = 149;

/// Bit pattern of the single precision number 1.
pub const ONE_BITS: u32 = 0x3F80_0000;

/// How much of a pixel a glyph covers, from not at all to entirely: the
/// fraction `numerator / 2^shift`.
#[derive(Clone, Copy, Debug, PartialEq, Eq, Structural)]
pub struct Coverage {
    pub numerator: u32,
    pub shift: u32,
}

impl Coverage {
    /// The fraction is at most one and its shift at most `MAX_SHIFT`.
    pub open spec fn valid(&self) -> bool {
        &&& self.shift <= MAX_SHIFT
        &&& self.numerator <= pow2(self.shift as nat)
    }

    /// Whether the fraction is zero.
    pub open spec fn is_none(&self) -> bool {
        self.numerator == 0
    }

    /// Whether the fraction is one.
    pub open spec fn is_full(&self) -> bool {
        self.numerator == pow2(self.shift as nat)
    }
}

/// The coverage of a pixel that the glyph does not touch.
#[verifier::allow_in_spec]
pub fn no_coverage() -> Coverage
    returns
        (Coverage { numerator: 0, shift: 0 }),
{
    Coverage { numerator: 0, shift: 0 }
}

/// The coverage of a pixel that the glyph covers entirely.
#[verifier::allow_in_spec]
pub fn full_coverage() -> Coverage
    returns
        (Coverage { numerator: 1, shift: 0 }),
{
    Coverage { numerator: 1, shift: 0 }
}

/// The biased exponent field of a single precision bit pattern.
pub open spec fn exponent_field(bits: u32) -> nat {
    (bits as nat / 0x80_0000) % 0x100
}

/// The fraction field of a single precision bit pattern.
pub open spec fn fraction_field(bits: u32) -> nat {
    bits as nat % 0x80_0000
}

/// The coverage that a single precision bit pattern stands for.
///
/// A number from zero up to one is taken as it is, without rounding. Anything
/// above one, positive infinity included, is full coverage. Negative numbers
/// and patterns that are not a number are no coverage.
///
/// A finite pattern with sign bit clear and exponent field `e` denotes
/// `fraction * 2^-149` when `e` is 0, and `(2^23 + fraction) * 2^(e - 150)`
/// otherwise.
pub open spec fn coverage_of(bits: u32) -> Coverage {
    let e = exponent_field(bits);
    let f = fraction_field(bits);
    if bits >= 0x8000_0000 || (e == 255 && f != 0) {
        no_coverage()
    } else if e >= 127 {
        full_coverage()
    } else if e == 0 {
        Coverage { numerator: f as u32, shift: MAX_SHIFT }
    } else {
        Coverage { numerator: (0x80_0000 + f) as u32, shift: (150 - e) as u32 }
    }
}

/// One channel after blending: `(1 - a) * existing + a * ink` for the
/// intensity `a = numerator / 2^shift`, rounded down.
pub open spec fn mixed_channel(existing: u8, ink: u8, coverage: Coverage) -> int {
    let unit = pow2(coverage.shift as nat) as int;
    ((unit - coverage.numerator) * existing + coverage.numerator * ink) / unit
}

/// A pixel after blending `ink` into it, channel by channel.
pub open spec fn mixed(existing: Color, ink: Color, coverage: Coverage) -> Color {
    Color {
        r: mixed_channel(existing.r, ink.r, coverage) as u8,
        g: mixed_channel(existing.g, ink.g, coverage) as u8,
        b: mixed_channel(existing.b, ink.b, coverage) as u8,
    }
}

/// Every bit pattern stands for a valid coverage.
pub proof fn lemma_coverage_of_valid(bits: u32)
    ensures
        coverage_of(bits).valid(),
{
    let e = exponent_field(bits);
    let f = fraction_field(bits);
    lemma2_to64();
    if bits >= 0x8000_0000 || (e == 255 && f != 0) {
    } else if e >= 127 {
    } else if e == 0 {
        lemma_pow2_strictly_increases(23, 149);
    } else {
        if e < 126 {
            lemma_pow2_strictly_increases(24, (150 - e) as nat);
        }
    }
}

/// The bit patterns of zero and of one stand for no coverage and for full
/// coverage.
pub proof fn lemma_coverage_endpoints()
    ensures
        coverage_of(0).is_none(),
        coverage_of(ONE_BITS).is_full(),
{
    lemma2_to64();
}

/// A blended channel lies between the two channels that went into it.
pub proof fn lemma_mixed_channel_between(existing: u8, ink: u8, coverage: Coverage)
    requires
        coverage.valid(),
    ensures
        existing <= ink ==> existing <= mixed_channel(existing, ink, coverage) <= ink,
        ink <= existing ==> ink <= mixed_channel(existing, ink, coverage) <= existing,
{
    let unit = pow2(coverage.shift as nat) as int;
    let n = coverage.numerator as int;
    let e = existing as int;
    let i = ink as int;
    let total = (unit - n) * e + n * i;
    lemma_pow2_pos(coverage.shift as nat);
    if e <= i {
        assert(unit * e <= total <= unit * i) by (nonlinear_arith)
            requires
                total == (unit - n) * e + n * i,
                0 <= n <= unit,
                0 <= e <= i,
        ;
        lemma_div_is_ordered(unit * e, total, unit);
        lemma_div_is_ordered(total, unit * i, unit);
    } else {
        assert(unit * i <= total <= unit * e) by (nonlinear_arith)
            requires
                total == (unit - n) * e + n * i,
                0 <= n <= unit,
                0 <= i <= e,
        ;
        lemma_div_is_ordered(unit * i, total, unit);
        lemma_div_is_ordered(total, unit * e, unit);
    }
    lemma_div_multiples_vanish(e, unit);
    lemma_div_multiples_vanish(i, unit);
}

/// Blending at no coverage leaves a channel as it was, and blending at full
/// coverage sets it to the ink exactly.
pub proof fn lemma_mixed_channel_endpoints(existing: u8, ink: u8, coverage: Coverage)
    requires
        coverage.valid(),
    ensures
        coverage.is_none() ==> mixed_channel(existing, ink, coverage) == existing,
        coverage.is_full() ==> mixed_channel(existing, ink, coverage) == ink,
{
    let unit = pow2(coverage.shift as nat) as int;
    let n = coverage.numerator as int;
    let e = existing as int;
    let i = ink as int;
    lemma_pow2_pos(coverage.shift as nat);
    if n == 0 {
        assert((unit - n) * e + n * i == unit * e) by (nonlinear_arith)
            requires
                n == 0,
        ;
        lemma_div_multiples_vanish(e, unit);
    }
    if n == unit {
        assert((unit - n) * e + n * i == unit * i) by (nonlinear_arith)
            requires
                n == unit,
        ;
        lemma_div_multiples_vanish(i, unit);
    }
}

/// Blending at no coverage leaves the pixel as it was, and blending at full
/// coverage sets it to the ink exactly.
pub proof fn lemma_mixed_endpoints(existing: Color, ink: Color, coverage: Coverage)
    requires
        coverage.valid(),
    ensures
        coverage.is_none() ==> mixed(existing, ink, coverage) == existing,
        coverage.is_full() ==> mixed(existing, ink, coverage) == ink,
{
    lemma_mixed_channel_endpoints(existing.r, ink.r, coverage);
    lemma_mixed_channel_endpoints(existing.g, ink.g, coverage);
    lemma_mixed_channel_endpoints(existing.b, ink.b, coverage);
}

/// A coverage whose shift is 40 or more is below `2^-8` and moves a channel
/// by less than one. Rounded down, the channel stays as it was, or loses one
/// where the ink is smaller and covers anything at all.
proof fn lemma_faint_mix(existing: u8, ink: u8, coverage: Coverage)
    requires
        coverage.valid(),
        coverage.shift >= 40,
    ensures
        mixed_channel(existing, ink, coverage) == if coverage.numerator == 0 || ink >= existing {
            existing as int
        } else {
            existing - 1
        },
{
    let unit = pow2(coverage.shift as nat) as int;
    let n = coverage.numerator as int;
    let e = existing as int;
    let i = ink as int;
    let total = (unit - n) * e + n * i;
    lemma2_to64_rest();
    if coverage.shift > 40 {
        lemma_pow2_strictly_increases(40, coverage.shift as nat);
    }
    assert(unit >= 0x100_0000_0000);
    if i >= e {
        let r = n * (i - e);
        assert(0 <= r < unit && total == e * unit + r) by (nonlinear_arith)
            requires
                r == n * (i - e),
                total == (unit - n) * e + n * i,
                0 <= n < 0x1_0000_0000,
                0 <= i - e <= 255,
                unit >= 0x100_0000_0000,
        ;
        lemma_fundamental_div_mod_converse_div(total, unit, e, r);
    } else if n == 0 {
        assert(total == e * unit + 0) by (nonlinear_arith)
            requires
                total == (unit - n) * e + n * i,
                n == 0,
        ;
        lemma_fundamental_div_mod_converse_div(total, unit, e, 0);
    } else {
        let r = unit - n * (e - i);
        assert(0 <= r < unit && total == (e - 1) * unit + r) by (nonlinear_arith)
            requires
                r == unit - n * (e - i),
                total == (unit - n) * e + n * i,
                0 < n < 0x1_0000_0000,
                0 < e - i <= 255,
                unit >= 0x100_0000_0000,
        ;
        lemma_fundamental_div_mod_converse_div(total, unit, e - 1, r);
    }
}

/// Reads a single precision bit pattern as a coverage.
pub fn coverage_from_bits(bits: u32) -> (coverage: Coverage)
    ensures
        coverage == coverage_of(bits),
        coverage.valid(),
{
    let e: u32 = (bits >> 23) & 0xFF;
    let f: u32 = bits & 0x7F_FFFF;
    assert(e == (bits / 0x80_0000) % 0x100) by (bit_vector)
        requires
            e == (bits >> 23) & 0xFF,
    ;
    assert(f == bits % 0x80_0000) by (bit_vector)
        requires
            f == bits & 0x7F_FFFF,
    ;
    proof {
        lemma_coverage_of_valid(bits);
    }
    if bits >= 0x8000_0000 || (e == 255 && f != 0) {
        no_coverage()
    } else if e >= 127 {
        full_coverage()
    } else if e == 0 {
        Coverage { numerator: f, shift: MAX_SHIFT }
    } else {
        Coverage { numerator: 0x80_0000 + f, shift: 150 - e }
    }
}

/// Blends one channel of `ink` into `existing`.
pub fn blend_channel(existing: u8, ink: u8, coverage: Coverage) -> (out: u8)
    requires
        coverage.valid(),
    ensures
        out == mixed_channel(existing, ink, coverage),
        coverage.is_none() ==> out == existing,
        coverage.is_full() ==> out == ink,
{
    proof {
        lemma_mixed_channel_between(existing, ink, coverage);
        lemma_mixed_channel_endpoints(existing, ink, coverage);
    }
    if coverage.shift >= 40 {
        proof {
            lemma_faint_mix(existing, ink, coverage);
        }
        if coverage.numerator == 0 || ink >= existing {
            existing
        } else {
            existing - 1
        }
    } else {
        let shift: u64 = coverage.shift as u64;
        let n: u64 = coverage.numerator as u64;
        proof {
            lemma2_to64();
            lemma2_to64_rest();
            if shift < 39 {
                lemma_pow2_strictly_increases(shift as nat, 39);
            }
            lemma_u64_shl_is_mul(1, shift);
        }
        let unit: u64 = 1u64 << shift;
        assert(unit == pow2(shift as nat) && 0 < unit <= 0x80_0000_0000) by {
            lemma_pow2_pos(shift as nat);
        }
        assert((unit - n) * existing <= 255 * unit && n * ink <= 255 * n) by (nonlinear_arith)
            requires
                0 <= n <= unit,
                0 <= existing <= 255,
                0 <= ink <= 255,
        ;
        let total: u64 = (unit - n) * (existing as u64) + n * (ink as u64);
        (total / unit) as u8
    }
}

/// Blends `ink` into `existing`, channel by channel.
pub fn blend(existing: Color, ink: Color, coverage: Coverage) -> (out: Color)
    requires
        coverage.valid(),
    ensures
        out == mixed(existing, ink, coverage),
        coverage.is_none() ==> out == existing,
        coverage.is_full() ==> out == ink,
{
    Color {
        r: blend_channel(existing.r, ink.r, coverage),
        g: blend_channel(existing.g, ink.g, coverage),
        b: blend_channel(existing.b, ink.b, coverage),
    }
}

} // verus!
