//! Numbers as they arrive in a value list, and the integer each one counts for.
//!
//! A number counts for its value with the fraction dropped (rounded toward
//! zero), held to the range of `i64`: what lies beyond either end counts for
//! that end.

use vstd::arithmetic::div_mod::{lemma_basic_div, lemma_div_nonincreasing};
use vstd::arithmetic::power2::{
    lemma2_to64,
    lemma2_to64_rest,
    lemma_pow2_pos,
    lemma_pow2_strictly_increases,
    pow2,
};
use vstd::bits::{lemma_u64_shl_is_mul, lemma_u64_shr_is_div};
use vstd::prelude::*;

verus! {

/// Number of values that the fraction field of a binary64 pattern can take:
/// two to the power 52.
pub const FRACTION_RANGE: u64 = 0x10_0000_0000_0000;

/// Number of values that the exponent field of a binary64 pattern can take.
pub const EXPONENT_RANGE: u64 = 0x800;

/// The exponent field that marks an infinity or a NaN.
pub const EXPONENT_NON_FINITE: u64 = 0x7ff;

/// The exponent field at which the significand is scaled by one: below it the
/// significand is divided by a power of two, above it multiplied.
pub const EXPONENT_UNSCALED: u64 = 1075;

/// The least pattern with the sign bit set.
pub const SIGN_BIT: u64 = 0x8000_0000_0000_0000;

/// The integer nearest to `x` within the range of `i64`.
pub open spec fn clamp_i64(x: int) -> int {
    if x < i64::MIN {
        i64::MIN as int
    } else if x > i64::MAX {
        i64::MAX as int
    } else {
        x
    }
}

/// Whether the pattern stands for a negative number.
pub open spec fn float_negative(bits: u64) -> bool {
    bits >= SIGN_BIT
}

/// The exponent field of the pattern: eleven bits below the sign bit.
pub open spec fn float_exponent(bits: u64) -> int {
    (bits as int / FRACTION_RANGE as int) % (EXPONENT_RANGE as int)
}

/// The fraction field of the pattern: its low 52 bits.
pub open spec fn float_fraction(bits: u64) -> int {
    bits as int % (FRACTION_RANGE as int)
}

/// Whether the pattern stands for a number at all, and not for an infinity or
/// a NaN.
pub open spec fn float_finite(bits: u64) -> bool {
    float_exponent(bits) != EXPONENT_NON_FINITE
}

/// The integer that, scaled by a power of two, is the magnitude of the number:
/// the fraction field, with a leading one in front unless the exponent field
/// is zero.
pub open spec fn float_significand(bits: u64) -> int {
    if float_exponent(bits) == 0 {
        float_fraction(bits)
    } else {
        FRACTION_RANGE + float_fraction(bits)
    }
}

/// The power of two by which the significand is scaled.
pub open spec fn float_scale(bits: u64) -> int {
    if float_exponent(bits) == 0 {
        1 - EXPONENT_UNSCALED
    } else {
        float_exponent(bits) - EXPONENT_UNSCALED
    }
}

/// The whole part of the magnitude of a finite pattern: the greatest integer
/// that is not above `float_significand(bits)` times two to the power
/// `float_scale(bits)`.
pub open spec fn float_whole(bits: u64) -> nat {
    let scale = float_scale(bits);
    if scale >= 0 {
        (float_significand(bits) * pow2(scale as nat)) as nat
    } else {
        (float_significand(bits) / (pow2((-scale) as nat) as int)) as nat
    }
}

/// The number that the pattern stands for, rounded toward zero. An infinity
/// or a NaN is no number and is given zero.
pub open spec fn float_truncated(bits: u64) -> int {
    if !float_finite(bits) {
        0
    } else if float_negative(bits) {
        -(float_whole(bits) as int)
    } else {
        float_whole(bits) as int
    }
}

/// A pattern whose exponent field is below that of one has no whole part.
pub proof fn lemma_whole_below_one(bits: u64)
    requires
        float_exponent(bits) < EXPONENT_UNSCALED - 52,
    ensures
        float_whole(bits) == 0,
{
    let down = (-float_scale(bits)) as nat;
    lemma2_to64_rest();
    assert(pow2(53) <= pow2(down)) by {
        if 53 < down {
            lemma_pow2_strictly_increases(53, down);
        }
    }
    lemma_basic_div(float_significand(bits), pow2(down) as int);
}

/// A finite pattern whose significand is scaled by two to the power 11 or
/// more has a magnitude beyond the range of `i64`.
pub proof fn lemma_whole_beyond_range(bits: u64)
    requires
        float_exponent(bits) >= EXPONENT_UNSCALED + 11,
    ensures
        float_whole(bits) >= 0x8000_0000_0000_0000,
{
    let up = float_scale(bits) as nat;
    let significand = float_significand(bits);
    lemma2_to64();
    assert(pow2(11) <= pow2(up)) by {
        if 11 < up {
            lemma_pow2_strictly_increases(11, up);
        }
    }
    assert(significand * pow2(up) >= 0x10_0000_0000_0000 * 0x800) by (nonlinear_arith)
        requires
            significand >= 0x10_0000_0000_0000,
            pow2(up) >= 0x800,
    ;
}

/// The integer that a binary64 pattern counts for: the number it stands for,
/// rounded toward zero and held to the range of `i64`. An infinity or a NaN
/// counts for zero.
pub fn truncate_float(bits: u64) -> (r: i64)
    ensures
        r as int == clamp_i64(float_truncated(bits)),
{
    let negative: bool = bits >= SIGN_BIT;
    let exponent: u64 = (bits / FRACTION_RANGE) % EXPONENT_RANGE;
    let fraction: u64 = bits % FRACTION_RANGE;
    if exponent == EXPONENT_NON_FINITE {
        return 0;
    }
    if exponent < EXPONENT_UNSCALED - 52 {
        proof {
            lemma_whole_below_one(bits);
        }
        return 0;
    }
    if exponent >= EXPONENT_UNSCALED + 11 {
        proof {
            lemma_whole_beyond_range(bits);
        }
        return if negative {
            i64::MIN
        } else {
            i64::MAX
        };
    }
    let significand: u64 = FRACTION_RANGE + fraction;
    let whole: u64 = if exponent >= EXPONENT_UNSCALED {
        let up: u64 = exponent - EXPONENT_UNSCALED;
        proof {
            lemma2_to64();
            assert(pow2(up as nat) <= pow2(10)) by {
                if up < 10 {
                    lemma_pow2_strictly_increases(up as nat, 10);
                }
            }
            lemma_pow2_pos(up as nat);
            assert(significand * pow2(up as nat) < 0x20_0000_0000_0000 * 0x400)
                by (nonlinear_arith)
                requires
                    0 <= significand < 0x20_0000_0000_0000,
                    0 < pow2(up as nat) <= 0x400,
            ;
            lemma_u64_shl_is_mul(significand, up);
        }
        significand << up
    } else {
        let down: u64 = EXPONENT_UNSCALED - exponent;
        proof {
            lemma_pow2_pos(down as nat);
            lemma_u64_shr_is_div(significand, down);
            lemma_div_nonincreasing(significand as int, pow2(down as nat) as int);
        }
        significand >> down
    };
    if negative {
        -(whole as i64)
    } else {
        whole as i64
    }
}

/// A number of a value list, held as a JSON reader hands it over: an integer
/// where the text was one and fits, else a binary64 floating-point number.
#[derive(Clone, Copy, Debug, PartialEq, Eq, Structural)]
pub enum Number {
    /// An integer held without a sign.
    Unsigned(u64),
    /// An integer held with a sign.
    Signed(i64),
    /// A binary64 floating-point number, given by its IEEE 754 bit pattern.
    Float(u64),
}

impl Number {
    /// The value of the number, rounded toward zero.
    pub open spec fn truncated(self) -> int {
        match self {
            Number::Unsigned(n) => n as int,
            Number::Signed(n) => n as int,
            Number::Float(bits) => float_truncated(bits),
        }
    }

    /// The integer that the number counts for in a sum.
    pub open spec fn amount(self) -> int {
        clamp_i64(self.truncated())
    }

    /// The integer that the number counts for in a sum: its value rounded
    /// toward zero and held to the range of `i64`.
    pub fn to_i64(&self) -> (r: i64)
        ensures
            r as int == self.amount(),
    {
        match *self {
            Number::Unsigned(n) => {
                if n > i64::MAX as u64 {
                    i64::MAX
                } else {
                    n as i64
                }
            },
            Number::Signed(n) => n,
            Number::Float(bits) => truncate_float(bits),
        }
    }
}

} // verus!
