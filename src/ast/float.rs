//! The value type: an IEEE-754 double-precision number held as its 64 bits.
use vstd::prelude::*;
use vstd::arithmetic::power2::{pow2, lemma2_to64, lemma_pow2_strictly_increases};
use vstd::bits::{lemma_u64_shl_is_mul, lemma_u64_shr_is_div};

verus! {

/// 2 to the 52nd: the weight of the lowest exponent bit.
pub const EXP_UNIT: u64 = 0x10_0000_0000_0000;

/// 2 to the 63rd: the sign bit.
pub const SIGN_BIT: u64 = 0x8000_0000_0000_0000;

/// All exponent bits set: infinities and NaNs.
pub const EXP_ALL: u64 = 0x7ff;

/// The biased exponent of 1.0.
pub const EXP_BIAS: u64 = 1023;

/// A double-precision number, held as its IEEE-754 bit pattern.
#[derive(Clone, Copy, Debug)]
pub struct Float(pub u64);

/// The sign bit is set.
pub open spec fn sign_of(bits: u64) -> bool {
    bits >= SIGN_BIT
}

/// The eleven exponent bits, as a number.
pub open spec fn exponent_of(bits: u64) -> nat {
    ((bits as nat) / (EXP_UNIT as nat)) % 2048
}

/// The fifty-two fraction bits, as a number.
pub open spec fn fraction_of(bits: u64) -> nat {
    (bits as nat) % (EXP_UNIT as nat)
}

/// Positive or negative zero.
pub open spec fn is_zero_bits(bits: u64) -> bool {
    exponent_of(bits) == 0 && fraction_of(bits) == 0
}

/// Not a number.
pub open spec fn is_nan_bits(bits: u64) -> bool {
    exponent_of(bits) == EXP_ALL && fraction_of(bits) != 0
}

/// IEEE equality: the two zeros are equal, a NaN equals nothing, any other
/// value equals only itself.
pub open spec fn float_eq(x: u64, y: u64) -> bool {
    (is_zero_bits(x) && is_zero_bits(y)) || (!is_nan_bits(x) && x == y)
}

/// The integer part of a finite non-negative value with these bits.
pub open spec fn integer_part(bits: u64) -> nat {
    let e = exponent_of(bits);
    let m: nat = fraction_of(bits) + EXP_UNIT as nat;
    if e < EXP_BIAS {
        0
    } else if e >= 1075 {
        (m * pow2((e - 1075) as nat)) as nat
    } else {
        (m / pow2((1075 - e) as nat)) as nat
    }
}

/// The jump target that a value stands for: the value truncated toward zero
/// and saturated to the range of `usize`; a NaN and any negative value give 0,
/// positive infinity gives `usize::MAX`.
pub open spec fn index_of(bits: u64) -> nat {
    if is_nan_bits(bits) || sign_of(bits) {
        0
    } else if exponent_of(bits) == EXP_ALL || integer_part(bits) > usize::MAX {
        usize::MAX as nat
    } else {
        integer_part(bits)
    }
}

impl Float {
    /// Positive zero, the default of every missing operand.
    pub open spec fn zero_spec() -> Float {
        Float(0)
    }

    pub fn zero() -> (r: Float)
        ensures
            r == Float::zero_spec(),
    {
        Float(0)
    }

    /// Whether the value compares equal to 0.0 (either zero).
    pub fn is_zero(&self) -> (r: bool)
        ensures
            r == is_zero_bits(self.0),
    {
        self.0 % EXP_UNIT == 0 && (self.0 / EXP_UNIT) % 2048 == 0
    }

    /// Whether the value is a NaN.
    pub fn is_nan(&self) -> (r: bool)
        ensures
            r == is_nan_bits(self.0),
    {
        self.0 % EXP_UNIT != 0 && (self.0 / EXP_UNIT) % 2048 == EXP_ALL
    }

    /// The value as a jump target: truncated toward zero, saturated to
    /// `usize`, with 0 for a NaN.
    pub fn to_index(&self) -> (r: usize)
        ensures
            r as nat == index_of(self.0),
    {
        let bits = self.0;
        let e = (bits / EXP_UNIT) % 2048;
        let m = bits % EXP_UNIT + EXP_UNIT;
        if self.is_nan() || bits >= SIGN_BIT {
            return 0;
        }
        if e == EXP_ALL {
            return usize::MAX;
        }
        if e < EXP_BIAS {
            return 0;
        }
        let whole: u64;
        if e >= 1075 {
            let k = e - 1075;
            if k >= 12 {
                proof {
                    if k > 12 {
                        lemma_pow2_strictly_increases(12, k as nat);
                    }
                    lemma2_to64();
                    assert(m * pow2(k as nat) >= EXP_UNIT * 4096) by (nonlinear_arith)
                        requires
                            m >= EXP_UNIT,
                            pow2(k as nat) >= 4096,
                    ;
                }
                return usize::MAX;
            }
            proof {
                if k < 11 {
                    lemma_pow2_strictly_increases(k as nat, 11);
                }
                lemma2_to64();
                assert(m * pow2(k as nat) <= u64::MAX) by (nonlinear_arith)
                    requires
                        m < 2 * EXP_UNIT,
                        pow2(k as nat) <= 2048,
                ;
                lemma_u64_shl_is_mul(m, k);
            }
            whole = m << k;
        } else {
            let k = 1075 - e;
            proof {
                lemma_u64_shr_is_div(m, k);
            }
            whole = m >> k;
        }
        if whole > usize::MAX as u64 {
            usize::MAX
        } else {
            whole as usize
        }
    }
}

impl PartialEq for Float {
    /// IEEE equality on the values the bits stand for.
    fn eq(&self, other: &Float) -> (r: bool)
        ensures
            r == float_eq(self.0, other.0),
    {
        (self.is_zero() && other.is_zero()) || (!self.is_nan() && self.0 == other.0)
    }
}

impl vstd::std_specs::cmp::PartialEqSpecImpl for Float {
    open spec fn obeys_eq_spec() -> bool {
        true
    }

    open spec fn eq_spec(&self, other: &Float) -> bool {
        float_eq(self.0, other.0)
    }
}

} // verus!
