//! Samples and the rule that admits them.
//!
//! A sample is a double-precision number. It is held as its IEEE 754 binary64
//! bit pattern, an integer: one sign bit, eleven exponent bits, fifty-two
//! fraction bits. A drawn number becomes a [`Sample`] only if it is less than
//! [`LIMIT`]; whatever is not, a not-a-number included, is turned away.

use vstd::prelude::*;
use vstd::arithmetic::power2::pow2;
use vstd::arithmetic::power2::lemma2_to64;
use vstd::arithmetic::power2::lemma2_to64_rest;
use vstd::arithmetic::power2::lemma_pow2_pos;
use vstd::arithmetic::power2::lemma_pow2_strictly_increases;

verus! {

/// Every sample is less than this number.
pub const LIMIT: u64 = 1500;

/// The pattern of the number 1500.
pub const LIMIT_PATTERN: u64 = 0x4097_7000_0000_0000;

/// The pattern of negative zero: the sign bit alone.
pub const SIGN_BIT: u64 = 0x8000_0000_0000_0000;

/// The pattern of negative infinity.
pub const NEGATIVE_INFINITY: u64 = 0xFFF0_0000_0000_0000;

/// Whether the sign bit is set.
pub open spec fn is_negative(bits: u64) -> bool {
    bits as int / 0x8000_0000_0000_0000 == 1
}

/// The eleven exponent bits.
pub open spec fn exponent_field(bits: u64) -> int {
    (bits as int / 0x10_0000_0000_0000) % 0x800
}

/// The fifty-two fraction bits.
pub open spec fn fraction_field(bits: u64) -> int {
    bits as int % 0x10_0000_0000_0000
}

/// Whether the pattern is a not-a-number.
pub open spec fn is_nan(bits: u64) -> bool {
    exponent_field(bits) == 0x7ff && fraction_field(bits) != 0
}

/// Whether the pattern is an infinity.
pub open spec fn is_infinite(bits: u64) -> bool {
    exponent_field(bits) == 0x7ff && fraction_field(bits) == 0
}

/// The whole number `m` in `m * 2^power`, the magnitude of a finite pattern:
/// the fraction bits, with the implicit leading one unless the number is
/// subnormal.
pub open spec fn significand(bits: u64) -> int {
    if exponent_field(bits) == 0 {
        fraction_field(bits)
    } else {
        0x10_0000_0000_0000 + fraction_field(bits)
    }
}

/// The `power` in `m * 2^power`, the magnitude of a finite pattern.
pub open spec fn power(bits: u64) -> int {
    if exponent_field(bits) == 0 {
        1 - 1075
    } else {
        exponent_field(bits) - 1075
    }
}

/// Whether `m * 2^power`, the magnitude of a finite pattern, is less than `limit`.
pub open spec fn magnitude_below(bits: u64, limit: nat) -> bool {
    if power(bits) >= 0 {
        significand(bits) * pow2(power(bits) as nat) < limit
    } else {
        significand(bits) < limit * pow2((-power(bits)) as nat)
    }
}

/// Whether the number with this pattern is less than the whole number `limit`.
///
/// A not-a-number is less than nothing. A negative number is less than any
/// positive limit, and less than zero unless it is negative zero.
pub open spec fn is_below(bits: u64, limit: nat) -> bool {
    &&& !is_nan(bits)
    &&& if is_negative(bits) {
        limit > 0 || is_infinite(bits) || significand(bits) > 0
    } else {
        !is_infinite(bits) && magnitude_below(bits, limit)
    }
}

/// The test on patterns that decides `is_below(bits, 1500)`: non-negative
/// patterns are ordered as their numbers are, and the negative ones that are
/// numbers end at negative infinity.
pub open spec fn in_admitted_patterns(bits: u64) -> bool {
    bits < LIMIT_PATTERN || (SIGN_BIT <= bits && bits <= NEGATIVE_INFINITY)
}

/// The patterns of the numbers below 1500 are exactly those that
/// `in_admitted_patterns` names.
pub proof fn lemma_admitted_patterns(bits: u64)
    ensures
        is_below(bits, LIMIT as nat) <==> in_admitted_patterns(bits),
{
    let e = exponent_field(bits);
    let f = fraction_field(bits);
    let negative: int = if is_negative(bits) { 1 } else { 0 };
    assert(bits as int == negative * 0x8000_0000_0000_0000 + e * 0x10_0000_0000_0000 + f);
    lemma2_to64();
    lemma2_to64_rest();
    if !is_negative(bits) && e != 0x7ff {
        let m = significand(bits);
        let p = power(bits);
        if p >= 0 {
            lemma_pow2_pos(p as nat);
            assert(m * pow2(p as nat) >= m) by (nonlinear_arith)
                requires
                    m >= 0,
                    pow2(p as nat) >= 1,
            ;
        } else {
            let k = (-p) as nat;
            if k > 43 {
                lemma_pow2_strictly_increases(43, k);
            }
            if k < 41 {
                lemma_pow2_strictly_increases(k, 41);
            }
        }
    }
}

/// A drawn number that is less than [`LIMIT`].
#[derive(Clone, Copy, Debug, PartialEq, Eq)]
pub struct Sample {
    bits: u64,
}

impl View for Sample {
    type V = u64;

    /// The sample's bit pattern.
    closed spec fn view(&self) -> u64 {
        self.bits
    }
}

impl Sample {
    /// What holds of every sample: its number is less than [`LIMIT`].
    #[verifier::type_invariant]
    pub open spec fn admitted(self) -> bool {
        is_below(self@, LIMIT as nat)
    }

    /// Admits the number with the given pattern if it is less than [`LIMIT`].
    pub fn accept(bits: u64) -> (sample: Option<Sample>)
        ensures
            sample is Some <==> is_below(bits, LIMIT as nat),
            sample matches Some(s) ==> s@ == bits,
    {
        proof {
            lemma_admitted_patterns(bits);
        }
        if bits < LIMIT_PATTERN || (SIGN_BIT <= bits && bits <= NEGATIVE_INFINITY) {
            Some(Sample { bits })
        } else {
            None
        }
    }

    /// The sample's bit pattern, which is that of a number less than [`LIMIT`].
    pub fn to_bits(&self) -> (bits: u64)
        ensures
            bits == self@,
            is_below(bits, LIMIT as nat),
    {
        proof {
            use_type_invariant(self);
        }
        self.bits
    }
}

} // verus!
