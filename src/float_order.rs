//! Binary64 values carried as their bit patterns (`f64::to_bits`), with the
//! IEEE 754 total order and the NaN test read directly off the bits.
use vstd::prelude::*;

verus! {

/// The sign bit of a binary64 pattern.
pub const SIGN_BIT: u64 = 0x8000_0000_0000_0000;

/// The pattern of positive infinity: every exponent bit set, no fraction bit.
pub const INFINITY_BITS: u64 = 0x7ff0_0000_0000_0000;

/// A pattern is a NaN when, sign aside, it lies above infinity: all exponent
/// bits set and a nonzero fraction.
pub open spec fn is_nan_bits(bits: u64) -> bool {
    bits % SIGN_BIT > INFINITY_BITS
}

/// Position of a pattern in the IEEE 754 total order, as an integer.
/// Patterns with a clear sign bit keep their value; those with the sign bit set
/// are mapped below them, in reverse, so that `-0.0` sits just under `+0.0`.
pub open spec fn total_key(bits: u64) -> int {
    if bits < SIGN_BIT {
        bits as int
    } else {
        SIGN_BIT as int - 1 - bits as int
    }
}

/// The total order tells every pattern apart.
pub proof fn lemma_total_key_injective(a: u64, b: u64)
    ensures
        total_key(a) == total_key(b) <==> a == b,
{
}

/// Whether the pattern is a NaN.
pub fn is_nan(bits: u64) -> (r: bool)
    ensures
        r == is_nan_bits(bits),
{
    bits % SIGN_BIT > INFINITY_BITS
}

/// The pattern's position in the total order, as a signed integer.
pub fn order_key(bits: u64) -> (k: i64)
    ensures
        k as int == total_key(bits),
{
    if bits < SIGN_BIT {
        bits as i64
    } else {
        let magnitude = (bits - SIGN_BIT) as i64;
        -magnitude - 1
    }
}

/// Position of a pattern in the order that IEEE comparison gives to numbers:
/// the total order, except that `-0.0` and `+0.0` are one value.
pub open spec fn numeric_key(bits: u64) -> int {
    if bits == SIGN_BIT {
        0
    } else {
        total_key(bits)
    }
}

/// The pattern's position in the numeric order, as a signed integer.
pub fn value_key(bits: u64) -> (k: i64)
    ensures
        k as int == numeric_key(bits),
{
    if bits == SIGN_BIT {
        0
    } else {
        order_key(bits)
    }
}

} // verus!
