//! Weights from 0 to 1, each as the bits of the double that stands for it.

use vstd::prelude::*;

verus! {

/// The bits of 0.02.
pub const FIFTIETH: u64 = 0x3f94_7ae1_47ae_147b;

/// The bits of 0.05.
pub const TWENTIETH: u64 = 0x3fa9_9999_9999_999a;

/// 0.1.
pub const TENTH: u64 = 0x3fb9_9999_9999_999a;

/// 0.2.
pub const FIFTH: u64 = 0x3fc9_9999_9999_999a;

/// 0.3.
pub const THREE_TENTHS: u64 = 0x3fd3_3333_3333_3333;

/// 0.4.
pub const TWO_FIFTHS: u64 = 0x3fd9_9999_9999_999a;

/// 0.5.
pub const HALF: u64 = 0x3fe0_0000_0000_0000;

/// 0.6.
pub const THREE_FIFTHS: u64 = 0x3fe3_3333_3333_3333;

/// 0.7.
pub const SEVEN_TENTHS: u64 = 0x3fe6_6666_6666_6666;

/// 0.75.
pub const THREE_QUARTERS: u64 = 0x3fe8_0000_0000_0000;

/// 0.8.
pub const FOUR_FIFTHS: u64 = 0x3fe9_9999_9999_999a;

/// 0.85.
pub const SEVENTEEN_TWENTIETHS: u64 = 0x3feb_3333_3333_3333;

/// 0.9.
pub const NINE_TENTHS: u64 = 0x3fec_cccc_cccc_cccd;

/// 0.95.
pub const NINETEEN_TWENTIETHS: u64 = 0x3fee_6666_6666_6666;

/// 1.0.
pub const ONE: u64 = 0x3ff0_0000_0000_0000;

/// The bits of infinity; above them, up to the bits of minus 0, is no number.
pub const INFINITY: u64 = 0x7ff0_0000_0000_0000;

/// The bits of minus 0, above which the negative numbers are.
pub const MINUS_ZERO: u64 = 0x8000_0000_0000_0000;

/// The bits of minus infinity; above them is no number.
pub const MINUS_INFINITY: u64 = 0xfff0_0000_0000_0000;

/// The bits without the sign.
pub open spec fn magnitude(bits: u64) -> u64 {
    if bits >= MINUS_ZERO {
        (bits - MINUS_ZERO) as u64
    } else {
        bits
    }
}

/// The bits stand for a number.
pub open spec fn is_number(bits: u64) -> bool {
    magnitude(bits) <= INFINITY
}

/// A rank by which numbers are ordered as their bits are: what is no number
/// ranks with 0.
pub open spec fn rank_of(bits: u64) -> i64 {
    if !is_number(bits) {
        0
    } else if bits >= MINUS_ZERO {
        -magnitude(bits) as i64
    } else {
        bits as i64
    }
}

/// A rank by which numbers are ordered as their bits are.
pub fn rank(bits: u64) -> (r: i64)
    ensures
        r == rank_of(bits),
{
    let m: u64 = if bits >= MINUS_ZERO {
        bits - MINUS_ZERO
    } else {
        bits
    };
    if m > INFINITY {
        0
    } else if bits >= MINUS_ZERO {
        -(m as i64)
    } else {
        bits as i64
    }
}

/// The larger of two numbers; where one of them is none, the other.
pub open spec fn larger_of(a: u64, b: u64) -> u64 {
    if !is_number(a) {
        b
    } else if !is_number(b) {
        a
    } else if rank_of(a) < rank_of(b) {
        b
    } else {
        a
    }
}

/// Whether the bits stand for a number.
pub fn number_bits(bits: u64) -> (r: bool)
    ensures
        r == is_number(bits),
{
    if bits >= MINUS_ZERO {
        bits - MINUS_ZERO <= INFINITY
    } else {
        bits <= INFINITY
    }
}

/// The larger of two numbers; where one of them is none, the other.
pub fn larger(a: u64, b: u64) -> (r: u64)
    ensures
        r == larger_of(a, b),
{
    if !number_bits(a) {
        b
    } else if !number_bits(b) {
        a
    } else if rank(a) < rank(b) {
        b
    } else {
        a
    }
}

/// The weight nearest to a number: weights go from 0.1 to 1. What is no number
/// stays.
pub open spec fn weight_within(bits: u64) -> u64 {
    if TENTH <= bits <= ONE {
        bits
    } else if ONE < bits <= INFINITY {
        ONE
    } else if bits < TENTH || MINUS_ZERO <= bits <= MINUS_INFINITY {
        TENTH
    } else {
        bits
    }
}

/// The weight nearest to a number.
pub fn clamp_weight(bits: u64) -> (r: u64)
    ensures
        r == weight_within(bits),
{
    if TENTH <= bits && bits <= ONE {
        bits
    } else if ONE < bits && bits <= INFINITY {
        ONE
    } else if bits < TENTH || (MINUS_ZERO <= bits && bits <= MINUS_INFINITY) {
        TENTH
    } else {
        bits
    }
}

} // verus!
