//! Unsigned counters as the protocol's signed integers carry them.

use vstd::prelude::*;

verus! {

/// The signed integer with the bits of `x`.
pub open spec fn signed_bits(x: u32) -> i32 {
    if x <= i32::MAX as u32 {
        x as i32
    } else {
        (x as int - 0x1_0000_0000) as i32
    }
}

/// The unsigned integer with the bits of `x`.
pub open spec fn unsigned_bits(x: i32) -> u32 {
    if x >= 0 {
        x as u32
    } else {
        (x as int + 0x1_0000_0000) as u32
    }
}

/// The signed integer with the bits of `x`.
pub fn to_signed(x: u32) -> (r: i32)
    ensures
        r == signed_bits(x),
{
    if x <= i32::MAX as u32 {
        x as i32
    } else {
        (x as i64 - 0x1_0000_0000) as i32
    }
}

/// The unsigned integer with the bits of `x`.
pub fn to_unsigned(x: i32) -> (r: u32)
    ensures
        r == unsigned_bits(x),
{
    if x >= 0 {
        x as u32
    } else {
        (x as i64 + 0x1_0000_0000) as u32
    }
}

/// The two conversions undo each other.
pub proof fn lemma_bits_round_trip(x: u32, y: i32)
    ensures
        unsigned_bits(signed_bits(x)) == x,
        signed_bits(unsigned_bits(y)) == y,
        (signed_bits(x) == 0) == (x == 0),
{
}

} // verus!
