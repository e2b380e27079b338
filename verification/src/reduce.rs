//! The boolean reducer: collapses a 64-bit generator output to one bit.

use vstd::prelude::*;

verus! {

/// The largest value that reduces to bit `0`: `u64::MAX / 2`, that is `2^63 - 1`.
pub const HALF: u64 = 9223372036854775807;

/// The bit that a 64-bit value reduces to: `0` up to and including [`HALF`], `1` above it.
pub open spec fn reduce_spec(x: u64) -> u64 {
    if x <= HALF {
        0
    } else {
        1
    }
}

/// Reduces a 64-bit value to a single bit by comparing it with [`HALF`].
pub fn reduce(x: u64) -> (bit: u64)
    ensures
        bit == reduce_spec(x),
{
    if x <= HALF {
        0
    } else {
        1
    }
}

/// The bit is the most significant bit of the value: the values that reduce
/// to `0` are exactly those below `2^63`.
pub proof fn lemma_reduce_is_top_bit(x: u64)
    ensures
        reduce_spec(x) == x >> 63,
        reduce_spec(x) == 0 <==> x < 0x8000_0000_0000_0000,
{
    assert(x <= 9223372036854775807u64 ==> x >> 63 == 0) by (bit_vector);
    assert(x > 9223372036854775807u64 ==> x >> 63 == 1) by (bit_vector);
}

} // verus!
