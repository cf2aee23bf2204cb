//! Elevation samples. A sample is carried as the IEEE-754 binary32 bit pattern
//! of its value, so that bounds and the sea-level test are integer comparisons:
//! among the patterns of non-negative numbers the integer order is the numeric
//! order.

use vstd::prelude::*;

verus! {

/// Bit pattern of `0.5`, the sea level.
pub const SEA_LEVEL_BITS: u32 = 0x3F00_0000;

/// Bit pattern of `1.0`.
pub const ONE_BITS: u32 = 0x3F80_0000;

/// Bit pattern of positive infinity, the largest pattern that is a number.
pub const INFINITY_BITS: u32 = 0x7F80_0000;

/// Bit pattern of negative zero, which compares equal to zero.
pub const NEGATIVE_ZERO_BITS: u32 = 0x8000_0000;

/// The sample lies in `[0.0, 1.0]`.
pub open spec fn in_unit_interval(bits: u32) -> bool {
    bits <= ONE_BITS || bits == NEGATIVE_ZERO_BITS
}

/// The sample is a number strictly greater than the sea level.
pub open spec fn above_sea_level(bits: u32) -> bool {
    SEA_LEVEL_BITS < bits <= INFINITY_BITS
}

/// Bit pattern of negative infinity, the largest pattern of a negative number.
pub const NEGATIVE_INFINITY_BITS: u32 = 0xFF80_0000;

/// The sample is a number that is not greater than the sea level: a
/// non-negative one up to the sea level, or a negative one.
pub open spec fn at_or_below_sea_level(bits: u32) -> bool {
    bits <= SEA_LEVEL_BITS || NEGATIVE_ZERO_BITS <= bits <= NEGATIVE_INFINITY_BITS
}

/// A heightmap of `cells` samples, each in `[0.0, 1.0]`.
pub open spec fn heights_valid(heights: Seq<u32>, cells: nat) -> bool {
    &&& heights.len() == cells
    &&& forall|i: int| 0 <= i < heights.len() ==> in_unit_interval(#[trigger] heights[i])
}

/// Executable form of `in_unit_interval`.
pub fn is_in_unit_interval(bits: u32) -> (inside: bool)
    ensures
        inside == in_unit_interval(bits),
{
    bits <= ONE_BITS || bits == NEGATIVE_ZERO_BITS
}

/// Executable form of `above_sea_level`.
pub fn is_above_sea_level(bits: u32) -> (above: bool)
    ensures
        above == above_sea_level(bits),
{
    SEA_LEVEL_BITS < bits && bits <= INFINITY_BITS
}

/// Decides whether `heights` is a valid heightmap of `cells` samples.
pub fn check_heights(heights: &Vec<u32>, cells: usize) -> (ok: bool)
    ensures
        ok == heights_valid(heights@, cells as nat),
{
    if heights.len() != cells {
        return false;
    }
    let mut i: usize = 0;
    while i < heights.len()
        invariant
            i <= heights.len(),
            forall|j: int| 0 <= j < i ==> in_unit_interval(#[trigger] heights@[j]),
        decreases heights.len() - i,
    {
        if !is_in_unit_interval(heights[i]) {
            return false;
        }
        i += 1;
    }
    true
}

} // verus!
