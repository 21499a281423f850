//! Conversions between Rust lengths and the 32-bit lengths of typed arrays.
use vstd::prelude::*;

use crate::throw::Throw;

verus! {

/// `value` as a 32-bit length, where it is one.
pub open spec fn cast_to_u32(value: usize) -> Result<u32, Throw> {
    if value <= u32::MAX {
        Ok(value as u32)
    } else {
        Err(Throw::TooLarge)
    }
}

/// The largest `usize` that is no larger than `value`.
pub open spec fn clamped_to_usize(value: u32) -> usize {
    if value <= usize::MAX {
        value as usize
    } else {
        usize::MAX
    }
}

/// Converts a length to 32 bits, and throws where that would change it.
pub fn checked_cast_to_u32(value: usize) -> (cast: Result<u32, Throw>)
    ensures
        cast == cast_to_u32(value),
        cast matches Ok(v) ==> v as int == value as int,
{
    if value <= u32::MAX as usize {
        Ok(value as u32)
    } else {
        Err(Throw::TooLarge)
    }
}

/// Converts a 32-bit length to a `usize`, at most `usize::MAX`.
pub fn clamp_to_usize(value: u32) -> (clamped: usize)
    ensures
        clamped == clamped_to_usize(value),
        clamped as int == value as int,
{
    value as usize
}

/// No part of a typed array is too long: a length up to that of a 32-bit view
/// converts back to 32 bits.
pub proof fn lengths_within_a_view_fit(view_len: u32, len: usize)
    requires
        len <= clamped_to_usize(view_len),
    ensures
        cast_to_u32(len) == Ok::<u32, Throw>(len as u32),
        len as u32 <= view_len,
{
}

/// A length converts to 32 bits if and only if it is at most the largest 32-bit
/// number, and then to the same number; any other length is too large.
pub proof fn exactly_lengths_of_32_bits_convert(len: usize)
    ensures
        len <= u32::MAX <==> cast_to_u32(len) is Ok,
        cast_to_u32(len) matches Ok(cast) ==> cast as int == len as int,
        cast_to_u32(len) matches Err(throw) ==> throw == Throw::TooLarge,
{
}

/// A 32-bit length converts to the same number.
pub proof fn view_lengths_convert_unchanged(view_len: u32)
    ensures
        clamped_to_usize(view_len) as int == view_len as int,
{
}

} // verus!
