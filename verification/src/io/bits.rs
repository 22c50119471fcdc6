//! Single-bit and bit-range access to machine integers, provided by the
//! `bit_field` crate. Bit 0 is always the least significant bit.

use bit_field::BitField;
use vstd::prelude::*;

verus! {

/// The `len` lowest bits set, for `len <= 32`.
pub open spec fn low_mask(len: usize) -> u32 {
    ((1u64 << len) - 1) as u32
}

/// Whether bit `bit` of a 32-bit value is set.
pub open spec fn u32_bit(value: u32, bit: usize) -> bool {
    value & (1u32 << bit) != 0
}

/// Whether bit `bit` of a 16-bit value is set.
pub open spec fn u16_bit(value: u16, bit: usize) -> bool {
    value & (1u16 << bit) != 0
}

/// The bits `start..end` of a 32-bit value, moved down so that bit `start`
/// becomes bit 0.
pub open spec fn u32_bits(value: u32, start: usize, end: usize) -> u32 {
    if start >= end {
        0
    } else {
        (value >> start) & low_mask((end - start) as usize)
    }
}

/// A 64-bit value with bit `bit` forced to `set` and every other bit kept.
pub open spec fn u64_with_bit(value: u64, bit: usize, set: bool) -> u64 {
    if set {
        value | (1u64 << bit)
    } else {
        value & !(1u64 << bit)
    }
}

/// `BitField::get_bit` of `bit_field` on a `u32`. Trusted: the result is
/// taken to be the test of `value` against the single-bit mask `1 << bit`.
/// The crate panics for `bit >= 32`, which the precondition excludes.
#[verifier::external_body]
pub(crate) fn get_bit_u32(value: u32, bit: usize) -> (set: bool)
    requires
        bit < 32,
    ensures
        set == u32_bit(value, bit),
{
    value.get_bit(bit)
}

/// `BitField::get_bit` of `bit_field` on a `u16`. Trusted: the result is
/// taken to be the test of `value` against the single-bit mask `1 << bit`.
/// The crate panics for `bit >= 16`, which the precondition excludes.
#[verifier::external_body]
pub(crate) fn get_bit_u16(value: u16, bit: usize) -> (set: bool)
    requires
        bit < 16,
    ensures
        set == u16_bit(value, bit),
{
    value.get_bit(bit)
}

/// `BitField::get_bits` of `bit_field` on a `u32`, for the half-open range
/// `start..end`. Trusted: the result is taken to be the selected bits
/// shifted down to bit 0, and zero for an empty range. The crate panics
/// unless `start < 32`, `end <= 32` and `start <= end`.
#[verifier::external_body]
pub(crate) fn get_bits_u32(value: u32, start: usize, end: usize) -> (field: u32)
    requires
        start < 32,
        start <= end <= 32,
    ensures
        field == u32_bits(value, start, end),
{
    value.get_bits(start..end)
}

/// `BitField::set_bit` of `bit_field` on a `u64`. Trusted: afterwards the
/// value has bit `bit` equal to `set` and is otherwise unchanged. The crate
/// panics for `bit >= 64`, which the precondition excludes.
#[verifier::external_body]
pub(crate) fn set_bit_u64(value: &mut u64, bit: usize, set: bool)
    requires
        bit < 64,
    ensures
        *final(value) == u64_with_bit(*old(value), bit, set),
{
    value.set_bit(bit, set);
}

} // verus!
