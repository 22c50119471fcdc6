//! The mathematical model of a received frame: thirty-two bits in arrival
//! order, position 0 being the first bit on the wire and therefore the most
//! significant bit of the buffer that holds the frame.

use crate::io::bits::{u32_bit, u32_bits};
use vstd::prelude::*;

verus! {

/// The bits of `data` in arrival order.
pub open spec fn frame_bits(data: u32) -> Seq<bool> {
    Seq::new(32, |k: int| u32_bit(data, (31 - k) as usize))
}

/// How many of `bits` are set.
pub open spec fn count_set(bits: Seq<bool>) -> nat
    decreases bits.len(),
{
    if bits.len() == 0 {
        0
    } else {
        count_set(bits.drop_last()) + if bits.last() {
            1nat
        } else {
            0nat
        }
    }
}

/// The number that `bits` spell in binary, first bit most significant.
pub open spec fn bits_value(bits: Seq<bool>) -> nat
    decreases bits.len(),
{
    if bits.len() == 0 {
        0
    } else {
        2 * bits_value(bits.drop_last()) + if bits.last() {
            1nat
        } else {
            0nat
        }
    }
}

/// Whether an odd number of the bits of `value` are set.
pub open spec fn odd_ones(value: u32) -> bool {
    let by_halves = value ^ (value >> 16u32);
    let by_bytes = by_halves ^ (by_halves >> 8u32);
    let by_nibbles = by_bytes ^ (by_bytes >> 4u32);
    let by_pairs = by_nibbles ^ (by_nibbles >> 2u32);
    (by_pairs ^ (by_pairs >> 1u32)) & 1u32 == 1u32
}

/// A field that reaches one position further into the frame has twice the
/// value and the bit at the new position added.
proof fn lemma_field_step(data: u32, lo: int, hi: int)
    requires
        0 <= lo < hi <= 32,
    ensures
        u32_bits(data, (32 - hi) as usize, (32 - lo) as usize) == 2 * u32_bits(
            data,
            (33 - hi) as usize,
            (32 - lo) as usize,
        ) + if u32_bit(data, (32 - hi) as usize) {
            1int
        } else {
            0int
        },
        u32_bits(data, (33 - hi) as usize, (32 - lo) as usize) <= 0x7FFF_FFFF,
{
    let start: u32 = (32 - hi) as u32;
    let len: u32 = (hi - lo) as u32;
    let low: u32 = if data & (1u32 << start) != 0 {
        1
    } else {
        0
    };
    if len == 1 {
        assert((data >> start) & (((1u64 << 1u32) - 1) as u32) == low) by (bit_vector)
            requires
                start < 32,
                low == if data & (1u32 << start) != 0 {
                    1u32
                } else {
                    0u32
                },
        ;
    } else {
        let above: u32 = (start + 1) as u32;
        let shorter: u32 = (len - 1) as u32;
        assert((data >> start) & (((1u64 << len) - 1) as u32) == 2 * ((data >> above) & (((1u64
            << shorter) - 1) as u32)) + low && (data >> above) & (((1u64 << shorter) - 1) as u32)
            <= 0x7FFF_FFFFu32) by (bit_vector)
            requires
                start < 31,
                2 <= len,
                start + len <= 32,
                above == start + 1,
                shorter == len - 1,
                low == if data & (1u32 << start) != 0 {
                    1u32
                } else {
                    0u32
                },
        ;
    }
}

/// The positions `lo..hi` of a frame, read as a binary number, are the bits
/// `32 - hi .. 32 - lo` of the buffer shifted down to bit 0.
pub proof fn lemma_field_value(data: u32, lo: int, hi: int)
    requires
        0 <= lo <= hi <= 32,
    ensures
        bits_value(frame_bits(data).subrange(lo, hi)) == u32_bits(
            data,
            (32 - hi) as usize,
            (32 - lo) as usize,
        ),
    decreases hi - lo,
{
    let field = frame_bits(data).subrange(lo, hi);
    if lo < hi {
        lemma_field_value(data, lo, hi - 1);
        lemma_field_step(data, lo, hi);
        assert(field.drop_last() =~= frame_bits(data).subrange(lo, hi - 1));
    }
}

/// The number of set bits at the positions `lo..hi` of a frame is odd
/// exactly when the bits `32 - hi .. 32 - lo` of the buffer hold an odd
/// number of ones.
pub proof fn lemma_count_parity(data: u32, lo: int, hi: int)
    requires
        0 <= lo <= hi <= 32,
    ensures
        (count_set(frame_bits(data).subrange(lo, hi)) % 2 == 1) == odd_ones(
            u32_bits(data, (32 - hi) as usize, (32 - lo) as usize),
        ),
    decreases hi - lo,
{
    let field = frame_bits(data).subrange(lo, hi);
    if lo < hi {
        lemma_count_parity(data, lo, hi - 1);
        lemma_field_step(data, lo, hi);
        assert(field.drop_last() =~= frame_bits(data).subrange(lo, hi - 1));
        let whole = u32_bits(data, (32 - hi) as usize, (32 - lo) as usize);
        let shorter = u32_bits(data, (33 - hi) as usize, (32 - lo) as usize);
        let low: u32 = if field.last() {
            1
        } else {
            0
        };
        assert(odd_ones(whole) == (odd_ones(shorter) != (low == 1))) by (bit_vector)
            requires
                whole == 2 * shorter + low,
                shorter <= 0x7FFF_FFFFu32,
                low <= 1,
        ;
    } else {
        assert(!odd_ones(0u32)) by (bit_vector);
    }
}

/// A frame is the number that its bits spell.
pub proof fn lemma_frame_value(data: u32)
    ensures
        bits_value(frame_bits(data)) == data,
{
    lemma_field_value(data, 0, 32);
    assert(frame_bits(data).subrange(0, 32) =~= frame_bits(data));
    assert((data >> 0u32) & (((1u64 << 32u32) - 1) as u32) == data) by (bit_vector);
}

/// Inverting the bit of the buffer that holds position `position` inverts
/// that position of the frame and leaves every other position as it was.
pub proof fn lemma_flip_position(data: u32, position: int)
    requires
        0 <= position < 32,
    ensures
        frame_bits(data ^ (1u32 << ((31 - position) as u32))) == frame_bits(data).update(
            position,
            !frame_bits(data)[position],
        ),
{
    let at: u32 = (31 - position) as u32;
    let flipped = data ^ (1u32 << at);
    assert forall|k: int| 0 <= k < 32 implies #[trigger] frame_bits(flipped)[k] == frame_bits(
        data,
    ).update(position, !frame_bits(data)[position])[k] by {
        let j: u32 = (31 - k) as u32;
        assert(((data ^ (1u32 << at)) & (1u32 << j) != 0) == (if j == at {
            !(data & (1u32 << j) != 0)
        } else {
            data & (1u32 << j) != 0
        })) by (bit_vector)
            requires
                j < 32,
                at < 32,
        ;
    }
}

} // verus!
