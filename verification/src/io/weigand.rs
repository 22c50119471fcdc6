//! Validation and decoding of a completed Wiegand frame.
//!
//! Positions in a frame are counted in arrival order: position 0 is the first
//! bit received, which is the most significant bit of the 32-bit buffer.

use crate::io::bits::{get_bit_u32, get_bits_u32, low_mask, u32_bits};
use crate::io::frame::{bits_value, count_set, frame_bits, lemma_field_value, lemma_flip_position};
use vstd::prelude::*;

verus! {

/// The parity bit carried at the head of a frame, position 0.
pub open spec fn even_parity_bit(data: u32) -> bool {
    frame_bits(data)[0]
}

/// The even parity computed from a frame: whether the number of set bits at
/// positions 1 up to, but not including, 17 is even.
pub open spec fn even_parity_computed(data: u32) -> bool {
    count_set(frame_bits(data).subrange(1, 17)) % 2 == 0
}

/// The parity bit carried at the tail of a frame, position 31.
pub open spec fn odd_parity_bit(data: u32) -> bool {
    frame_bits(data)[31]
}

/// The odd parity computed from a frame: whether the number of set bits at
/// positions 18 up to, but not including, 30 is odd.
pub open spec fn odd_parity_computed(data: u32) -> bool {
    count_set(frame_bits(data).subrange(18, 30)) % 2 == 1
}

/// A frame is valid when each parity bit it carries equals the parity
/// computed over its range.
pub open spec fn parity_valid(data: u32) -> bool {
    even_parity_bit(data) == even_parity_computed(data) && odd_parity_bit(data)
        == odd_parity_computed(data)
}

/// What a credential holds, as plain numbers.
pub ghost struct Credential {
    pub facility_code: nat,
    pub card_number: nat,
}

/// The credential spelled by a frame: the facility code at positions 1 to 7
/// and the card number at positions 9 to 29, each read as a binary number.
pub open spec fn credential_of(data: u32) -> Credential {
    Credential {
        facility_code: bits_value(frame_bits(data).subrange(1, 8)),
        card_number: bits_value(frame_bits(data).subrange(9, 30)),
    }
}

/// Why a frame was rejected. `expected` is the parity bit that the frame
/// carries, `computed` the parity found over the bits it protects.
#[derive(Debug, Clone, Copy, PartialEq, Eq, Structural)]
pub enum WeigandError {
    /// The leading parity bit disagrees with positions 1 to 16.
    EvenParity { expected: bool, computed: bool },
    /// The leading parity bit is right and the trailing one disagrees with
    /// positions 18 to 29.
    OddParity { expected: bool, computed: bool },
}

/// What validation makes of a frame: its credential when both parity bits
/// are right, and otherwise the first check that failed, with the bit carried
/// and the parity computed.
pub open spec fn decode(data: u32) -> Result<Credential, WeigandError> {
    if even_parity_bit(data) != even_parity_computed(data) {
        Err(
            WeigandError::EvenParity {
                expected: even_parity_bit(data),
                computed: even_parity_computed(data),
            },
        )
    } else if odd_parity_bit(data) != odd_parity_computed(data) {
        Err(
            WeigandError::OddParity {
                expected: odd_parity_bit(data),
                computed: odd_parity_computed(data),
            },
        )
    } else {
        Ok(credential_of(data))
    }
}

/// A valid frame in which one of the two parity bits is inverted, or both
/// are, is not valid any more.
pub proof fn lemma_flipped_parity_bit_is_rejected(data: u32)
    requires
        parity_valid(data),
    ensures
        decode(data ^ 0x8000_0000u32) is Err,
        decode(data ^ 0x0000_0001u32) is Err,
        decode(data ^ 0x8000_0001u32) is Err,
{
    let bits = frame_bits(data);
    let head = data ^ 0x8000_0000u32;
    let tail = data ^ 0x0000_0001u32;
    let both = head ^ 0x0000_0001u32;
    assert(1u32 << 31u32 == 0x8000_0000u32) by (bit_vector);
    assert(1u32 << 0u32 == 0x0000_0001u32) by (bit_vector);
    assert(both == data ^ 0x8000_0001u32) by (bit_vector)
        requires
            both == (data ^ 0x8000_0000u32) ^ 0x0000_0001u32,
    ;
    lemma_flip_position(data, 0);
    lemma_flip_position(data, 31);
    lemma_flip_position(head, 31);
    // with the head inverted the positions under it are as they were
    assert(frame_bits(head).subrange(1, 17) == bits.subrange(1, 17));
    // with the tail inverted the positions under it are as they were
    assert(frame_bits(tail).subrange(18, 30) == bits.subrange(18, 30));
    assert(frame_bits(both).subrange(18, 30) == bits.subrange(18, 30));
}

/// A decoded credential: facility code and card number.
#[derive(Debug, Clone, Copy, PartialEq, Eq)]
pub struct Weigand {
    facility_code: u16,
    card_number: u32,
}

impl View for Weigand {
    type V = Credential;

    closed spec fn view(&self) -> Credential {
        Credential {
            facility_code: self.facility_code as nat,
            card_number: self.card_number as nat,
        }
    }
}

impl Weigand {
    /// A facility code has seven bits and a card number twenty-one.
    #[verifier::type_invariant]
    spec fn in_range(self) -> bool {
        self.facility_code < 0x80 && self.card_number < 0x20_0000
    }

    /// Validates a completed frame and decodes it. The frame is accepted
    /// exactly when both parity bits are right; a rejected frame yields no
    /// credential, and the error names the first check that failed.
    pub fn new(data: u32) -> (decoded: Result<Self, WeigandError>)
        ensures
            decoded.is_ok() <==> parity_valid(data),
            match decoded {
                Ok(credential) => decode(data) == Ok::<Credential, WeigandError>(credential@),
                Err(error) => decode(data) == Err::<Credential, WeigandError>(error),
            },
    {
        let parity_even = get_bit_u32(data, 31);
        let parity_odd = get_bit_u32(data, 0);

        let even_calc_bit = (Self::count_ones(data, 1, 17) % 2) == 0;
        let odd_calc_bit = (Self::count_ones(data, 18, 30) % 2) == 1;

        if parity_even != even_calc_bit {
            return Err(WeigandError::EvenParity { expected: parity_even, computed: even_calc_bit });
        }
        if parity_odd != odd_calc_bit {
            return Err(WeigandError::OddParity { expected: parity_odd, computed: odd_calc_bit });
        }
        Ok(Self::new_unchecked(data))
    }

    /// Decodes a frame without looking at its parity bits. Meant for
    /// placeholder values such as the all-zero frame; frames that arrive from
    /// a reader go through `new`.
    pub fn new_unchecked(data: u32) -> (credential: Self)
        ensures
            credential@ == credential_of(data),
    {
        let facility_bits = get_bits_u32(data, 24, 31);
        let card_number = get_bits_u32(data, 2, 23);
        proof {
            lemma_field_value(data, 1, 8);
            lemma_field_value(data, 9, 30);
            assert((data >> 24u32) & (((1u64 << 7u32) - 1) as u32) < 0x80) by (bit_vector);
            assert((data >> 2u32) & (((1u64 << 21u32) - 1) as u32) < 0x20_0000) by (bit_vector);
        }
        let facility_code = facility_bits as u16;
        Self { facility_code, card_number }
    }

    /// Counts the set bits of a frame at positions `start_index` up to, but
    /// not including, `end_index`.
    pub fn count_ones(data: u32, start_index: usize, end_index: usize) -> (ones: usize)
        requires
            start_index < end_index ==> end_index <= 32,
        ensures
            ones == if start_index < end_index {
                count_set(frame_bits(data).subrange(start_index as int, end_index as int))
            } else {
                0
            },
    {
        let mut counter: usize = 0;
        let mut i: usize = start_index;
        while i < end_index
            invariant
                start_index < end_index ==> end_index <= 32,
                start_index <= i,
                start_index < end_index ==> i <= end_index,
                counter <= i - start_index,
                start_index >= end_index ==> counter == 0,
                start_index < end_index ==> counter == count_set(
                    frame_bits(data).subrange(start_index as int, i as int),
                ),
            decreases end_index - i,
        {
            proof {
                let seen = frame_bits(data).subrange(start_index as int, i as int);
                let next = frame_bits(data).subrange(start_index as int, i + 1);
                assert(next.drop_last() =~= seen);
            }
            if get_bit_u32(data, 31 - i) {
                counter += 1;
            }
            i += 1;
        }
        counter
    }

    /// The facility code.
    pub fn get_facility_code(&self) -> (code: u16)
        ensures
            code == self@.facility_code,
            code < 0x80,
    {
        proof {
            use_type_invariant(self);
        }
        self.facility_code
    }

    /// The card number.
    pub fn get_card_number(&self) -> (number: u32)
        ensures
            number == self@.card_number,
            number < 0x20_0000,
    {
        proof {
            use_type_invariant(self);
        }
        self.card_number
    }
}

} // verus!
