//! Key identifiers in the hexadecimal notation of the earlier door hardware.
//!
//! A legacy identifier is a string of hexadecimal digits. Its first four
//! characters are a header that is not part of the number printed on a key
//! fob; the four bytes that follow are the identifier, most significant byte
//! first.

use byteorder::{BigEndian, ByteOrder};
use vstd::prelude::*;

verus! {

/// Number of characters of the header that precedes the identifier.
pub const HEADER_CHARS: usize = 4;

/// Why a legacy identifier could not be decoded.
#[derive(Debug, Clone, Copy, PartialEq, Eq, Structural)]
pub enum HexError {
    /// The string is shorter than the header.
    MissingHeader,
    /// The digits after the header do not pair up into bytes.
    OddLength,
    /// The character at position `index` after the header is not a
    /// hexadecimal digit, and every character before it is.
    InvalidDigit { index: usize },
    /// Fewer than four bytes follow the header.
    TooShort,
}

/// The value of a hexadecimal digit, in either case.
pub open spec fn hex_digit_value(c: char) -> Option<u8> {
    if '0' <= c <= '9' {
        Some((c as int - '0' as int) as u8)
    } else if 'a' <= c <= 'f' {
        Some((c as int - 'a' as int + 10) as u8)
    } else if 'A' <= c <= 'F' {
        Some((c as int - 'A' as int + 10) as u8)
    } else {
        None
    }
}

/// How many hexadecimal digits `s` begins with.
pub open spec fn hex_prefix_len(s: Seq<char>) -> nat
    decreases s.len(),
{
    if s.len() == 0 || hex_digit_value(s[0]).is_none() {
        0
    } else {
        1 + hex_prefix_len(s.drop_first())
    }
}

/// The byte that two hexadecimal digits spell.
pub open spec fn hex_pair_value(high: char, low: char) -> u8 {
    (16 * hex_digit_value(high).unwrap() + hex_digit_value(low).unwrap()) as u8
}

/// The bytes that a string of hexadecimal digits spells, two digits to a byte.
pub open spec fn hex_bytes(s: Seq<char>) -> Seq<u8> {
    Seq::new(s.len() / 2, |i: int| hex_pair_value(s[2 * i], s[2 * i + 1]))
}

/// What decoding makes of a string of digits: its bytes, unless the digits
/// do not pair up or one of them is no hexadecimal digit.
pub open spec fn decoded_hex(s: Seq<char>) -> Result<Seq<u8>, HexError> {
    if s.len() % 2 != 0 {
        Err(HexError::OddLength)
    } else if hex_prefix_len(s) < s.len() {
        Err(HexError::InvalidDigit { index: hex_prefix_len(s) as usize })
    } else {
        Ok(hex_bytes(s))
    }
}

/// The 32-bit number whose bytes, most significant first, are the four given.
pub open spec fn be_u32(b0: u8, b1: u8, b2: u8, b3: u8) -> u32 {
    (b0 * 0x100_0000 + b1 * 0x1_0000 + b2 * 0x100 + b3) as u32
}

/// The identifier that a legacy string stands for.
pub open spec fn legacy_id(s: Seq<char>) -> Result<u64, HexError> {
    if s.len() < HEADER_CHARS {
        Err(HexError::MissingHeader)
    } else {
        match decoded_hex(s.subrange(HEADER_CHARS as int, s.len() as int)) {
            Err(error) => Err(error),
            Ok(bytes) => if bytes.len() < 4 {
                Err(HexError::TooShort)
            } else {
                Ok(be_u32(bytes[0], bytes[1], bytes[2], bytes[3]) as u64)
            },
        }
    }
}

/// `hex_prefix_len` counts up to the first character that is no digit.
pub proof fn lemma_hex_prefix_len(s: Seq<char>, n: int)
    requires
        0 <= n <= s.len(),
        forall|j: int| 0 <= j < n ==> hex_digit_value(#[trigger] s[j]).is_some(),
        n < s.len() ==> hex_digit_value(s[n]).is_none(),
    ensures
        hex_prefix_len(s) == n,
    decreases n,
{
    if n > 0 {
        let rest = s.drop_first();
        assert forall|j: int| 0 <= j < n - 1 implies hex_digit_value(#[trigger] rest[j]).is_some() by {
            assert(rest[j] == s[j + 1]);
        }
        lemma_hex_prefix_len(rest, n - 1);
    }
}

/// `ByteOrder::read_u32` of `byteorder` for `BigEndian`. Trusted: the result
/// is taken to be the number whose big-endian bytes are the first four of
/// `buf`. The crate panics on fewer than four bytes, which the precondition
/// excludes.
#[verifier::external_body]
fn read_u32_be(buf: &[u8]) -> (value: u32)
    requires
        buf@.len() >= 4,
    ensures
        value == be_u32(buf@[0], buf@[1], buf@[2], buf@[3]),
{
    BigEndian::read_u32(buf)
}

/// The value of the hexadecimal digit `c`, if it is one.
pub fn hex_digit(c: char) -> (value: Option<u8>)
    ensures
        value == hex_digit_value(c),
{
    if '0' <= c && c <= '9' {
        Some(c as u8 - 0x30)
    } else if 'a' <= c && c <= 'f' {
        Some(c as u8 - 0x61 + 10)
    } else if 'A' <= c && c <= 'F' {
        Some(c as u8 - 0x41 + 10)
    } else {
        None
    }
}

/// Decodes a string of hexadecimal digits into bytes, two digits to a byte.
/// Fails on an odd number of characters, and otherwise on the first
/// character that is no hexadecimal digit.
pub fn decode_hex(s: &str) -> (decoded: Result<Vec<u8>, HexError>)
    ensures
        match decoded {
            Ok(bytes) => decoded_hex(s@) == Ok::<Seq<u8>, HexError>(bytes@),
            Err(error) => decoded_hex(s@) == Err::<Seq<u8>, HexError>(error),
        },
{
    let len = s.unicode_len();
    if len % 2 != 0 {
        return Err(HexError::OddLength);
    }
    let mut bytes: Vec<u8> = Vec::new();
    let mut high: Option<u8> = None;
    let mut index: usize = 0;
    for c in digits: s.chars()
        invariant
            len == s@.len(),
            len % 2 == 0,
            digits.seq() == s@,
            index == digits.index(),
            forall|j: int| 0 <= j < index ==> hex_digit_value(#[trigger] s@[j]).is_some(),
            bytes@.len() == index / 2,
            forall|i: int|
                0 <= i < bytes@.len() ==> bytes@[i] == hex_pair_value(s@[2 * i], s@[2 * i + 1]),
            high == if index % 2 == 1 {
                hex_digit_value(s@[index - 1])
            } else {
                None
            },
    {
        match hex_digit(c) {
            None => {
                proof {
                    lemma_hex_prefix_len(s@, index as int);
                }
                return Err(HexError::InvalidDigit { index });
            },
            Some(low) => match high {
                None => {
                    high = Some(low);
                },
                Some(upper) => {
                    bytes.push(upper * 16 + low);
                    high = None;
                },
            },
        }
        index += 1;
    }
    proof {
        lemma_hex_prefix_len(s@, len as int);
        assert(bytes@ =~= hex_bytes(s@));
    }
    Ok(bytes)
}

/// Converts an identifier in the notation of the earlier door hardware to
/// the number printed on the key fob: the four header characters are
/// dropped, the rest is decoded as hexadecimal, and the first four bytes are
/// read as a big-endian number.
pub fn old_door_pi_hex_str_to_rfid(hex_str: &str) -> (rfid: Result<u64, HexError>)
    ensures
        rfid == legacy_id(hex_str@),
{
    let len = hex_str.unicode_len();
    if len < HEADER_CHARS {
        return Err(HexError::MissingHeader);
    }
    let digits = hex_str.substring_char(HEADER_CHARS, len);
    match decode_hex(digits) {
        Err(error) => Err(error),
        Ok(bytes) => {
            if bytes.len() < 4 {
                Err(HexError::TooShort)
            } else {
                let rfid_value: u64 = read_u32_be(bytes.as_slice()) as u64;
                Ok(rfid_value)
            }
        },
    }
}

} // verus!
