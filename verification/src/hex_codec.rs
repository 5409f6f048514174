//! Hex decoding of contract bytecode, as done by the `hex` crate.

use vstd::prelude::*;
use vstd::string::*;

verus! {

/// Why a hex text could not be decoded.
#[derive(Debug, Clone, Copy, PartialEq, Eq, Structural)]
pub enum HexError {
    /// The text holds an odd number of bytes.
    OddLength,
    /// The byte at `index` is not a hex digit; `c` is that byte read as a character.
    InvalidHexCharacter { c: char, index: usize },
    /// The text does not fit the output's length (never reported by decoding
    /// into a fresh vector).
    InvalidStringLength,
}

/// A byte that is an ASCII hex digit, in either case.
pub open spec fn is_hex_digit(b: u8) -> bool {
    (0x30 <= b <= 0x39) || (0x41 <= b <= 0x46) || (0x61 <= b <= 0x66)
}

/// The value of an ASCII hex digit.
pub open spec fn hex_digit_value(b: u8) -> int {
    if 0x30 <= b <= 0x39 {
        b - 0x30
    } else if 0x41 <= b <= 0x46 {
        b - 0x41 + 10
    } else {
        b - 0x61 + 10
    }
}

/// Every byte of `data` is a hex digit.
pub open spec fn all_hex_digits(data: Seq<u8>) -> bool {
    forall|i: int| 0 <= i < data.len() ==> is_hex_digit(#[trigger] data[i])
}

/// The position of the first byte of `data`, from `i` on, that is not a hex
/// digit; `data.len()` where there is none.
pub open spec fn first_non_hex_digit_from(data: Seq<u8>, i: int) -> int
    decreases data.len() - i,
{
    if i < 0 || i >= data.len() {
        data.len() as int
    } else if !is_hex_digit(data[i]) {
        i
    } else {
        first_non_hex_digit_from(data, i + 1)
    }
}

/// The bytes that a text of hex digit pairs stands for: each pair, high digit first.
pub open spec fn hex_decoded(data: Seq<u8>) -> Seq<u8> {
    Seq::new(
        (data.len() / 2) as nat,
        |i: int| (16 * hex_digit_value(data[2 * i]) + hex_digit_value(data[2 * i + 1])) as u8,
    )
}

/// What decoding the hex text `data` gives: an odd length is reported before
/// any bad digit; a bad digit is reported at the first position where it
/// occurs, with the byte read as a character; otherwise each pair of digits
/// (either case) gives one byte, high digit first.
pub open spec fn hex_decode_result(data: Seq<u8>) -> Result<Seq<u8>, HexError> {
    let k = first_non_hex_digit_from(data, 0);
    if data.len() % 2 == 1 {
        Err(HexError::OddLength)
    } else if k < data.len() {
        Err(HexError::InvalidHexCharacter { c: data[k] as char, index: k as usize })
    } else {
        Ok(hex_decoded(data))
    }
}

/// A decoding result, with the bytes taken by their view.
pub open spec fn decode_outcome(r: Result<Vec<u8>, HexError>) -> Result<Seq<u8>, HexError> {
    match r {
        Ok(v) => Ok(v@),
        Err(e) => Err(e),
    }
}

/// `hex::decode` on the bytes `data`, whose behaviour `hex_decode_result` states.
#[verifier::external_body]
pub fn hex_decode(data: &[u8]) -> (r: Result<Vec<u8>, HexError>)
    ensures
        decode_outcome(r) == hex_decode_result(data@),
{
    hex::decode(data).map_err(|e| match e {
        hex::FromHexError::OddLength => HexError::OddLength,
        hex::FromHexError::InvalidHexCharacter { c, index } => HexError::InvalidHexCharacter { c, index },
        hex::FromHexError::InvalidStringLength => HexError::InvalidStringLength,
    })
}

/// From `i` on, the search finds no bad digit exactly when there is none.
pub proof fn lemma_first_non_hex_digit_from(data: Seq<u8>, i: int)
    requires
        0 <= i <= data.len(),
    ensures
        i <= first_non_hex_digit_from(data, i) <= data.len(),
        (first_non_hex_digit_from(data, i) == data.len()) <==> (forall|j: int| i <= j < data.len() ==> is_hex_digit(#[trigger] data[j])),
    decreases data.len() - i,
{
    if i < data.len() {
        lemma_first_non_hex_digit_from(data, i + 1);
    }
}

/// Decoding succeeds exactly on a text of an even number of bytes that are
/// all hex digits, and then gives one byte per pair of digits.
pub proof fn lemma_hex_decode_succeeds_iff(data: Seq<u8>)
    ensures
        (hex_decode_result(data) is Ok) <==> (data.len() % 2 == 0 && all_hex_digits(data)),
        hex_decode_result(data) matches Ok(b) ==> 2 * b.len() == data.len(),
{
    lemma_first_non_hex_digit_from(data, 0);
}

/// Decodes the hex text of a contract's bytecode (its UTF-8 bytes, as read from a file).
pub fn decode_bytecode_hex(text: &str) -> (r: Result<Vec<u8>, HexError>)
    ensures
        decode_outcome(r) == hex_decode_result(text.spec_bytes()),
{
    hex_decode(text.as_bytes())
}

} // verus!
