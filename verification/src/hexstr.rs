//! Lower-case hex encoding and hex decoding, computed by the `hex` crate.

use vstd::prelude::*;
use crate::text::digit_char;

verus! {

/// The lower-case hex digit for a value in `0..16`.
pub open spec fn hex_digit(v: int) -> char {
    if v < 10 {
        digit_char(v)
    } else if v == 10 {
        'a'
    } else if v == 11 {
        'b'
    } else if v == 12 {
        'c'
    } else if v == 13 {
        'd'
    } else if v == 14 {
        'e'
    } else {
        'f'
    }
}

/// Two lower-case hex digits per byte, high nibble first.
pub open spec fn hex_encode_spec(b: Seq<u8>) -> Seq<char> {
    Seq::new(
        2 * b.len(),
        |i: int| if i % 2 == 0 { hex_digit(b[i / 2] as int / 16) } else { hex_digit(b[i / 2] as int % 16) },
    )
}

/// Errors of hex decoding.
#[derive(Debug, Clone, Copy, PartialEq, Eq, Structural)]
pub enum HexError {
    /// A byte that is not one of `0-9`, `a-f`, `A-F`, with its position.
    InvalidHexCharacter { c: char, index: usize },
    /// The input has an odd number of bytes.
    OddLength,
    /// The decoded bytes do not have the expected length.
    InvalidStringLength,
}

/// The value of a hex digit byte, or -1 for any other byte.
pub open spec fn hex_value(c: u8) -> int {
    if 48 <= c <= 57 {
        c - 48
    } else if 97 <= c <= 102 {
        c - 87
    } else if 65 <= c <= 70 {
        c - 55
    } else {
        -1
    }
}

/// Whether a byte is a hex digit.
pub open spec fn is_hex_byte(c: u8) -> bool {
    hex_value(c) >= 0
}

/// Whether every byte is a hex digit.
pub open spec fn all_hex(b: Seq<u8>) -> bool {
    forall|i: int| 0 <= i < b.len() ==> #[trigger] is_hex_byte(b[i])
}

/// The position of the first byte that is not a hex digit.
pub open spec fn first_non_hex(b: Seq<u8>) -> int {
    choose|k: int|
        0 <= k < b.len() && !is_hex_byte(b[k]) && forall|j: int| 0 <= j < k ==> #[trigger] is_hex_byte(b[j])
}

/// The bytes that a hex string of even length made only of hex digits stands for.
pub open spec fn hex_bytes(b: Seq<u8>) -> Seq<u8> {
    Seq::new(b.len() / 2, |i: int| (hex_value(b[2 * i]) * 16 + hex_value(b[2 * i + 1])) as u8)
}

/// Hex decoding: odd length is rejected first, then the first non-digit byte.
pub open spec fn hex_decode_spec(b: Seq<u8>) -> Result<Seq<u8>, HexError> {
    if b.len() % 2 != 0 {
        Err(HexError::OddLength)
    } else if !all_hex(b) {
        let k = first_non_hex(b);
        Err(HexError::InvalidHexCharacter { c: b[k] as char, index: k as usize })
    } else {
        Ok(hex_bytes(b))
    }
}

/// Calls `hex::encode`: two lower-case hex digits per input byte.
#[verifier::external_body]
pub(crate) fn hex_encode(data: &[u8]) -> (r: String)
    ensures
        r@ == hex_encode_spec(data@),
{
    hex::encode(data)
}

/// Calls `hex::decode` and maps its error one variant to one variant.
/// Trusted: the result is `hex_decode_spec` of the input bytes, as the crate's
/// `FromHex for Vec<u8>` implementation computes it.
#[verifier::external_body]
pub(crate) fn hex_decode(data: &[u8]) -> (r: Result<Vec<u8>, HexError>)
    ensures
        match r {
            Ok(v) => hex_decode_spec(data@) == Ok::<Seq<u8>, HexError>(v@),
            Err(e) => hex_decode_spec(data@) == Err::<Seq<u8>, HexError>(e),
        },
{
    match hex::decode(data) {
        Ok(v) => Ok(v),
        Err(hex::FromHexError::InvalidHexCharacter { c, index }) => Err(HexError::InvalidHexCharacter { c, index }),
        Err(hex::FromHexError::OddLength) => Err(HexError::OddLength),
        Err(hex::FromHexError::InvalidStringLength) => Err(HexError::InvalidStringLength),
    }
}

/// Hex digits are ASCII, so the UTF-8 bytes of an encoding are its characters.
pub proof fn lemma_hex_encode_ascii(b: Seq<u8>)
    ensures
        vstd::utf8::is_ascii_chars(hex_encode_spec(b)),
        vstd::utf8::encode_utf8(hex_encode_spec(b)) =~= Seq::new(
            hex_encode_spec(b).len(),
            |i: int| hex_encode_spec(b)[i] as u8,
        ),
{
    let s = hex_encode_spec(b);
    assert(vstd::utf8::is_ascii_chars(s));
    vstd::utf8::is_ascii_chars_encode_utf8(s);
}

/// The byte of a hex digit decodes back to its value.
pub proof fn lemma_hex_digit_value(v: int)
    requires
        0 <= v < 16,
    ensures
        hex_value(hex_digit(v) as u8) == v,
{
}

/// Decoding the bytes of an encoding gives back the original bytes.
pub proof fn lemma_hex_roundtrip(b: Seq<u8>)
    ensures
        hex_decode_spec(Seq::new(hex_encode_spec(b).len(), |i: int| hex_encode_spec(b)[i] as u8))
            == Ok::<Seq<u8>, HexError>(b),
{
    let s = hex_encode_spec(b);
    let bytes = Seq::new(s.len(), |i: int| s[i] as u8);
    assert forall|i: int| 0 <= i < bytes.len() implies #[trigger] is_hex_byte(bytes[i]) by {
        if i % 2 == 0 {
            lemma_hex_digit_value(b[i / 2] as int / 16);
        } else {
            lemma_hex_digit_value(b[i / 2] as int % 16);
        }
    }
    assert forall|i: int| 0 <= i < b.len() implies #[trigger] hex_bytes(bytes)[i] == b[i] by {
        lemma_hex_digit_value(b[i] as int / 16);
        lemma_hex_digit_value(b[i] as int % 16);
        assert((2 * i) / 2 == i);
        assert((2 * i + 1) / 2 == i);
        assert((2 * i) % 2 == 0);
        assert((2 * i + 1) % 2 == 1);
    }
    assert(hex_bytes(bytes) =~= b);
}

} // verus!
