//! Hexadecimal text, as keys and signatures are displayed and read.

use vstd::prelude::*;
use vstd::utf8::encode_utf8;

verus! {

/// The lower-case digit for a value below sixteen.
pub open spec fn hex_digit(value: int) -> char {
    seq!['0', '1', '2', '3', '4', '5', '6', '7', '8', '9', 'a', 'b', 'c', 'd', 'e', 'f'][value]
}

/// Two lower-case digits for each byte, in order.
pub open spec fn hex_text(bytes: Seq<u8>) -> Seq<char>
    decreases bytes.len(),
{
    if bytes.len() == 0 {
        Seq::empty()
    } else {
        hex_text(bytes.drop_last()).push(hex_digit(bytes.last() as int / 16)).push(
            hex_digit(bytes.last() as int % 16),
        )
    }
}

/// The value of a hexadecimal digit given as an ASCII byte, in either case.
pub open spec fn hex_value(digit: u8) -> Option<int> {
    if 0x30 <= digit <= 0x39 {
        Some(digit - 0x30)
    } else if 0x41 <= digit <= 0x46 {
        Some(digit - 0x41 + 10)
    } else if 0x61 <= digit <= 0x66 {
        Some(digit - 0x61 + 10)
    } else {
        None
    }
}

/// Text that is an even number of hexadecimal digits.
pub open spec fn is_hex(text: Seq<u8>) -> bool {
    &&& text.len() % 2 == 0
    &&& forall|i: int| 0 <= i < text.len() ==> hex_value(#[trigger] text[i]) is Some
}

/// The bytes that hexadecimal text denotes: one for each pair of digits.
pub open spec fn hex_bytes(text: Seq<u8>) -> Seq<u8> {
    Seq::new(
        text.len() / 2,
        |i: int| (hex_value(text[2 * i])->0 * 16 + hex_value(text[2 * i + 1])->0) as u8,
    )
}

#[verifier::external_type_specification]
#[verifier::external_body]
pub struct ExFromHexError(hex::FromHexError);

/// `hex::encode`: two lower-case digits for each byte.
#[verifier::external_body]
pub(crate) fn hex_encode(bytes: &[u8]) -> (text: String)
    ensures
        text@ == hex_text(bytes@),
{
    hex::encode(bytes)
}

/// `hex::decode`: accepts an even number of hexadecimal digits, in either
/// case, and hands back the byte of each pair.
#[verifier::external_body]
pub(crate) fn hex_decode(text: &str) -> (outcome: Result<Vec<u8>, hex::FromHexError>)
    ensures
        outcome is Ok <==> is_hex(encode_utf8(text@)),
        outcome matches Ok(bytes) ==> bytes@ == hex_bytes(encode_utf8(text@)),
{
    hex::decode(text)
}

/// `hex::FromHexError` as it displays, through `to_string`.  Nothing is said
/// of the text.
#[verifier::external_body]
pub(crate) fn hex_error_text(error: &hex::FromHexError) -> (text: String) {
    error.to_string()
}

} // verus!
