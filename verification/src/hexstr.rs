//! Hexadecimal text: addresses, block ids and keys as callers write them.

use vstd::prelude::*;
use crate::error::Error;

verus! {

/// The value of a hexadecimal digit, in either case.
pub open spec fn digit_value(c: char) -> Option<u8> {
    if '0' <= c <= '9' {
        Some((c as u32 - '0' as u32) as u8)
    } else if 'a' <= c <= 'f' {
        Some((c as u32 - 'a' as u32 + 10) as u8)
    } else if 'A' <= c <= 'F' {
        Some((c as u32 - 'A' as u32 + 10) as u8)
    } else {
        None
    }
}

/// Whether `text` is an even number of hexadecimal digits.
pub open spec fn is_hex(text: Seq<char>) -> bool {
    &&& text.len() % 2 == 0
    &&& forall|i: int| 0 <= i < text.len() ==> digit_value(#[trigger] text[i]) is Some
}

/// The bytes that `text` spells, two digits to a byte, the high digit first.
pub open spec fn hex_bytes(text: Seq<char>) -> Seq<u8> {
    Seq::new(
        text.len() / 2,
        |i: int| (16 * digit_value(text[2 * i]).unwrap() + digit_value(text[2 * i + 1]).unwrap()) as u8,
    )
}

#[verifier::external_type_specification]
#[verifier::external_body]
pub struct ExFromHexError(hex::FromHexError);

/// Calls `hex::decode`. The contract says that it succeeds exactly on an even
/// number of hexadecimal digits, and that each pair of digits then gives one
/// byte, the first digit being the high half.
#[verifier::external_body]
fn hex_decode(text: &str) -> (out: Result<Vec<u8>, hex::FromHexError>)
    ensures
        out is Ok <==> is_hex(text@),
        out is Ok ==> out.unwrap()@ == hex_bytes(text@),
{
    hex::decode(text)
}

/// Decodes hexadecimal text into bytes.
pub fn decode_hex(text: &str) -> (out: Result<Vec<u8>, Error>)
    ensures
        is_hex(text@) ==> out is Ok && out.unwrap()@ == hex_bytes(text@),
        !is_hex(text@) ==> out == Err::<Vec<u8>, Error>(Error::DecodeError),
{
    match hex_decode(text) {
        Ok(bytes) => Ok(bytes),
        Err(_) => Err(Error::DecodeError),
    }
}

} // verus!
