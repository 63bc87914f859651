//! Bytes as hexadecimal text.

use vstd::prelude::*;

verus! {

/// The digit that stands for `n`, of the sixteen from `0` to `f`.
pub open spec fn hex_digit(n: int) -> char {
    if n < 10 {
        (0x30 + n) as char
    } else {
        (0x57 + n) as char
    }
}

/// The text of `bytes`, two digits for each byte.
pub open spec fn hex_text(bytes: Seq<u8>) -> Seq<char> {
    Seq::new(
        2 * bytes.len(),
        |i: int|
            if i % 2 == 0 {
                hex_digit(bytes[i / 2] as int / 16)
            } else {
                hex_digit(bytes[i / 2] as int % 16)
            },
    )
}

/// The value of the hexadecimal digit that is the ASCII character `c`, in either case.
pub open spec fn hex_value(c: u8) -> Option<int> {
    if 0x30 <= c <= 0x39 {
        Some(c - 0x30)
    } else if 0x41 <= c <= 0x46 {
        Some(c - 0x37)
    } else if 0x61 <= c <= 0x66 {
        Some(c - 0x57)
    } else {
        None
    }
}

/// Whether `text` is made of whole pairs of hexadecimal digits.
pub open spec fn is_hex(text: Seq<u8>) -> bool {
    &&& text.len() % 2 == 0
    &&& forall|i: int| 0 <= i < text.len() ==> hex_value(#[trigger] text[i]) is Some
}

/// The bytes that the hexadecimal `text` stands for.
pub open spec fn hex_bytes(text: Seq<u8>) -> Seq<u8> {
    Seq::new(
        text.len() / 2,
        |i: int| (hex_value(text[2 * i])->0 * 16 + hex_value(text[2 * i + 1])->0) as u8,
    )
}

/// Why a text is not hexadecimal.
#[verifier::external_type_specification]
#[verifier::external_body]
pub struct ExFromHexError(hex::FromHexError);

/// `hex::encode` writes each byte as two lower-case hexadecimal digits.
#[verifier::external_body]
pub(crate) fn hex_encode(bytes: &[u8]) -> (text: String)
    ensures
        text@ == hex_text(bytes@),
{
    hex::encode(bytes)
}

/// `hex::decode` succeeds on whole pairs of hexadecimal digits, in either case, and only on these,
/// and gives the bytes that they stand for. Which error it gives otherwise is not stated.
#[verifier::external_body]
pub(crate) fn hex_decode(text: &[u8]) -> (r: Result<Vec<u8>, hex::FromHexError>)
    ensures
        r is Ok <==> is_hex(text@),
        r matches Ok(bytes) ==> bytes@ == hex_bytes(text@),
{
    hex::decode(text)
}

/// Text that was written from bytes stands for these bytes again.
pub proof fn law_hex_round_trip(bytes: Seq<u8>)
    ensures
        ({
            let text = Seq::new(hex_text(bytes).len(), |i: int| hex_text(bytes)[i] as u8);
            is_hex(text) && hex_bytes(text) == bytes
        }),
{
    let text = Seq::new(hex_text(bytes).len(), |i: int| hex_text(bytes)[i] as u8);
    assert forall|i: int| 0 <= i < text.len() implies hex_value(#[trigger] text[i]) == Some(
        if i % 2 == 0 {
            bytes[i / 2] as int / 16
        } else {
            bytes[i / 2] as int % 16
        },
    ) by {}
    assert(hex_bytes(text) =~= bytes) by {
        assert forall|i: int| 0 <= i < bytes.len() implies hex_bytes(text)[i] == bytes[i] by {
            assert(hex_value(text[2 * i]) == Some(bytes[i] as int / 16));
            assert(hex_value(text[2 * i + 1]) == Some(bytes[i] as int % 16));
        }
    }
}

/// The hexadecimal digits are the sixteen usual ones, the letters in either case.
pub proof fn law_hex_digits(c: u8)
    ensures
        '0' as u8 <= c <= '9' as u8 ==> hex_value(c) == Some(c - '0' as u8),
        'a' as u8 <= c <= 'f' as u8 ==> hex_value(c) == Some(c - 'a' as u8 + 10),
        'A' as u8 <= c <= 'F' as u8 ==> hex_value(c) == Some(c - 'A' as u8 + 10),
        hex_value(c) is Some ==> '0' as u8 <= c <= '9' as u8 || 'a' as u8 <= c <= 'f' as u8 || 'A' as u8
            <= c <= 'F' as u8,
{
}

/// Written text has two characters for each byte, which are figures or small letters. The first
/// stands for the upper and the second for the lower half of the byte.
pub proof fn law_hex_text_is_lower_case(bytes: Seq<u8>, i: int)
    requires
        0 <= i < bytes.len(),
    ensures
        hex_text(bytes).len() == 2 * bytes.len(),
        forall|k: int|
            0 <= k < hex_text(bytes).len() ==> '0' <= (#[trigger] hex_text(bytes)[k]) <= '9' || 'a'
                <= hex_text(bytes)[k] <= 'f',
        hex_value(hex_text(bytes)[2 * i] as u8)->0 * 16 + hex_value(
            hex_text(bytes)[2 * i + 1] as u8,
        )->0 == bytes[i],
{
}

/// Hexadecimal text is read two digits at a time: each byte has the value of its two digits, and
/// text with an odd number of characters or any other character is not hexadecimal.
pub proof fn law_hex_bytes_have_their_value(text: Seq<u8>, i: int)
    ensures
        is_hex(text) && 0 <= 2 * i < text.len() ==> {
            &&& hex_bytes(text).len() * 2 == text.len()
            &&& hex_bytes(text)[i] == hex_value(text[2 * i])->0 * 16 + hex_value(
                text[2 * i + 1],
            )->0
        },
        text.len() % 2 == 1 ==> !is_hex(text),
        0 <= i < text.len() && hex_value(text[i]) is None ==> !is_hex(text),
        text.len() % 2 == 0 && !is_hex(text) ==> exists|k: int|
            0 <= k < text.len() && hex_value(#[trigger] text[k]) is None,
{
}

} // verus!
