//! Bytes as hexadecimal digits.
use vstd::prelude::*;

verus! {

/// The hexadecimal digit of a number below sixteen, in lower case.
pub open spec fn hex_digit(n: int) -> char {
    if n < 10 {
        (('0' as u8) + n) as u8 as char
    } else {
        (('a' as u8) + (n - 10)) as u8 as char
    }
}

/// The number that a hexadecimal digit of either case stands for.
pub open spec fn hex_value(c: char) -> Option<int> {
    if '0' <= c && c <= '9' {
        Some((c as u8) - ('0' as u8))
    } else if 'a' <= c && c <= 'f' {
        Some((c as u8) - ('a' as u8) + 10)
    } else if 'A' <= c && c <= 'F' {
        Some((c as u8) - ('A' as u8) + 10)
    } else {
        None
    }
}

/// The digits of bytes, two for each.
pub open spec fn hex_text(bytes: Seq<u8>) -> Seq<char> {
    Seq::new(
        2 * bytes.len(),
        |i: int|
            if i % 2 == 0 {
                hex_digit(bytes[i / 2] as int / 16)
            } else {
                hex_digit(bytes[i / 2] as int % 16)
            },
    )
}

/// Whether a text is a row of pairs of hexadecimal digits.
pub open spec fn is_hex(text: Seq<char>) -> bool {
    text.len() % 2 == 0 && forall|i: int|
        0 <= i < text.len() ==> hex_value(#[trigger] text[i]) is Some
}

/// The bytes of a row of pairs of hexadecimal digits.
pub open spec fn hex_bytes(text: Seq<char>) -> Seq<u8> {
    Seq::new(
        text.len() / 2,
        |i: int|
            (16 * hex_value(text[2 * i])->Some_0 + hex_value(text[2 * i + 1])->Some_0) as u8,
    )
}

/// The digits of bytes stand for those bytes.
pub proof fn hex_round_trip(bytes: Seq<u8>)
    ensures
        is_hex(hex_text(bytes)),
        hex_bytes(hex_text(bytes)) == bytes,
{
    let text = hex_text(bytes);
    assert forall|i: int| 0 <= i < text.len() implies hex_value(#[trigger] text[i]) is Some by {
        digit_round_trip(bytes[i / 2] as int / 16);
        digit_round_trip(bytes[i / 2] as int % 16);
    }
    assert forall|i: int| 0 <= i < bytes.len() implies hex_bytes(text)[i] == bytes[i] by {
        digit_round_trip(bytes[i] as int / 16);
        digit_round_trip(bytes[i] as int % 16);
        assert(text[2 * i] == hex_digit(bytes[i] as int / 16));
        assert(text[2 * i + 1] == hex_digit(bytes[i] as int % 16));
    }
    assert(hex_bytes(text) =~= bytes);
}

proof fn digit_round_trip(n: int)
    requires
        0 <= n < 16,
    ensures
        hex_value(hex_digit(n)) == Some(n),
{
}

/// Calls `hex::decode`: the bytes of a row of pairs of hexadecimal digits of
/// either case. Any other text has none.
#[verifier::external_body]
pub(crate) fn decode(text: &str) -> (r: Option<Vec<u8>>)
    ensures
        r is Some <==> is_hex(text@),
        r matches Some(bytes) ==> bytes@ == hex_bytes(text@),
{
    hex::decode(text).ok()
}

/// Calls `hex::encode`: the digits of the bytes, in lower case.
#[verifier::external_body]
pub(crate) fn encode(bytes: &[u8]) -> (r: String)
    ensures
        r@ == hex_text(bytes@),
{
    hex::encode(bytes)
}

} // verus!
