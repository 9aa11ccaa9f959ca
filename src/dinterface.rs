use vstd::prelude::*;
use vstd::utf8::{decode_utf8, valid_utf8};
use crate::convert::{all_digits, decimal_u64, decimal_value, is_digit, is_digit_char};

verus! {

/// The error of hex::decode; only its presence is used.
#[verifier::external_type_specification]
#[verifier::external_body]
pub struct ExFromHexError(hex::FromHexError);

pub open spec fn is_hex_digit(c: char) -> bool {
    ('0' <= c && c <= '9') || ('a' <= c && c <= 'f') || ('A' <= c && c <= 'F')
}

pub open spec fn hex_digit_value(c: char) -> int {
    if '0' <= c && c <= '9' {
        (c as u32) - ('0' as u32)
    } else if 'a' <= c && c <= 'f' {
        (c as u32) - ('a' as u32) + 10
    } else {
        (c as u32) - ('A' as u32) + 10
    }
}

/// Text that decodes as hex: pairs of hex digits, in either case.
pub open spec fn is_hex_text(s: Seq<char>) -> bool {
    s.len() % 2 == 0 && forall|i: int| 0 <= i < s.len() ==> is_hex_digit(#[trigger] s[i])
}

/// The bytes that hex text stands for, one for each pair of digits.
pub open spec fn hex_bytes(s: Seq<char>) -> Seq<u8> {
    Seq::new(
        s.len() / 2,
        |i: int| (hex_digit_value(s[2 * i]) * 16 + hex_digit_value(s[2 * i + 1])) as u8,
    )
}

/// Relies on hex::decode: each pair of hex digits (either case) becomes one
/// byte; an odd length or any other character is an error.
#[verifier::external_body]
fn hex_decode(text: &str) -> (r: Result<Vec<u8>, hex::FromHexError>)
    ensures
        r is Ok <==> is_hex_text(text@),
        r matches Ok(b) ==> b@ == hex_bytes(text@),
{
    hex::decode(text)
}

/// Relies on std::str::from_utf8: it accepts exactly the valid UTF-8 byte strings.
#[verifier::external_body]
fn utf8_text(bytes: &Vec<u8>) -> (r: Option<String>)
    ensures
        r is Some <==> valid_utf8(bytes@),
        r matches Some(t) ==> t@ == decode_utf8(bytes@),
{
    std::str::from_utf8(bytes).ok().map(|s| s.to_string())
}

/// The text that a hex-encoded UTF-8 argument stands for.
pub open spec fn hex_string_value(s: Seq<char>) -> Option<Seq<char>> {
    if is_hex_text(s) && valid_utf8(hex_bytes(s)) {
        Some(decode_utf8(hex_bytes(s)))
    } else {
        None
    }
}

/// Decodes a string argument, which interfaces pass as the hex of its UTF-8 bytes.
pub fn decode_hex_string(text: &str) -> (r: Result<String, String>)
    ensures
        r is Ok <==> hex_string_value(text@) is Some,
        r matches Ok(t) ==> Some(t@) == hex_string_value(text@),
{
    let bytes = match hex_decode(text) {
        Ok(b) => b,
        Err(_) => {
            return Err(String::from_str("invalid hex string"));
        },
    };
    match utf8_text(&bytes) {
        Some(t) => Ok(t),
        None => Err(String::from_str("invalid utf-8 sequence")),
    }
}

/// The digits of an unsigned decimal number, after an optional `+`.
pub open spec fn unsigned_digits(s: Seq<char>) -> Seq<char> {
    if s.len() > 0 && s[0] == '+' {
        s.drop_first()
    } else {
        s
    }
}

/// The answer identifier that `s` denotes: an unsigned decimal number that fits in 32 bits.
pub open spec fn answer_id_value(s: Seq<char>) -> Option<u32> {
    let d = unsigned_digits(s);
    if d.len() > 0 && all_digits(d) && decimal_value(d) <= u32::MAX {
        Some(decimal_value(d) as u32)
    } else {
        None
    }
}

/// Reads the identifier of the function that an interface call answers to.
pub fn parse_answer_id(text: &str) -> (r: Result<u32, String>)
    ensures
        r is Ok <==> answer_id_value(text@) is Some,
        r matches Ok(v) ==> Some(v) == answer_id_value(text@),
{
    let n = text.unicode_len();
    let start: usize = if n > 0 && text.get_char(0) == '+' {
        1
    } else {
        0
    };
    let digits = text.substring_char(start, n);
    assert(digits@ == unsigned_digits(text@)) by {
        if start == 0 {
            assert(text@.subrange(0, n as int) =~= text@);
        } else {
            assert(text@.subrange(1, n as int) =~= text@.drop_first());
        }
    }
    let m = digits.unicode_len();
    if m == 0 {
        return Err(String::from_str("cannot parse integer from empty string"));
    }
    let mut i: usize = 0;
    while i < m
        invariant
            m == digits@.len(),
            digits@ == unsigned_digits(text@),
            i <= m,
            forall|j: int| 0 <= j < i ==> is_digit(#[trigger] digits@[j]),
        decreases m - i,
    {
        if !is_digit_char(digits.get_char(i)) {
            assert(!all_digits(digits@)) by {
                assert(!is_digit(digits@[i as int]));
            }
            return Err(String::from_str("invalid digit found in string"));
        }
        i = i + 1;
    }
    match decimal_u64(digits) {
        Some(v) => {
            if v <= 0xffff_ffff {
                Ok(v as u32)
            } else {
                Err(String::from_str("number too large to fit in target type"))
            }
        },
        None => Err(String::from_str("number too large to fit in target type")),
    }
}

} // verus!
