//! Reading a 32-byte key out of the text in which a token reports it.
//!
//! The token's answer ends in 64 hexadecimal digits; what stands before them is
//! of no interest.

use vstd::prelude::*;

verus! {

/// `c` is one of `0`-`9`, `A`-`F`, `a`-`f`.
pub open spec fn is_hex_digit(c: u8) -> bool {
    (0x30 <= c <= 0x39) || (0x41 <= c <= 0x46) || (0x61 <= c <= 0x66)
}

/// The number from 0 to 15 that a hexadecimal digit stands for.
pub open spec fn hex_digit_value(c: u8) -> int {
    if 0x30 <= c <= 0x39 {
        c - 0x30
    } else if 0x41 <= c <= 0x46 {
        c - 0x41 + 10
    } else {
        c - 0x61 + 10
    }
}

/// Every byte of `text` is a hexadecimal digit.
pub open spec fn is_hex(text: Seq<u8>) -> bool {
    forall|i: int| 0 <= i < text.len() ==> is_hex_digit(#[trigger] text[i])
}

/// The bytes that `text` spells, two digits to a byte, the high one first.
pub open spec fn hex_decoded(text: Seq<u8>) -> Seq<u8> {
    Seq::new(
        text.len() / 2,
        |i: int| (16 * hex_digit_value(text[2 * i]) + hex_digit_value(text[2 * i + 1])) as u8,
    )
}

/// The last 64 bytes of a token's answer.
pub open spec fn key_digits(response: Seq<u8>) -> Seq<u8> {
    response.subrange(response.len() - 64, response.len() as int)
}

/// The answer is long enough, and its last 64 bytes are hexadecimal digits.
pub open spec fn ends_in_key(response: Seq<u8>) -> bool {
    response.len() >= 64 && is_hex(key_digits(response))
}

/// The value of a hexadecimal digit, in either case of the letters; nothing for
/// any other byte.
pub fn hex_value(c: u8) -> (value: Option<u8>)
    ensures
        value is Some <==> is_hex_digit(c),
        value matches Some(v) ==> v == hex_digit_value(c),
{
    if 0x30 <= c && c <= 0x39 {
        Some(c - 0x30)
    } else if 0x41 <= c && c <= 0x46 {
        Some(c - 0x41 + 10)
    } else if 0x61 <= c && c <= 0x66 {
        Some(c - 0x61 + 10)
    } else {
        None
    }
}

/// Decodes the key that a token's answer ends in.
///
/// Gives the key exactly when the answer has at least 64 bytes and the last 64
/// are hexadecimal digits, in either case of the letters. A shorter answer, or one
/// with anything else among its last 64 bytes, gives nothing: never a key cut
/// short or filled up.
pub fn trailing_key(response: &[u8]) -> (key: Option<[u8; 32]>)
    ensures
        key is Some <==> ends_in_key(response@),
        key matches Some(k) ==> k@ == hex_decoded(key_digits(response@)),
{
    let n = response.len();
    if n < 64 {
        return None;
    }
    let start = n - 64;
    let ghost digits = key_digits(response@);
    let mut key = [0u8; 32];
    let mut i: usize = 0;
    while i < 32
        invariant
            i <= 32,
            n == response@.len(),
            n >= 64,
            start == n - 64,
            digits == key_digits(response@),
            forall|j: int| 0 <= j < 2 * i ==> is_hex_digit(#[trigger] digits[j]),
            forall|j: int| 0 <= j < i ==> key@[j] == hex_decoded(digits)[j],
        decreases 32 - i,
    {
        assert(digits[2 * i as int] == response@[start + 2 * i]);
        assert(digits[2 * i + 1] == response@[start + 2 * i + 1]);
        let high = match hex_value(response[start + 2 * i]) {
            Some(value) => value,
            None => {
                return None;
            },
        };
        let low = match hex_value(response[start + 2 * i + 1]) {
            Some(value) => value,
            None => {
                return None;
            },
        };
        key[i] = 16 * high + low;
        i += 1;
    }
    assert(key@ =~= hex_decoded(digits));
    Some(key)
}

/// Sixty-four digits spell thirty-two bytes.
pub proof fn lemma_key_len(response: Seq<u8>)
    requires
        response.len() >= 64,
    ensures
        key_digits(response).len() == 64,
        hex_decoded(key_digits(response)).len() == 32,
{
}

/// Upper and lower case spell the same value.
pub proof fn lemma_case_blind(c: u8)
    requires
        0x41 <= c <= 0x46,
    ensures
        is_hex_digit(c),
        is_hex_digit((c + 0x20) as u8),
        hex_digit_value(c) == hex_digit_value((c + 0x20) as u8),
{
}

} // verus!
