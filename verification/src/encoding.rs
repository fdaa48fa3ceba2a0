//! Hexadecimal text: what it means for a string to be hex, which bytes it
//! stands for, and the two calls into the `hex` crate that convert.

use vstd::prelude::*;

verus! {

#[verifier::external_type_specification]
#[verifier::external_body]
pub struct ExFromHexError(hex::FromHexError);

/// `c` is one of `0..9`, `a..f`, `A..F`.
pub open spec fn is_hex_digit(c: char) -> bool {
    ('0' <= c && c <= '9') || ('a' <= c && c <= 'f') || ('A' <= c && c <= 'F')
}

/// `c` is one of `0..9`, `a..f`.
pub open spec fn is_lower_hex_digit(c: char) -> bool {
    ('0' <= c && c <= '9') || ('a' <= c && c <= 'f')
}

/// The number, below 16, that the hex digit `c` stands for.
pub open spec fn hex_digit_value(c: char) -> int {
    if '0' <= c && c <= '9' {
        c as int - '0' as int
    } else if 'a' <= c && c <= 'f' {
        c as int - 'a' as int + 10
    } else {
        c as int - 'A' as int + 10
    }
}

/// The lower-case hex digit for `n`, where `0 <= n < 16`.
pub open spec fn hex_digit(n: int) -> char {
    if n < 10 {
        ('0' as int + n) as char
    } else {
        ('a' as int + n - 10) as char
    }
}

/// `s` is an even number of hex digits, of either case.
pub open spec fn is_hex(s: Seq<char>) -> bool {
    s.len() % 2 == 0 && forall|i: int| 0 <= i < s.len() ==> is_hex_digit(#[trigger] s[i])
}

/// `s` is an even number of lower-case hex digits.
pub open spec fn is_lower_hex(s: Seq<char>) -> bool {
    s.len() % 2 == 0 && forall|i: int| 0 <= i < s.len() ==> is_lower_hex_digit(#[trigger] s[i])
}

/// The bytes that the hex string `s` stands for: two digits a byte, the high
/// half first.
pub open spec fn hex_decoded(s: Seq<char>) -> Seq<u8> {
    Seq::new(
        s.len() / 2,
        |i: int| (16 * hex_digit_value(s[2 * i]) + hex_digit_value(s[2 * i + 1])) as u8,
    )
}

/// The lower-case hex string for `bytes`: two digits a byte, the high half
/// first.
pub open spec fn hex_encoded(bytes: Seq<u8>) -> Seq<char> {
    Seq::new(
        2 * bytes.len(),
        |i: int|
            if i % 2 == 0 {
                hex_digit(bytes[i / 2] as int / 16)
            } else {
                hex_digit(bytes[i / 2] as int % 16)
            },
    )
}

/// A digit that `hex_digit` gives is a lower-case hex digit and stands for
/// the number it was made from.
pub proof fn lemma_hex_digit_value(n: int)
    requires
        0 <= n < 16,
    ensures
        is_lower_hex_digit(hex_digit(n)),
        is_hex_digit(hex_digit(n)),
        hex_digit_value(hex_digit(n)) == n,
{
}

/// Encoding gives lower-case hex of twice the length, and decoding it gives
/// the bytes back.
pub proof fn lemma_hex_round_trip(bytes: Seq<u8>)
    ensures
        hex_encoded(bytes).len() == 2 * bytes.len(),
        is_lower_hex(hex_encoded(bytes)),
        is_hex(hex_encoded(bytes)),
        hex_decoded(hex_encoded(bytes)) == bytes,
{
    let s = hex_encoded(bytes);
    assert forall|i: int| 0 <= i < s.len() implies is_lower_hex_digit(#[trigger] s[i])
        && is_hex_digit(s[i]) by {
        let b = bytes[i / 2] as int;
        lemma_hex_digit_value(b / 16);
        lemma_hex_digit_value(b % 16);
    }
    assert forall|k: int| 0 <= k < bytes.len() implies #[trigger] hex_decoded(s)[k]
        == bytes[k] by {
        let b = bytes[k] as int;
        lemma_hex_digit_value(b / 16);
        lemma_hex_digit_value(b % 16);
        assert((2 * k) % 2 == 0);
        assert((2 * k + 1) % 2 == 1);
        assert((2 * k) / 2 == k);
        assert((2 * k + 1) / 2 == k);
        assert(s[2 * k] == hex_digit(b / 16));
        assert(s[2 * k + 1] == hex_digit(b % 16));
        assert(16 * (b / 16) + b % 16 == b);
    }
    assert(hex_decoded(s) =~= bytes);
}

/// Two byte strings with the same hex text are the same.
pub proof fn lemma_hex_encoded_injective(a: Seq<u8>, b: Seq<u8>)
    requires
        hex_encoded(a) == hex_encoded(b),
    ensures
        a == b,
{
    lemma_hex_round_trip(a);
    lemma_hex_round_trip(b);
}

/// Calls `hex::decode`. It succeeds exactly on an even number of hex digits
/// of either case, and then gives one byte for each pair of digits, the first
/// digit being the high half. The error says no more than that it failed.
#[verifier::external_body]
pub(crate) fn decode_hex(s: &str) -> (r: Result<Vec<u8>, hex::FromHexError>)
    ensures
        r.is_ok() == is_hex(s@),
        r matches Ok(v) ==> v@ == hex_decoded(s@),
{
    hex::decode(s)
}

/// Calls `hex::encode`, which writes each byte as two lower-case hex digits,
/// the high half first.
#[verifier::external_body]
pub(crate) fn encode_hex(bytes: &[u8]) -> (s: String)
    ensures
        s@ == hex_encoded(bytes@),
{
    hex::encode(bytes)
}

} // verus!
