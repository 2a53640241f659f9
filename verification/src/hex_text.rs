//! Hexadecimal digits: the text form that the sniffer's advertising payload
//! passes through, and the upper-case digits of service UUIDs.

use vstd::prelude::*;

verus! {

/// Whether `c` is a hexadecimal digit, of either case.
pub open spec fn is_hex_digit(c: char) -> bool {
    ||| ('0' <= c && c <= '9')
    ||| ('a' <= c && c <= 'f')
    ||| ('A' <= c && c <= 'F')
}

/// The value of a hexadecimal digit.
pub open spec fn hex_digit_value(c: char) -> int {
    if '0' <= c && c <= '9' {
        c as int - '0' as int
    } else if 'a' <= c && c <= 'f' {
        c as int - 'a' as int + 10
    } else {
        c as int - 'A' as int + 10
    }
}

/// What decoding `s` as hexadecimal gives: `None` unless `s` is an even
/// number of hexadecimal digits; otherwise one byte for each pair of
/// digits, the first digit of the pair being the high nibble.
pub open spec fn hex_decode_spec(s: Seq<char>) -> Option<Seq<u8>> {
    if s.len() % 2 == 0 && (forall|i: int| 0 <= i < s.len() ==> is_hex_digit(#[trigger] s[i])) {
        Some(
            Seq::new(
                s.len() / 2,
                |k: int| (16 * hex_digit_value(s[2 * k]) + hex_digit_value(s[2 * k + 1])) as u8,
            ),
        )
    } else {
        None
    }
}

/// The lower-case hexadecimal digit of `n`, for `n < 16`.
pub open spec fn lower_digit(n: int) -> char {
    if n < 10 {
        (n + 48) as char
    } else {
        (n + 87) as char
    }
}

/// The upper-case hexadecimal digit of `n`, for `n < 16`.
pub open spec fn upper_digit(n: int) -> char {
    if n < 10 {
        (n + 48) as char
    } else {
        (n + 55) as char
    }
}

/// Two lower-case digits per byte, high nibble first (`{:02x}` of each byte).
pub open spec fn hex_lower_spec(bytes: Seq<u8>) -> Seq<char> {
    Seq::new(
        2 * bytes.len(),
        |i: int|
            if i % 2 == 0 {
                lower_digit(bytes[i / 2] as int / 16)
            } else {
                lower_digit(bytes[i / 2] as int % 16)
            },
    )
}

/// Two upper-case digits, high nibble first (`{:02X}` of a byte).
pub open spec fn upper_pair(b: u8) -> Seq<char> {
    seq![upper_digit(b as int / 16), upper_digit(b as int % 16)]
}

/// Decodes a hexadecimal string.
///
/// Wraps `hex::decode`. Its source checks that the input has an even
/// length, and turns each pair of bytes into one byte from two digits of
/// `0-9`, `a-f` or `A-F`, the first being the high nibble; any other byte,
/// a non-ASCII character among them, makes it fail. The contract states
/// that over the characters of `s`.
#[verifier::external_body]
pub(crate) fn decode_hex(s: &str) -> (res: Option<Vec<u8>>)
    ensures
        match res {
            Some(v) => hex_decode_spec(s@) == Some(v@),
            None => hex_decode_spec(s@) is None,
        },
{
    hex::decode(s).ok()
}

/// The lower-case hexadecimal digit of `n`.
pub fn lower_hex_digit(n: u8) -> (c: char)
    requires
        n < 16,
    ensures
        c == lower_digit(n as int),
{
    if n < 10 {
        (n + 48) as char
    } else {
        (n + 87) as char
    }
}

/// The upper-case hexadecimal digit of `n`.
pub fn upper_hex_digit(n: u8) -> (c: char)
    requires
        n < 16,
    ensures
        c == upper_digit(n as int),
{
    if n < 10 {
        (n + 48) as char
    } else {
        (n + 55) as char
    }
}

/// Encodes bytes as lower-case hexadecimal, two digits per byte.
pub fn encode_hex_lower(bytes: &Vec<u8>) -> (res: String)
    ensures
        res@ == hex_lower_spec(bytes@),
{
    let mut res = String::new();
    let n = bytes.len();
    for i in 0..n
        invariant
            n == bytes.len(),
            res@ =~= hex_lower_spec(bytes@.take(i as int)),
    {
        let b = bytes[i];
        crate::text::push_char(&mut res, lower_hex_digit(b / 16));
        crate::text::push_char(&mut res, lower_hex_digit(b % 16));
        assert(res@ =~= hex_lower_spec(bytes@.take(i + 1)));
    }
    assert(bytes@.take(n as int) =~= bytes@);
    res
}

/// Decoding the lower-case hexadecimal encoding of any bytes gives those
/// bytes back.
pub proof fn lemma_hex_round_trip(bytes: Seq<u8>)
    ensures
        hex_decode_spec(hex_lower_spec(bytes)) == Some(bytes),
{
    let s = hex_lower_spec(bytes);
    assert forall|i: int| 0 <= i < s.len() implies is_hex_digit(#[trigger] s[i]) by {
        let b = bytes[i / 2];
        if i % 2 == 0 {
            assert(b / 16 < 16);
        } else {
            assert(b % 16 < 16);
        }
    }
    let d = hex_decode_spec(s).unwrap();
    assert forall|k: int| 0 <= k < bytes.len() implies d[k] == bytes[k] by {
        assert((2 * k) / 2 == k);
        assert((2 * k + 1) / 2 == k);
        assert((2 * k) % 2 == 0);
        assert((2 * k + 1) % 2 == 1);
        let b = bytes[k];
        assert(hex_digit_value(s[2 * k]) == b / 16);
        assert(hex_digit_value(s[2 * k + 1]) == b % 16);
    }
    assert(d =~= bytes);
}

} // verus!
