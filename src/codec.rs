//! Identifiers in URL paths.
//!
//! Authors and titles travel in path segments percent-encoded, byte by byte
//! over their UTF-8 form. An underscore is an ordinary character here: it is
//! left as it is by `encode` and by `decode`, and never stands for a space.
use vstd::prelude::*;
use vstd::utf8::{decode_utf8, encode_utf8, valid_utf8};

verus! {

/// Bytes that stand for themselves in a path segment: ASCII letters and
/// digits, and `-`, `.`, `_`, `~`.
pub open spec fn is_unreserved(b: u8) -> bool {
    ||| 0x30 <= b <= 0x39  // 0-9
    ||| 0x41 <= b <= 0x5a  // A-Z
    ||| 0x61 <= b <= 0x7a  // a-z
    ||| b == 0x2d || b == 0x2e || b == 0x5f || b == 0x7e  // - . _ ~
}

/// The upper-case hex digit of a value below 16.
pub open spec fn hex_digit(v: u8) -> u8
    recommends
        v < 16,
{
    if v < 10 {
        (0x30 + v) as u8
    } else {
        (0x41 + (v - 10)) as u8
    }
}

/// The value of a hex digit of either case.
pub open spec fn hex_value(d: u8) -> Option<u8> {
    if 0x30 <= d <= 0x39 {
        Some((d - 0x30) as u8)
    } else if 0x41 <= d <= 0x46 {
        Some((d - 0x41 + 10) as u8)
    } else if 0x61 <= d <= 0x66 {
        Some((d - 0x61 + 10) as u8)
    } else {
        None
    }
}

/// How one byte is written: itself, or `%` (0x25) and two upper-case hex digits.
pub open spec fn escape_byte(b: u8) -> Seq<u8> {
    if is_unreserved(b) {
        seq![b]
    } else {
        seq![0x25, hex_digit(b / 16), hex_digit(b % 16)]
    }
}

/// Percent-encoding of a byte string.
pub open spec fn percent_encode(bytes: Seq<u8>) -> Seq<u8>
    decreases bytes.len(),
{
    if bytes.len() == 0 {
        seq![]
    } else {
        escape_byte(bytes[0]) + percent_encode(bytes.drop_first())
    }
}

/// Percent-decoding of a byte string: `%` followed by two hex digits gives
/// the byte they spell; every other byte, a lone `%` included, stays.
pub open spec fn percent_decode(bytes: Seq<u8>) -> Seq<u8>
    decreases bytes.len(),
{
    if bytes.len() == 0 {
        seq![]
    } else if bytes.len() >= 3 && bytes[0] == 0x25 && hex_value(bytes[1]) is Some
        && hex_value(bytes[2]) is Some {
        seq![(hex_value(bytes[1])->0 * 16 + hex_value(bytes[2])->0) as u8] + percent_decode(
            bytes.subrange(3, bytes.len() as int),
        )
    } else {
        seq![bytes[0]] + percent_decode(bytes.drop_first())
    }
}

/// `token` is the path segment that stands for `key`.
pub open spec fn encodes(token: Seq<char>, key: Seq<char>) -> bool {
    encode_utf8(token) == percent_encode(encode_utf8(key))
}

/// The key a path segment stands for, if its decoded bytes are UTF-8.
pub open spec fn decoded(token: Seq<char>) -> Option<Seq<char>> {
    let bytes = percent_decode(encode_utf8(token));
    if valid_utf8(bytes) {
        Some(decode_utf8(bytes))
    } else {
        None
    }
}

/// Relies on urlencoding::encode, which percent-encodes every byte of the
/// UTF-8 form but ASCII letters, digits, `-`, `.`, `_` and `~`, with
/// upper-case hex digits.
#[verifier::external_body]
fn url_encode(s: &str) -> (r: String)
    ensures
        encodes(r@, s@),
{
    urlencoding::encode(s).into_owned()
}

/// Relies on urlencoding::decode: it percent-decodes the bytes of `s`, then
/// fails exactly when the result is not UTF-8.
#[verifier::external_body]
fn url_decode(s: &str) -> (r: Option<String>)
    ensures
        match r {
            Some(v) => decoded(s@) == Some(v@),
            None => decoded(s@) is None,
        },
{
    match urlencoding::decode(s) {
        Ok(v) => Some(v.into_owned()),
        Err(_) => None,
    }
}

/// The path segment for an author or a title.
pub fn encode(key: &str) -> (r: String)
    ensures
        encodes(r@, key@),
{
    url_encode(key)
}

/// The author or title that a path segment stands for; `None` where the
/// decoded bytes are not UTF-8.
pub fn decode(token: &str) -> (r: Option<String>)
    ensures
        match r {
            Some(v) => decoded(token@) == Some(v@),
            None => decoded(token@) is None,
        },
{
    url_decode(token)
}

proof fn lemma_hex_digit_value(v: u8)
    requires
        v < 16,
    ensures
        hex_value(hex_digit(v)) == Some(v),
{
}

proof fn lemma_decode_escapes(bytes: Seq<u8>)
    ensures
        percent_decode(percent_encode(bytes)) == bytes,
    decreases bytes.len(),
{
    if bytes.len() > 0 {
        let b = bytes[0];
        let rest = percent_encode(bytes.drop_first());
        lemma_decode_escapes(bytes.drop_first());
        let s = escape_byte(b) + rest;
        if is_unreserved(b) {
            assert(s.drop_first() =~= rest);
        } else {
            lemma_hex_digit_value(b / 16);
            lemma_hex_digit_value(b % 16);
            assert(s.subrange(3, s.len() as int) =~= rest);
        }
        assert(seq![b] + bytes.drop_first() =~= bytes);
    }
}

/// Decoding the path segment of a key gives the key back, for every key.
pub proof fn lemma_round_trip(key: Seq<char>, token: Seq<char>)
    requires
        encodes(token, key),
    ensures
        decoded(token) == Some(key),
{
    lemma_decode_escapes(encode_utf8(key));
    vstd::utf8::encode_utf8_valid_utf8(key);
    vstd::utf8::encode_utf8_decode_utf8(key);
}

} // verus!
