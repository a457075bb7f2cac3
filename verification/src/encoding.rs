//! Encodings of bytes as text: UTF-8, percent encoding, Base64 and SHA-1 digests.

use base64::Engine;
use vstd::prelude::*;
use vstd::utf8::{decode_utf8, encode_utf8, is_ascii_chars, valid_utf8};

verus! {

/// The characters with the codes `bytes`.
pub open spec fn ascii_text(bytes: Seq<u8>) -> Seq<char> {
    Seq::new(bytes.len(), |i: int| bytes[i] as char)
}

/// Whether percent encoding leaves `b` as it is: a letter, a digit, `-`, `.`,
/// `_` or `~`.
pub open spec fn is_unreserved(b: u8) -> bool {
    ||| 48 <= b <= 57
    ||| 65 <= b <= 90
    ||| 97 <= b <= 122
    ||| b == 45
    ||| b == 46
    ||| b == 95
    ||| b == 126
}

/// The upper-case hexadecimal digit `d`.
pub open spec fn hex_digit(d: int) -> u8 {
    if d < 10 {
        (48 + d) as u8
    } else {
        (55 + d) as u8
    }
}

/// The value of a hexadecimal digit of either case.
pub open spec fn hex_value(b: u8) -> Option<int> {
    if 48 <= b <= 57 {
        Some(b - 48)
    } else if 65 <= b <= 70 {
        Some(b - 55)
    } else if 97 <= b <= 102 {
        Some(b - 87)
    } else {
        None
    }
}

/// `bytes` with each byte that is not unreserved written as `%` and two
/// upper-case hexadecimal digits.
pub open spec fn percent_encode(bytes: Seq<u8>) -> Seq<u8>
    decreases bytes.len(),
{
    if bytes.len() == 0 {
        Seq::empty()
    } else {
        let b = bytes[0];
        let head = if is_unreserved(b) {
            seq![b]
        } else {
            seq![37u8, hex_digit(b as int / 16), hex_digit(b as int % 16)]
        };
        head + percent_encode(bytes.drop_first())
    }
}

/// `bytes` with each `%` that two hexadecimal digits follow replaced, together
/// with them, by the byte that they write.
pub open spec fn percent_decode(bytes: Seq<u8>) -> Seq<u8>
    decreases bytes.len(),
{
    if bytes.len() == 0 {
        Seq::empty()
    } else if bytes[0] == 37 && bytes.len() >= 3 && hex_value(bytes[1]) is Some && hex_value(
        bytes[2],
    ) is Some {
        let b = 16 * hex_value(bytes[1]).unwrap() + hex_value(bytes[2]).unwrap();
        seq![b as u8] + percent_decode(bytes.skip(3))
    } else {
        seq![bytes[0]] + percent_decode(bytes.drop_first())
    }
}

/// The character of the standard Base64 alphabet for a six-bit number.
pub open spec fn base64_char(n: int) -> char {
    if n < 26 {
        (65 + n) as char
    } else if n < 52 {
        (71 + n) as char
    } else if n < 62 {
        (n - 4) as char
    } else if n == 62 {
        '+'
    } else {
        '/'
    }
}

/// `bytes` in Base64 with the standard alphabet and padding.
pub open spec fn base64_text(bytes: Seq<u8>) -> Seq<char>
    decreases bytes.len(),
{
    let b0 = bytes[0] as int;
    let b1 = bytes[1] as int;
    let b2 = bytes[2] as int;
    if bytes.len() == 0 {
        Seq::empty()
    } else if bytes.len() == 1 {
        seq![base64_char(b0 / 4), base64_char(b0 % 4 * 16), '=', '=']
    } else if bytes.len() == 2 {
        seq![
            base64_char(b0 / 4),
            base64_char(b0 % 4 * 16 + b1 / 16),
            base64_char(b1 % 16 * 4),
            '=',
        ]
    } else {
        seq![
            base64_char(b0 / 4),
            base64_char(b0 % 4 * 16 + b1 / 16),
            base64_char(b1 % 16 * 4 + b2 / 64),
            base64_char(b2 % 64),
        ] + base64_text(bytes.skip(3))
    }
}

/// The text that `String::from_utf8_lossy` makes of some bytes.
pub uninterp spec fn utf8_lossy(bytes: Seq<u8>) -> Seq<char>;

/// The text that `str::to_lowercase` makes of a text.
pub uninterp spec fn lowercase(s: Seq<char>) -> Seq<char>;

/// A text with its ASCII letters in lower case.
pub open spec fn ascii_lowercase(s: Seq<char>) -> Seq<char> {
    s.map_values(
        |c: char|
            if 'A' <= c && c <= 'Z' {
                (c as u32 + 32) as char
            } else {
                c
            },
    )
}

/// The SHA-1 digest of some bytes in lower-case hexadecimal digits.
pub uninterp spec fn sha1_hex(bytes: Seq<u8>) -> Seq<char>;

/// What percent decoding makes of a text: the text that the decoded bytes
/// write in UTF-8, where they do.
pub open spec fn percent_decoded(s: Seq<char>) -> Option<Seq<char>> {
    let bytes = percent_decode(encode_utf8(s));
    if valid_utf8(bytes) {
        Some(decode_utf8(bytes))
    } else {
        None
    }
}

/// A text in percent encoding.
pub open spec fn percent_encoded(s: Seq<char>) -> Seq<char> {
    ascii_text(percent_encode(encode_utf8(s)))
}

/// `str::from_utf8` accepts exactly the valid UTF-8, and gives the text that it
/// encodes.
#[verifier::external_body]
pub(crate) fn utf8_text(bytes: &[u8]) -> (r: Option<String>)
    ensures
        match r {
            Some(s) => valid_utf8(bytes@) && s@ == decode_utf8(bytes@),
            None => !valid_utf8(bytes@),
        },
{
    std::str::from_utf8(bytes).ok().map(|s| s.to_string())
}

/// `String::from_utf8_lossy` gives the text that valid UTF-8 encodes, and for
/// other bytes the text that is named by `utf8_lossy`.
#[verifier::external_body]
pub(crate) fn utf8_text_lossy(bytes: &[u8]) -> (r: String)
    ensures
        r@ == utf8_lossy(bytes@),
        valid_utf8(bytes@) ==> r@ == decode_utf8(bytes@),
{
    String::from_utf8_lossy(bytes).into_owned()
}

/// `str::to_lowercase` maps a text to lower case; the result is named by
/// `lowercase`. In a text that is all ASCII only the letters `A` to `Z` change.
#[verifier::external_body]
pub(crate) fn to_lowercase(s: &str) -> (r: String)
    ensures
        r@ == lowercase(s@),
        is_ascii_chars(s@) ==> r@ == ascii_lowercase(s@),
{
    s.to_lowercase()
}

/// `urlencoding::encode` percent-encodes every byte of a text but letters,
/// digits, `-`, `.`, `_` and `~`.
#[verifier::external_body]
pub(crate) fn url_encode(s: &str) -> (r: String)
    ensures
        r@ == percent_encoded(s@),
{
    urlencoding::encode(s).into_owned()
}

/// `urlencoding::decode` undoes percent encoding, and fails where the decoded
/// bytes are no valid UTF-8.
#[verifier::external_body]
pub(crate) fn url_decode(s: &str) -> (r: Option<String>)
    ensures
        match r {
            Some(t) => percent_decoded(s@) == Some(t@),
            None => percent_decoded(s@) is None,
        },
{
    urlencoding::decode(s).ok().map(|t| t.into_owned())
}

/// `Engine::encode` of `base64::engine::general_purpose::STANDARD` writes bytes
/// in Base64 with the standard alphabet and padding.
#[verifier::external_body]
pub(crate) fn base64_encode(bytes: &[u8]) -> (r: String)
    ensures
        r@ == base64_text(bytes@),
{
    base64::engine::general_purpose::STANDARD.encode(bytes)
}

/// `sha1::Sha1::digest`, written in hexadecimal digits, is named by `sha1_hex`.
#[verifier::external_body]
pub(crate) fn sha1_digest(bytes: &[u8]) -> (r: String)
    ensures
        r@ == sha1_hex(bytes@),
{
    format!("{:x}", <sha1::Sha1 as sha1::Digest>::digest(bytes))
}

/// Percent encoding writes only ASCII.
proof fn lemma_percent_encode_ascii(bytes: Seq<u8>)
    ensures
        forall|i: int| 0 <= i < percent_encode(bytes).len() ==> percent_encode(bytes)[i] < 128,
    decreases bytes.len(),
{
    if bytes.len() > 0 {
        let rest = percent_encode(bytes.drop_first());
        let all = percent_encode(bytes);
        lemma_percent_encode_ascii(bytes.drop_first());
        let width = all.len() - rest.len();
        assert forall|i: int| 0 <= i < all.len() implies all[i] < 128 by {
            if i >= width {
                assert(all[i] == rest[i - width]);
            }
        }
    }
}

/// The UTF-8 encoding of ASCII text is its codes.
proof fn lemma_ascii_round_trip(bytes: Seq<u8>)
    requires
        forall|i: int| 0 <= i < bytes.len() ==> bytes[i] < 128,
    ensures
        encode_utf8(ascii_text(bytes)) == bytes,
{
    let s = ascii_text(bytes);
    vstd::utf8::is_ascii_chars_encode_utf8(s);
    assert(encode_utf8(s) == bytes);
}

/// Percent decoding undoes percent encoding of bytes.
proof fn lemma_percent_bytes_round_trip(bytes: Seq<u8>)
    ensures
        percent_decode(percent_encode(bytes)) == bytes,
    decreases bytes.len(),
{
    if bytes.len() > 0 {
        let b = bytes[0];
        let rest = percent_encode(bytes.drop_first());
        let all = percent_encode(bytes);
        lemma_percent_bytes_round_trip(bytes.drop_first());
        if is_unreserved(b) {
            assert(all == seq![b] + rest);
            assert(all.drop_first() == rest);
        } else {
            assert(all == seq![37u8, hex_digit(b as int / 16), hex_digit(b as int % 16)] + rest);
            assert(all.skip(3) == rest);
        }
        assert(seq![b] + bytes.drop_first() == bytes);
    }
}

/// Decoding a percent-encoded text gives the text back.
pub proof fn law_percent_round_trip(s: Seq<char>)
    ensures
        percent_decoded(percent_encoded(s)) == Some(s),
{
    let bytes = encode_utf8(s);
    lemma_percent_encode_ascii(bytes);
    lemma_ascii_round_trip(percent_encode(bytes));
    lemma_percent_bytes_round_trip(bytes);
    vstd::utf8::encode_utf8_valid_utf8(s);
    vstd::utf8::encode_utf8_decode_utf8(s);
}

/// Lower case changes the letters `A` to `Z` and nothing else.
pub proof fn law_ascii_lowercase(s: Seq<char>, i: int)
    requires
        0 <= i < s.len(),
    ensures
        ascii_lowercase(s).len() == s.len(),
        'A' <= s[i] <= 'Z' ==> ascii_lowercase(s)[i] as u32 == s[i] as u32 + 32,
        !('A' <= s[i] <= 'Z') ==> ascii_lowercase(s)[i] == s[i],
{
}

} // verus!
