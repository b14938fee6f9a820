//! Percent-encoding and percent-decoding of path segments.
//!
//! Both directions are specified on bytes: a segment is encoded through its
//! UTF-8 bytes, and an encoded target is decoded into bytes that are then read
//! as UTF-8, with anything malformed repaired rather than rejected.

use vstd::prelude::*;
use vstd::utf8::*;

verus! {

/// The bytes that are written as they are: ASCII letters and digits.
pub open spec fn is_alphanumeric(b: u8) -> bool {
    ||| 0x30 <= b <= 0x39
    ||| 0x41 <= b <= 0x5a
    ||| 0x61 <= b <= 0x7a
}

/// The upper-case hexadecimal digit that stands for `v`, for `v < 16`.
pub open spec fn hex_digit(v: u8) -> u8 {
    if v < 10 {
        (0x30 + v) as u8
    } else {
        (0x37 + v) as u8
    }
}

/// What a hexadecimal digit of either case is worth.
pub open spec fn hex_value(d: u8) -> Option<u8> {
    if 0x30 <= d <= 0x39 {
        Some((d - 0x30) as u8)
    } else if 0x41 <= d <= 0x46 {
        Some((d - 0x37) as u8)
    } else if 0x61 <= d <= 0x66 {
        Some((d - 0x57) as u8)
    } else {
        None
    }
}

/// The escape `%XX` of one byte.
pub open spec fn escape(b: u8) -> Seq<u8> {
    seq![0x25u8, hex_digit(b / 16), hex_digit(b % 16)]
}

/// One byte as it appears in encoded text.
pub open spec fn encoded_byte(b: u8) -> Seq<u8> {
    if is_alphanumeric(b) {
        seq![b]
    } else {
        escape(b)
    }
}

/// Percent-encoding of a byte string: every byte but ASCII letters and digits
/// is escaped.
pub open spec fn percent_encoded(bytes: Seq<u8>) -> Seq<u8>
    decreases bytes.len(),
{
    if bytes.len() == 0 {
        seq![]
    } else {
        encoded_byte(bytes[0]) + percent_encoded(bytes.drop_first())
    }
}

/// Whether `bytes` starts with a well-formed escape.
pub open spec fn starts_with_escape(bytes: Seq<u8>) -> bool {
    &&& bytes.len() >= 3
    &&& bytes[0] == 0x25
    &&& hex_value(bytes[1]) is Some
    &&& hex_value(bytes[2]) is Some
}

/// Percent-decoding of a byte string: each well-formed escape becomes the
/// byte it names, and every other byte, a stray `%` included, stays.
pub open spec fn percent_decoded(bytes: Seq<u8>) -> Seq<u8>
    decreases bytes.len(),
{
    if bytes.len() == 0 {
        seq![]
    } else if starts_with_escape(bytes) {
        seq![(hex_value(bytes[1])->0 * 16 + hex_value(bytes[2])->0) as u8] + percent_decoded(
            bytes.skip(3),
        )
    } else {
        seq![bytes[0]] + percent_decoded(bytes.drop_first())
    }
}

/// ASCII bytes read as text, one character per byte.
pub open spec fn ascii_text(bytes: Seq<u8>) -> Seq<char> {
    Seq::new(bytes.len(), |i: int| bytes[i] as char)
}

/// What lossy UTF-8 decoding makes of bytes that are not valid UTF-8: the text
/// in which each malformed sequence has been replaced by U+FFFD.
pub uninterp spec fn repaired_text(bytes: Seq<u8>) -> Seq<char>;

/// Lossy UTF-8 decoding: valid bytes decode to the text they encode, anything
/// else to its repaired reading.
pub open spec fn lossy_text(bytes: Seq<u8>) -> Seq<char> {
    if valid_utf8(bytes) {
        decode_utf8(bytes)
    } else {
        repaired_text(bytes)
    }
}

/// The encoded form of a path segment.
pub open spec fn encoded_text(segment: Seq<char>) -> Seq<char> {
    ascii_text(percent_encoded(encode_utf8(segment)))
}

/// The text that an encoded request target stands for.
pub open spec fn decoded_text(encoded: Seq<char>) -> Seq<char> {
    lossy_text(percent_decoded(encode_utf8(encoded)))
}

/// Calls `percent_encoding::utf8_percent_encode` with the set
/// `NON_ALPHANUMERIC` and collects what it displays. Trusted: the result is
/// ASCII text that spells the percent-encoding of the input's UTF-8 bytes,
/// where every byte other than an ASCII letter or digit is written as `%`
/// and two upper-case hexadecimal digits.
#[verifier::external_body]
fn utf8_percent_encode(input: &str) -> (encoded: String)
    ensures
        encoded@ == ascii_text(percent_encoded(encode_utf8(input@))),
{
    percent_encoding::utf8_percent_encode(input, percent_encoding::NON_ALPHANUMERIC).to_string()
}

/// Calls `percent_encoding::percent_decode` and collects the bytes it yields.
/// Trusted: a `%` followed by two hexadecimal digits of either case yields
/// the byte they name; every other byte is yielded unchanged.
#[verifier::external_body]
fn percent_decode(input: &[u8]) -> (decoded: Vec<u8>)
    ensures
        decoded@ == percent_decoded(input@),
{
    percent_encoding::percent_decode(input).collect()
}

/// Calls `String::from_utf8_lossy`. Trusted: valid UTF-8 comes back as the
/// text it encodes; for other input the result is a function of the bytes
/// alone, which the library only names.
#[verifier::external_body]
pub(crate) fn from_utf8_lossy(bytes: &[u8]) -> (text: String)
    ensures
        valid_utf8(bytes@) ==> text@ == decode_utf8(bytes@),
        !valid_utf8(bytes@) ==> text@ == repaired_text(bytes@),
{
    String::from_utf8_lossy(bytes).into_owned()
}

/// Percent-encodes a path segment so that it can stand in a URL and in an
/// HTML attribute.
pub fn encode_path(path: &str) -> (encoded: String)
    ensures
        encoded@ == encoded_text(path@),
        is_ascii_chars(encoded@),
{
    proof {
        lemma_encoded_text_is_ascii(path@);
    }
    utf8_percent_encode(path)
}

/// Percent-decodes a request target. Malformed escapes stay as they are, and
/// bytes that do not form UTF-8 are repaired.
pub fn decode_url_encoded(path: &str) -> (decoded: String)
    ensures
        decoded@ == decoded_text(path@),
{
    let bytes = percent_decode(path.as_bytes());
    from_utf8_lossy(bytes.as_slice())
}

/// Every byte of percent-encoded text is an ASCII letter, a digit or `%`.
pub open spec fn is_encoded_byte(b: u8) -> bool {
    is_alphanumeric(b) || b == 0x25
}

proof fn lemma_hex_digit(v: u8)
    requires
        v < 16,
    ensures
        hex_value(hex_digit(v)) == Some(v),
        is_alphanumeric(hex_digit(v)),
{
}

proof fn lemma_decode_encoded_byte(b: u8, rest: Seq<u8>)
    ensures
        percent_decoded(encoded_byte(b) + rest) == seq![b] + percent_decoded(rest),
{
    let whole = encoded_byte(b) + rest;
    if is_alphanumeric(b) {
        assert(whole[0] == b);
        assert(whole.drop_first() =~= rest);
    } else {
        let high: u8 = b / 16;
        let low: u8 = b % 16;
        lemma_hex_digit(high);
        lemma_hex_digit(low);
        assert(whole[0] == 0x25 && whole[1] == hex_digit(high) && whole[2] == hex_digit(low));
        assert(starts_with_escape(whole));
        assert(whole.skip(3) =~= rest);
        assert(high * 16 + low == b);
    }
}

/// Decoding undoes encoding, byte for byte.
pub proof fn lemma_percent_round_trip(bytes: Seq<u8>)
    ensures
        percent_decoded(percent_encoded(bytes)) == bytes,
    decreases bytes.len(),
{
    if bytes.len() > 0 {
        let rest = bytes.drop_first();
        lemma_percent_round_trip(rest);
        lemma_decode_encoded_byte(bytes[0], percent_encoded(rest));
        assert(seq![bytes[0]] + rest =~= bytes);
    }
}

/// Encoded bytes are letters, digits and `%`, whatever went in.
pub proof fn lemma_percent_encoded_bytes(bytes: Seq<u8>)
    ensures
        forall|i: int|
            0 <= i < percent_encoded(bytes).len() ==> is_encoded_byte(
                #[trigger] percent_encoded(bytes)[i],
            ),
    decreases bytes.len(),
{
    if bytes.len() > 0 {
        let head = encoded_byte(bytes[0]);
        let tail = percent_encoded(bytes.drop_first());
        lemma_percent_encoded_bytes(bytes.drop_first());
        lemma_hex_digit(bytes[0] / 16);
        lemma_hex_digit(bytes[0] % 16);
        assert forall|i: int| 0 <= i < (head + tail).len() implies is_encoded_byte(
            #[trigger] (head + tail)[i],
        ) by {
            if i >= head.len() {
                assert((head + tail)[i] == tail[i - head.len()]);
            }
        }
    }
}

proof fn lemma_ascii_text_bytes(bytes: Seq<u8>)
    requires
        forall|i: int| 0 <= i < bytes.len() ==> #[trigger] bytes[i] < 0x80,
    ensures
        encode_utf8(ascii_text(bytes)) == bytes,
{
    let text = ascii_text(bytes);
    assert forall|i: int| 0 <= i < text.len() implies '\0' <= #[trigger] text[i] <= '\u{7f}' by {
        assert(bytes[i] < 0x80);
    }
    is_ascii_chars_encode_utf8(text);
    assert(encode_utf8(text) =~= bytes);
}

/// The encoded form of any text is ASCII, made of letters, digits and `%`,
/// and its UTF-8 bytes are the percent-encoding of the text's UTF-8 bytes.
pub proof fn lemma_encoded_text_is_ascii(segment: Seq<char>)
    ensures
        is_ascii_chars(encoded_text(segment)),
        encode_utf8(encoded_text(segment)) == percent_encoded(encode_utf8(segment)),
        forall|i: int|
            0 <= i < encoded_text(segment).len() ==> is_encoded_byte(
                #[trigger] encoded_text(segment)[i] as u8,
            ),
{
    let bytes = percent_encoded(encode_utf8(segment));
    lemma_percent_encoded_bytes(encode_utf8(segment));
    assert forall|i: int| 0 <= i < bytes.len() implies #[trigger] bytes[i] < 0x80 by {
        assert(is_encoded_byte(bytes[i]));
    }
    lemma_ascii_text_bytes(bytes);
    let text = encoded_text(segment);
    assert forall|i: int| 0 <= i < text.len() implies '\0' <= #[trigger] text[i] <= '\u{7f}'
        && is_encoded_byte(text[i] as u8) by {
        assert(is_encoded_byte(bytes[i]));
    }
}

/// Round trip: decoding the encoded form of any text gives the text back.
pub proof fn lemma_decode_encode_round_trip(text: Seq<char>)
    ensures
        decoded_text(encoded_text(text)) == text,
{
    let bytes = encode_utf8(text);
    lemma_encoded_text_is_ascii(text);
    lemma_percent_round_trip(bytes);
    encode_utf8_valid_utf8(text);
    encode_utf8_decode_utf8(text);
}

} // verus!
