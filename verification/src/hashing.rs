//! Digests and hexadecimal text.

use vstd::prelude::*;

verus! {

/// The 32-byte BLAKE3 digest of a byte string.
pub uninterp spec fn blake3_digest(bytes: Seq<u8>) -> Seq<u8>;

/// `blake3::hash`: the digest of the input, always thirty-two bytes.
#[verifier::external_body]
pub(crate) fn blake3_hash(bytes: &[u8]) -> (r: [u8; 32])
    ensures
        r@ == blake3_digest(bytes@),
{
    *blake3::hash(bytes).as_bytes()
}

/// The lower-case hexadecimal character of a value below sixteen.
pub open spec fn hex_char(v: int) -> char {
    if v == 10 {
        'a'
    } else if v == 11 {
        'b'
    } else if v == 12 {
        'c'
    } else if v == 13 {
        'd'
    } else if v == 14 {
        'e'
    } else if v == 15 {
        'f'
    } else {
        crate::text::digit_char(v)
    }
}

/// Lower-case hexadecimal text: two characters per byte, high half first.
pub open spec fn hex_text(bytes: Seq<u8>) -> Seq<char> {
    Seq::new(
        (2 * bytes.len()) as nat,
        |i: int|
            hex_char(
                if i % 2 == 0 {
                    bytes[i / 2] as int / 16
                } else {
                    bytes[i / 2] as int % 16
                },
            ),
    )
}

/// Whether a byte is an ASCII hexadecimal digit of either case.
pub open spec fn is_hex_byte(b: u8) -> bool {
    0x30 <= b <= 0x39 || 0x41 <= b <= 0x46 || 0x61 <= b <= 0x66
}

/// The value of a hexadecimal digit.
pub open spec fn hex_value(b: u8) -> int {
    if b <= 0x39 {
        b - 0x30
    } else if b <= 0x46 {
        b - 0x41 + 10
    } else {
        b - 0x61 + 10
    }
}

/// The bytes that hexadecimal text stands for; nothing when the text has an
/// odd length or holds another character.
pub open spec fn hex_decoded(s: Seq<u8>) -> Option<Seq<u8>> {
    if s.len() % 2 == 0 && (forall|i: int| 0 <= i < s.len() ==> is_hex_byte(#[trigger] s[i])) {
        Some(
            Seq::new(
                s.len() / 2,
                |i: int| (hex_value(s[2 * i]) * 16 + hex_value(s[2 * i + 1])) as u8,
            ),
        )
    } else {
        None
    }
}

/// `hex::encode`: the lower-case hexadecimal text of the bytes.
#[verifier::external_body]
pub(crate) fn hex_encode(bytes: &[u8]) -> (r: String)
    ensures
        r@ == hex_text(bytes@),
{
    hex::encode(bytes)
}

/// `hex::decode`: the bytes of hexadecimal text in either case; an error for an
/// odd length or any other character.
#[verifier::external_body]
pub(crate) fn hex_decode(s: &str) -> (r: Option<Vec<u8>>)
    ensures
        match r {
            Some(v) => hex_decoded(vstd::utf8::encode_utf8(s@)) == Some(v@),
            None => hex_decoded(vstd::utf8::encode_utf8(s@)) is None,
        },
{
    hex::decode(s).ok()
}

/// Hexadecimal digest text of a byte string.
pub fn blake3_hex(bytes: &[u8]) -> (r: String)
    ensures
        r@ == hex_text(blake3_digest(bytes@)),
{
    let digest: [u8; 32] = blake3_hash(bytes);
    hex_encode(digest.as_slice())
}

/// Hexadecimal text is ASCII, so its bytes are its characters.
pub proof fn hex_text_bytes(bytes: Seq<u8>)
    ensures
        vstd::utf8::encode_utf8(hex_text(bytes)) == Seq::new(
            (2 * bytes.len()) as nat,
            |i: int| hex_text(bytes)[i] as u8,
        ),
{
    let t = hex_text(bytes);
    assert(vstd::utf8::is_ascii_chars(t));
    vstd::utf8::is_ascii_chars_encode_utf8(t);
}

/// Decoding hexadecimal text gives back the bytes it was made of.
pub proof fn hex_round_trip(bytes: Seq<u8>)
    ensures
        hex_decoded(vstd::utf8::encode_utf8(hex_text(bytes))) == Some(bytes),
{
    hex_text_bytes(bytes);
    let s = vstd::utf8::encode_utf8(hex_text(bytes));
    assert forall|i: int| 0 <= i < s.len() implies is_hex_byte(#[trigger] s[i]) by {
        assert(0 <= bytes[i / 2] as int / 16 <= 15);
        assert(0 <= bytes[i / 2] as int % 16 <= 15);
    }
    let d = hex_decoded(s)->0;
    assert forall|i: int| 0 <= i < bytes.len() implies d[i] == bytes[i] by {
        let b = bytes[i] as int;
        assert((2 * i) % 2 == 0 && (2 * i) / 2 == i);
        assert((2 * i + 1) % 2 == 1 && (2 * i + 1) / 2 == i);
        assert(s[2 * i] == hex_char(b / 16) as u8);
        assert(s[2 * i + 1] == hex_char(b % 16) as u8);
        assert(hex_value(s[2 * i]) == b / 16);
        assert(hex_value(s[2 * i + 1]) == b % 16);
    }
    assert(d =~= bytes);
}

} // verus!
