//! 32 bytes as a string of 64 lower-case hexadecimal digits.
//!
//! Reading rejects any other length and any other character. Capitals are
//! rejected too, so that two implementations cannot write the same value in
//! different ways.
use vstd::prelude::*;
use vstd::utf8::{encode_utf8, encode_utf8_decode_utf8, is_ascii_chars, is_ascii_chars_encode_utf8};

use crate::hexcode::{self, all_hex, digit_value, first_invalid, hex_bytes, hex_encode, hex_value, law_hex_writes_the_bytes, lemma_first_invalid, lemma_hex_encode_ascii, lemma_hex_injective, lemma_hex_roundtrip, lemma_hex_text, HexError};

verus! {

/// Why a string is not 32 bytes in canonical hexadecimal.
#[derive(Clone, Copy, Debug)]
pub enum HexArrayError {
    /// The string has `len` bytes instead of 64.
    InvalidLength { len: usize },
    /// The string has the right length and holds an ASCII capital.
    Uppercase,
    /// The string has the right length, no capital, and a character that is no
    /// hexadecimal digit.
    Hex(HexError),
}

/// Whether an ASCII capital is among the bytes of `text`.
pub open spec fn has_capital(text: Seq<u8>) -> bool {
    exists|i: int| 0 <= i < text.len() && 65 <= #[trigger] text[i] <= 90
}

/// Whether `text` is the canonical form of 32 bytes.
pub open spec fn canonical(text: Seq<char>) -> bool {
    exists|a: Seq<u8>| a.len() == 32 && text == #[trigger] hex_encode(a)
}

/// Write a 32-byte array as a string of 64 lower-case hexadecimal digits.
pub fn serialize(bytes: &[u8; 32]) -> (r: String)
    ensures
        r@ == hex_encode(bytes@),
{
    hexcode::encode(bytes.as_slice())
}

/// Read a 32-byte array from a string of 64 lower-case hexadecimal digits.
pub fn deserialize(s: &str) -> (r: Result<[u8; 32], HexArrayError>)
    ensures
        match r {
            Ok(a) => s@ == hex_encode(a@),
            Err(HexArrayError::InvalidLength { len }) => len == encode_utf8(s@).len() && len != 64,
            Err(HexArrayError::Uppercase) => encode_utf8(s@).len() == 64 && has_capital(
                encode_utf8(s@),
            ),
            Err(HexArrayError::Hex(e)) => encode_utf8(s@).len() == 64 && !has_capital(
                encode_utf8(s@),
            ) && first_invalid(encode_utf8(s@), e),
        },
        canonical(s@) ==> r is Ok,
{
    let bytes = s.as_bytes();
    let ghost text = encode_utf8(s@);
    proof {
        if canonical(s@) {
            let a = choose|a: Seq<u8>| a.len() == 32 && s@ == #[trigger] hex_encode(a);
            lemma_canonical(a);
        }
    }
    if bytes.len() != 64 {
        return Err(HexArrayError::InvalidLength { len: bytes.len() });
    }
    let mut i: usize = 0;
    while i < 64
        invariant
            i <= 64,
            bytes@ == text,
            text.len() == 64,
            text == encode_utf8(s@),
            forall|j: int| 0 <= j < i ==> !(65 <= #[trigger] text[j] <= 90),
            canonical(s@) ==> !has_capital(text) && all_hex(text),
        decreases 64 - i,
    {
        if 65 <= bytes[i] && bytes[i] <= 90 {
            assert(65 <= text[i as int] <= 90);
            return Err(HexArrayError::Uppercase);
        }
        i = i + 1;
    }
    match hexcode::decode_array(s) {
        Ok(a) => {
            proof {
                lemma_lower_case_is_canonical(s@, a@);
            }
            Ok(a)
        },
        Err(e) => {
            proof {
                lemma_first_invalid(text, e);
            }
            Err(HexArrayError::Hex(e))
        },
    }
}

/// A canonical form has 64 bytes, no capital and only digits.
proof fn lemma_canonical(a: Seq<u8>)
    requires
        a.len() == 32,
    ensures
        encode_utf8(hex_encode(a)).len() == 64,
        !has_capital(encode_utf8(hex_encode(a))),
        all_hex(encode_utf8(hex_encode(a))),
{
    lemma_hex_encode_ascii(a);
    lemma_hex_roundtrip(a);
    let t = encode_utf8(hex_encode(a));
    assert forall|i: int| 0 <= i < t.len() implies !(65 <= #[trigger] t[i] <= 90) by {
        assert(t[i] as int == hex_encode(a)[i] as int);
    }
}

/// Without capitals, a text of 64 digits is the canonical form of its bytes.
proof fn lemma_lower_case_is_canonical(s: Seq<char>, a: Seq<u8>)
    requires
        encode_utf8(s).len() == 64,
        all_hex(encode_utf8(s)),
        a == hex_bytes(encode_utf8(s)),
        forall|j: int| 0 <= j < 64 ==> !(65 <= #[trigger] encode_utf8(s)[j] <= 90),
    ensures
        s == hex_encode(a),
{
    let t = encode_utf8(s);
    let u = encode_utf8(hex_encode(a));
    lemma_hex_encode_ascii(a);
    assert forall|i: int| 0 <= i < 64 implies t[i] == u[i] by {
        assert(u[i] as int == hex_encode(a)[i] as int);
        let q = i / 2;
        assert(hex_value(t[2 * q]) is Some);
        assert(hex_value(t[2 * q + 1]) is Some);
        assert(a[q] as int == 16 * hex_value(t[2 * q])->0 + hex_value(t[2 * q + 1])->0);
        assert(!(65 <= t[i] <= 90));
        if i % 2 == 0 {
            assert(i == 2 * q);
            assert(a[q] as int / 16 == hex_value(t[i])->0);
        } else {
            assert(i == 2 * q + 1);
            assert(a[q] as int % 16 == hex_value(t[i])->0);
        }
    }
    assert(t =~= u);
    encode_utf8_decode_utf8(s);
    encode_utf8_decode_utf8(hex_encode(a));
}

/// Law: what is read: exactly the strings of 64 hexadecimal digits without capitals,
/// two digits to a byte. A capital of any kind among 64 ASCII characters is told as
/// such.
pub proof fn law_what_is_read(s: &str, r: Result<[u8; 32], HexArrayError>)
    requires
        call_ensures(deserialize, (s,), r),
    ensures
        r is Ok <==> s@.len() == 64 && forall|i: int|
            0 <= i < s@.len() ==> ('0' <= #[trigger] s@[i] <= '9' || 'a' <= s@[i] <= 'f'),
        r matches Ok(a) ==> forall|i: int|
            0 <= i < 32 ==> #[trigger] a@[i] == 16 * digit_value(s@[2 * i])->0 + digit_value(
                s@[2 * i + 1],
            )->0,
        s@.len() == 64 && is_ascii_chars(s@) && (exists|i: int|
            0 <= i < 64 && 'A' <= #[trigger] s@[i] <= 'Z') ==> r matches Err(
            HexArrayError::Uppercase,
        ),
        r matches Err(HexArrayError::InvalidLength { len }) ==> len == encode_utf8(s@).len() && len
            != 64,
        encode_utf8(s@).len() != 64 ==> (r matches Err(HexArrayError::InvalidLength { .. })),
        r matches Err(HexArrayError::Hex(e)) ==> {
            let bytes = encode_utf8(s@);
            &&& forall|i: int| 0 <= i < bytes.len() ==> !(65 <= #[trigger] bytes[i] <= 90)
            &&& e matches HexError::InvalidHexCharacter { c, index } && index < bytes.len() && c
                as int == bytes[index as int] as int && !('0' <= c <= '9' || 'a' <= c <= 'f')
                && forall|i: int|
                0 <= i < index ==> (48 <= #[trigger] bytes[i] <= 57 || 97 <= bytes[i] <= 102)
        },
{
    let text = encode_utf8(s@);
    lemma_hex_text(s@);
    if let Ok(a) = r {
        law_hex_writes_the_bytes(a@);
        lemma_hex_encode_ascii(a@);
    }
    if s@.len() == 64 && (forall|i: int|
        0 <= i < s@.len() ==> ('0' <= #[trigger] s@[i] <= '9' || 'a' <= s@[i] <= 'f')) {
        assert forall|i: int| 0 <= i < s@.len() implies digit_value(#[trigger] s@[i]) is Some by {}
        assert(all_hex(text));
        assert forall|j: int| 0 <= j < 64 implies !(65 <= #[trigger] text[j] <= 90) by {
            assert(digit_value(s@[j]) == hex_value(text[j]));
            assert('0' <= s@[j] <= '9' || 'a' <= s@[j] <= 'f');
            is_ascii_chars_encode_utf8(s@);
        }
        lemma_lower_case_is_canonical(s@, hex_bytes(text));
        assert(hex_bytes(text).len() == 32);
    }
    if let Err(HexArrayError::Hex(HexError::InvalidHexCharacter { index, .. })) = r {
        assert(hex_value(text[index as int]) is None);
        assert forall|i: int| 0 <= i < index implies (48 <= #[trigger] text[i] <= 57 || 97 <= text[i]
            <= 102) by {
            assert(hex_value(text[i]) is Some);
        }
    }
    if s@.len() == 64 && is_ascii_chars(s@) {
        is_ascii_chars_encode_utf8(s@);
        assert(text.len() == 64);
        if exists|i: int| 0 <= i < 64 && 'A' <= #[trigger] s@[i] <= 'Z' {
            let i = choose|i: int| 0 <= i < 64 && 'A' <= #[trigger] s@[i] <= 'Z';
            assert(text[i] as int == s@[i] as int);
            assert(65 <= text[i] <= 90);
            assert(has_capital(text));
            if let Ok(a) = r {
                assert(hex_encode(a@)[i] == s@[i]);
            }
        }
    }
}

/// Law: what is written: 64 digits without capitals, from which the same bytes are
/// read.
pub proof fn law_written_bytes_are_read_back(
    bytes: [u8; 32],
    written: String,
    s: &str,
    r: Result<[u8; 32], HexArrayError>,
)
    requires
        call_ensures(serialize, (&bytes,), written),
        call_ensures(deserialize, (s,), r),
        s@ == written@,
    ensures
        written@.len() == 64,
        r matches Ok(a) && a@ == bytes@,
{
    law_hex_writes_the_bytes(bytes@);
    assert(bytes@.len() == 32 && s@ == hex_encode(bytes@));
    if let Ok(a) = r {
        lemma_hex_injective(a@, bytes@);
    }
}

/// Law: a value is read from exactly one string, the one it is written as.
pub proof fn law_canonical_form_is_unique(s: Seq<char>, a: Seq<u8>, b: Seq<u8>)
    requires
        s == hex_encode(a),
        s == hex_encode(b),
    ensures
        a == b,
{
    lemma_hex_injective(a, b);
}

/// Law: what was written reads back as the same bytes: `r` is what `deserialize`
/// promises for the string that `serialize` gives for `a`.
pub proof fn law_roundtrip(a: Seq<u8>, r: Option<Seq<u8>>)
    requires
        a.len() == 32,
        r matches Some(b) ==> hex_encode(a) == hex_encode(b),
        (exists|b: Seq<u8>| b.len() == 32 && hex_encode(a) == #[trigger] hex_encode(b)) ==> r
            is Some,
    ensures
        r == Some(a),
{
    assert(a.len() == 32 && hex_encode(a) == hex_encode(a));
    lemma_hex_injective(a, r->0);
}

} // verus!
