//! Hexadecimal text: what it means, and the calls into the `hex` crate.
use vstd::prelude::*;
use vstd::utf8::{encode_utf8, encode_utf8_decode_utf8, is_ascii_chars, is_ascii_chars_encode_utf8};

verus! {

/// The lower-case hexadecimal digit for `n`, for `n` below sixteen.
pub open spec fn hex_digit(n: int) -> char {
    if n < 10 {
        (48 + n) as char
    } else {
        (87 + n) as char
    }
}

/// `bytes` written with two lower-case hexadecimal digits for each byte, the
/// high half first.
pub open spec fn hex_encode(bytes: Seq<u8>) -> Seq<char> {
    Seq::new(
        2 * bytes.len(),
        |i: int|
            if i % 2 == 0 {
                hex_digit(bytes[i / 2] as int / 16)
            } else {
                hex_digit(bytes[i / 2] as int % 16)
            },
    )
}

/// The value of a hexadecimal digit, of either case.
pub open spec fn hex_value(c: u8) -> Option<int> {
    if 48 <= c <= 57 {
        Some(c - 48)
    } else if 97 <= c <= 102 {
        Some(c - 87)
    } else if 65 <= c <= 70 {
        Some(c - 55)
    } else {
        None
    }
}

/// Whether `text` is made of hexadecimal digits only.
pub open spec fn all_hex(text: Seq<u8>) -> bool {
    forall|i: int| 0 <= i < text.len() ==> (#[trigger] hex_value(text[i])) is Some
}

/// The bytes that `text` writes, two digits to a byte.
pub open spec fn hex_bytes(text: Seq<u8>) -> Seq<u8> {
    Seq::new(
        text.len() / 2,
        |i: int| (16 * hex_value(text[2 * i])->0 + hex_value(text[2 * i + 1])->0) as u8,
    )
}

/// The bytes that `text` writes, if it has an even number of digits and
/// nothing else.
pub open spec fn hex_decode(text: Seq<u8>) -> Option<Seq<u8>> {
    if text.len() % 2 == 0 && all_hex(text) {
        Some(hex_bytes(text))
    } else {
        None
    }
}

/// Why a text is not the hexadecimal form that was asked for.
#[derive(Clone, Copy, Debug)]
pub enum HexError {
    /// A byte that is no hexadecimal digit, and where it stands.
    InvalidHexCharacter { c: char, index: usize },
    /// The number of digits is odd.
    OddLength,
    /// The number of digits does not fit the array to fill.
    InvalidStringLength,
}

/// `e` names the first byte of `text` that is no hexadecimal digit.
pub open spec fn first_invalid(text: Seq<u8>, e: HexError) -> bool {
    match e {
        HexError::InvalidHexCharacter { c, index } => {
            &&& index < text.len()
            &&& c as int == text[index as int] as int
            &&& hex_value(text[index as int]) is None
            &&& forall|i: int| 0 <= i < index ==> (#[trigger] hex_value(text[i])) is Some
        },
        _ => false,
    }
}

/// Calls `hex::encode`, which writes two lower-case digits for each byte.
#[verifier::external_body]
pub(crate) fn encode(bytes: &[u8]) -> (r: String)
    requires
        2 * bytes@.len() <= isize::MAX,
    ensures
        r@ == hex_encode(bytes@),
{
    hex::encode(bytes)
}

/// Calls `hex::decode`, which takes digits of either case, refuses an odd
/// number of bytes first, and otherwise names the first byte that is no digit.
#[verifier::external_body]
pub(crate) fn decode(text: &str) -> (r: Result<Vec<u8>, HexError>)
    ensures
        match r {
            Ok(v) => hex_decode(encode_utf8(text@)) == Some(v@),
            Err(HexError::OddLength) => encode_utf8(text@).len() % 2 != 0,
            Err(e) => encode_utf8(text@).len() % 2 == 0 && first_invalid(encode_utf8(text@), e),
        },
{
    hex::decode(text).map_err(|e| match e {
        hex::FromHexError::InvalidHexCharacter { c, index } => HexError::InvalidHexCharacter { c, index },
        hex::FromHexError::OddLength => HexError::OddLength,
        hex::FromHexError::InvalidStringLength => HexError::InvalidStringLength,
    })
}

/// Calls `hex::decode_to_slice` on an array of 32 bytes. It refuses an odd
/// number of bytes, then any number of bytes but 64, and otherwise names the
/// first byte that is no digit.
#[verifier::external_body]
pub(crate) fn decode_array(text: &str) -> (r: Result<[u8; 32], HexError>)
    ensures
        match r {
            Ok(a) => encode_utf8(text@).len() == 64 && hex_decode(encode_utf8(text@)) == Some(a@),
            Err(HexError::OddLength) => encode_utf8(text@).len() % 2 != 0,
            Err(HexError::InvalidStringLength) => encode_utf8(text@).len() % 2 == 0
                && encode_utf8(text@).len() != 64,
            Err(e) => encode_utf8(text@).len() == 64 && first_invalid(encode_utf8(text@), e),
        },
{
    let mut out = [0u8; 32];
    match hex::decode_to_slice(text, &mut out) {
        Ok(()) => Ok(out),
        Err(hex::FromHexError::InvalidHexCharacter { c, index }) => {
            Err(HexError::InvalidHexCharacter { c, index })
        },
        Err(hex::FromHexError::OddLength) => Err(HexError::OddLength),
        Err(hex::FromHexError::InvalidStringLength) => Err(HexError::InvalidStringLength),
    }
}

/// A text with a byte that is no digit has no hexadecimal reading.
pub proof fn lemma_first_invalid(text: Seq<u8>, e: HexError)
    requires
        first_invalid(text, e),
    ensures
        !all_hex(text),
{
    match e {
        HexError::InvalidHexCharacter { c, index } => {
            assert(hex_value(text[index as int]) is None);
        },
        _ => {},
    }
}

/// The hexadecimal form is ASCII, so that its bytes are its characters, and
/// it holds small letters and digits only.
pub proof fn lemma_hex_encode_ascii(bytes: Seq<u8>)
    ensures
        is_ascii_chars(hex_encode(bytes)),
        encode_utf8(hex_encode(bytes)).len() == 2 * bytes.len(),
        forall|i: int|
            0 <= i < 2 * bytes.len() ==> #[trigger] encode_utf8(hex_encode(bytes))[i] as int
                == hex_encode(bytes)[i] as int,
        forall|i: int|
            0 <= i < 2 * bytes.len() ==> ('0' <= #[trigger] hex_encode(bytes)[i] <= '9' || 'a'
                <= hex_encode(bytes)[i] <= 'f'),
{
    let s = hex_encode(bytes);
    assert forall|i: int| 0 <= i < s.len() implies ('0' <= #[trigger] s[i] <= '9' || 'a' <= s[i]
        <= 'f') by {
        assert(0 <= bytes[i / 2] as int / 16 < 16);
    }
    is_ascii_chars_encode_utf8(s);
}

/// The value of a character as a hexadecimal digit, of either case.
pub open spec fn digit_value(c: char) -> Option<int> {
    if '0' <= c <= '9' {
        Some(c as int - '0' as int)
    } else if 'a' <= c <= 'f' {
        Some(10 + (c as int - 'a' as int))
    } else if 'A' <= c <= 'F' {
        Some(10 + (c as int - 'A' as int))
    } else {
        None
    }
}

/// A text whose bytes are all ASCII has one character for each byte.
pub proof fn lemma_ascii_text(text: Seq<char>)
    requires
        forall|i: int| 0 <= i < encode_utf8(text).len() ==> #[trigger] encode_utf8(text)[i] < 128,
    ensures
        text.len() == encode_utf8(text).len(),
        forall|i: int|
            0 <= i < text.len() ==> #[trigger] text[i] as int == encode_utf8(text)[i] as int,
{
    let bytes = encode_utf8(text);
    let plain = Seq::new(bytes.len(), |i: int| bytes[i] as char);
    is_ascii_chars_encode_utf8(plain);
    assert(encode_utf8(plain) =~= bytes);
    encode_utf8_decode_utf8(text);
    encode_utf8_decode_utf8(plain);
}

/// A text is hexadecimal exactly where its characters are digits, and its bytes have
/// the values of the characters.
pub proof fn lemma_hex_text(text: Seq<char>)
    ensures
        all_hex(encode_utf8(text)) <==> forall|i: int|
            0 <= i < text.len() ==> digit_value(#[trigger] text[i]) is Some,
        all_hex(encode_utf8(text)) ==> text.len() == encode_utf8(text).len() && forall|i: int|
            0 <= i < text.len() ==> digit_value(#[trigger] text[i]) == hex_value(
                encode_utf8(text)[i],
            ),
{
    let bytes = encode_utf8(text);
    if all_hex(bytes) {
        assert forall|i: int| 0 <= i < bytes.len() implies #[trigger] bytes[i] < 128 by {
            assert(hex_value(bytes[i]) is Some);
        }
        lemma_ascii_text(text);
        assert forall|i: int| 0 <= i < text.len() implies digit_value(#[trigger] text[i])
            == hex_value(bytes[i]) && digit_value(text[i]) is Some by {
            assert(hex_value(bytes[i]) is Some);
        }
    }
    if forall|i: int| 0 <= i < text.len() ==> digit_value(#[trigger] text[i]) is Some {
        assert(is_ascii_chars(text)) by {
            assert forall|i: int| 0 <= i < text.len() implies 0 <= #[trigger] text[i] as nat <= 127 by {
                assert(digit_value(text[i]) is Some);
            }
        }
        is_ascii_chars_encode_utf8(text);
        assert forall|i: int| 0 <= i < bytes.len() implies (#[trigger] hex_value(
            bytes[i],
        )) is Some by {
            assert(digit_value(text[i]) is Some);
            assert(bytes[i] as int == text[i] as int);
        }
    }
}

/// Law: the hexadecimal form has two digits for each byte, small letters among them,
/// and they write that byte.
pub proof fn law_hex_writes_the_bytes(bytes: Seq<u8>)
    ensures
        hex_encode(bytes).len() == 2 * bytes.len(),
        forall|i: int|
            0 <= i < bytes.len() ==> digit_value(hex_encode(bytes)[2 * i]) is Some && digit_value(
                hex_encode(bytes)[2 * i + 1],
            ) is Some && #[trigger] bytes[i] == 16 * digit_value(hex_encode(bytes)[2 * i])->0
                + digit_value(hex_encode(bytes)[2 * i + 1])->0,
        forall|i: int|
            0 <= i < 2 * bytes.len() ==> !('A' <= #[trigger] hex_encode(bytes)[i] <= 'F'),
{
    let s = hex_encode(bytes);
    lemma_hex_encode_ascii(bytes);
    assert forall|i: int| 0 <= i < bytes.len() implies digit_value(s[2 * i]) is Some && digit_value(
        s[2 * i + 1],
    ) is Some && #[trigger] bytes[i] == 16 * digit_value(s[2 * i])->0 + digit_value(
        s[2 * i + 1],
    )->0 by {
        assert((2 * i) / 2 == i && (2 * i + 1) / 2 == i);
        assert(0 <= bytes[i] as int / 16 < 16);
    }
}

/// Law: decoding undoes encoding.
pub proof fn lemma_hex_roundtrip(bytes: Seq<u8>)
    ensures
        hex_decode(encode_utf8(hex_encode(bytes))) == Some(bytes),
{
    let s = hex_encode(bytes);
    let t = encode_utf8(s);
    lemma_hex_encode_ascii(bytes);
    assert forall|i: int| 0 <= i < t.len() implies (#[trigger] hex_value(t[i])) is Some && hex_value(
        t[i],
    )->0 == (if i % 2 == 0 {
        bytes[i / 2] as int / 16
    } else {
        bytes[i / 2] as int % 16
    }) by {
        assert(t[i] as int == s[i] as int);
        assert(0 <= bytes[i / 2] as int / 16 < 16);
    }
    assert forall|i: int| 0 <= i < bytes.len() implies hex_bytes(t)[i] == bytes[i] by {
        assert((2 * i) / 2 == i && (2 * i + 1) / 2 == i);
        assert(hex_value(t[2 * i])->0 == bytes[i] as int / 16);
        assert(hex_value(t[2 * i + 1])->0 == bytes[i] as int % 16);
    }
    assert(hex_bytes(t) =~= bytes);
}

/// Distinct byte sequences have distinct hexadecimal forms.
pub proof fn lemma_hex_injective(a: Seq<u8>, b: Seq<u8>)
    requires
        hex_encode(a) == hex_encode(b),
    ensures
        a == b,
{
    lemma_hex_roundtrip(a);
    lemma_hex_roundtrip(b);
}

} // verus!
