//! Opaque bytes as an unpadded base64url string.
//!
//! Reading tolerates padding; writing always omits it.
use vstd::prelude::*;

use crate::base64url::{self, b64_encode, b64_encode_padded, lemma_b64_injective, lemma_b64_padded_injective, lemma_b64_padding, padding_count, sextet, symbol, symbol_count, url_safe_error};

verus! {

/// `text` is a form of `bytes` that reading accepts: padded or not.
pub open spec fn writes(text: Seq<char>, bytes: Seq<u8>) -> bool {
    text == b64_encode(bytes) || text == b64_encode_padded(bytes)
}

/// Whether `text` is such a form of any bytes at all.
pub open spec fn readable(text: Seq<char>) -> bool {
    exists|bytes: Seq<u8>| #[trigger] writes(text, bytes)
}

/// Write opaque bytes as an unpadded base64url string.
pub fn serialize(bytes: &[u8]) -> (r: String)
    requires
        symbol_count(bytes@.len()) <= isize::MAX,
    ensures
        r@ == b64_encode(bytes@),
{
    base64url::encode(bytes)
}

/// Read opaque bytes from a base64url string, padded or unpadded. The error is
/// worded as that of the padded reading.
pub fn deserialize(s: &str) -> (r: Result<Vec<u8>, String>)
    ensures
        match r {
            Ok(v) => writes(s@, v@),
            Err(e) => e@ == url_safe_error(s@) && !readable(s@),
        },
{
    match base64url::decode_unpadded(s) {
        Some(v) => Ok(v),
        None => base64url::decode_padded(s),
    }
}

/// Law: a string is refused only if no bytes at all are written as it, with padding or
/// without, and the error is that of the padded reading; what is read from any other
/// string is bytes that are written as it.
pub proof fn law_what_is_refused(s: &str, r: Result<Vec<u8>, String>, bytes: Seq<u8>)
    requires
        call_ensures(deserialize, (s,), r),
    ensures
        s@ == b64_encode(bytes) || s@ == b64_encode_padded(bytes) ==> r is Ok,
        r matches Ok(v) ==> s@ == b64_encode(v@) || s@ == b64_encode_padded(v@),
        r matches Err(e) ==> e@ == url_safe_error(s@),
{
    if s@ == b64_encode(bytes) || s@ == b64_encode_padded(bytes) {
        assert(writes(s@, bytes));
    }
}

/// Law: opaque bytes are written without padding and read back as the same bytes, from
/// the string they are written as and from the same string with the padding that
/// brings it to a multiple of four; nothing is lost, however many bytes there are.
pub proof fn law_written_bytes_are_read_back(
    bytes: &[u8],
    written: String,
    s: &str,
    r: Result<Vec<u8>, String>,
)
    requires
        call_ensures(serialize, (bytes,), written),
        call_ensures(deserialize, (s,), r),
        s@ == written@ || (s@.len() % 4 == 0 && written@.len() < s@.len() < written@.len() + 4
            && s@.take(written@.len() as int) == written@ && forall|i: int|
            written@.len() <= i < s@.len() ==> #[trigger] s@[i] == '='),
    ensures
        written@.len() == (4 * bytes@.len() + 2) / 3,
        !written@.contains('='),
        r matches Ok(v) && v@ == bytes@,
{
    let text = b64_encode(bytes@);
    if s@ != written@ {
        let padded = b64_encode_padded(bytes@);
        assert(padding_count(text.len()) == s@.len() - text.len());
        assert forall|i: int| 0 <= i < s@.len() implies s@[i] == padded[i] by {
            if i < text.len() {
                assert(s@[i] == s@.take(text.len() as int)[i]);
            }
        }
        assert(s@ =~= padded);
    }
    assert(writes(s@, bytes@));
    if let Ok(v) = r {
        law_one_reading(s@, v@, bytes@);
    }
    if text.contains('=') {
        let i = choose|i: int| 0 <= i < text.len() && text[i] == '=';
        assert(text[i] == symbol(sextet(bytes@, i)));
    }
}

/// Law: a string is a form of at most one value.
pub proof fn law_one_reading(text: Seq<char>, a: Seq<u8>, b: Seq<u8>)
    requires
        writes(text, a),
        writes(text, b),
    ensures
        a == b,
{
    if text == b64_encode(a) && text == b64_encode(b) {
        lemma_b64_injective(a, b);
    } else if text == b64_encode(b) {
        lemma_b64_padding(a, b);
    } else if text == b64_encode(a) {
        lemma_b64_padding(b, a);
    } else {
        lemma_b64_padded_injective(a, b);
    }
}

/// Law: what was written reads back as the same bytes, and so does the same
/// text with padding: `r` is what `deserialize` promises for either text.
pub proof fn law_roundtrip(bytes: Seq<u8>, text: Seq<char>, r: Result<Seq<u8>, Seq<char>>)
    requires
        text == b64_encode(bytes) || text == b64_encode_padded(bytes),
        match r {
            Ok(v) => writes(text, v),
            Err(e) => forall|v: Seq<u8>| !#[trigger] writes(text, v),
        },
    ensures
        r == Ok::<Seq<u8>, Seq<char>>(bytes),
{
    assert(writes(text, bytes));
    match r {
        Ok(v) => law_one_reading(text, v, bytes),
        Err(_) => {},
    }
}

} // verus!
