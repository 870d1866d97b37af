//! Base64url text: what it means, and the calls into the `base64` crate.
use base64::engine::general_purpose::{URL_SAFE, URL_SAFE_NO_PAD};
use base64::Engine;
use vstd::prelude::*;

verus! {

/// The base64url symbol for `v`, for `v` below 64.
pub open spec fn symbol(v: int) -> char {
    if v < 26 {
        (65 + v) as char
    } else if v < 52 {
        (71 + v) as char
    } else if v < 62 {
        (v - 4) as char
    } else if v == 62 {
        '-'
    } else {
        '_'
    }
}

/// Byte `i` of `bytes`, and zero past the end.
pub open spec fn byte_at(bytes: Seq<u8>, i: int) -> int {
    if i < bytes.len() {
        bytes[i] as int
    } else {
        0
    }
}

/// Group `i` of six bits, counted from the start of `bytes`.
pub open spec fn sextet(bytes: Seq<u8>, i: int) -> int {
    let first = byte_at(bytes, 3 * (i / 4));
    let second = byte_at(bytes, 3 * (i / 4) + 1);
    let third = byte_at(bytes, 3 * (i / 4) + 2);
    if i % 4 == 0 {
        first / 4
    } else if i % 4 == 1 {
        (first % 4) * 16 + second / 16
    } else if i % 4 == 2 {
        (second % 16) * 4 + third / 64
    } else {
        third % 64
    }
}

/// How many symbols `n` bytes need.
pub open spec fn symbol_count(n: nat) -> nat {
    (4 * n + 2) / 3
}

/// `bytes` in base64url without padding: one symbol for each group of six
/// bits, the last group filled up with zero bits.
pub open spec fn b64_encode(bytes: Seq<u8>) -> Seq<char> {
    Seq::new(symbol_count(bytes.len()), |i: int| symbol(sextet(bytes, i)))
}

/// How many `=` bring `n` symbols to a multiple of four.
pub open spec fn padding_count(n: nat) -> nat {
    ((4 - n % 4) % 4) as nat
}

/// `bytes` in base64url with padding.
pub open spec fn b64_encode_padded(bytes: Seq<u8>) -> Seq<char> {
    let s = b64_encode(bytes);
    s + Seq::new(padding_count(s.len()), |i: int| '=')
}

/// How the `base64` crate words why a text is not padded base64url.
pub uninterp spec fn url_safe_error(text: Seq<char>) -> Seq<char>;

/// Calls `encode` of the engine `URL_SAFE_NO_PAD`, which writes base64url
/// without padding.
#[verifier::external_body]
pub(crate) fn encode(bytes: &[u8]) -> (r: String)
    requires
        symbol_count(bytes@.len()) <= isize::MAX,
    ensures
        r@ == b64_encode(bytes@),
{
    URL_SAFE_NO_PAD.encode(bytes)
}

/// Calls `decode` of the engine `URL_SAFE_NO_PAD`. It takes a text exactly
/// where it is what `encode` writes: symbols of the alphabet, no padding, and
/// no bits set past the last byte.
#[verifier::external_body]
pub(crate) fn decode_unpadded(text: &str) -> (r: Option<Vec<u8>>)
    ensures
        match r {
            Some(v) => text@ == b64_encode(v@),
            None => forall|v: Seq<u8>| text@ != #[trigger] b64_encode(v),
        },
{
    URL_SAFE_NO_PAD.decode(text).ok()
}

/// Calls `decode` of the engine `URL_SAFE`, which differs from the above in
/// that it asks for the padding.
#[verifier::external_body]
pub(crate) fn decode_padded(text: &str) -> (r: Result<Vec<u8>, String>)
    ensures
        match r {
            Ok(v) => text@ == b64_encode_padded(v@),
            Err(e) => e@ == url_safe_error(text@) && forall|v: Seq<u8>|
                text@ != #[trigger] b64_encode_padded(v),
        },
{
    URL_SAFE.decode(text).map_err(|e| e.to_string())
}

proof fn lemma_sextet_range(bytes: Seq<u8>, i: int)
    requires
        0 <= i,
    ensures
        0 <= sextet(bytes, i) < 64,
{
}

proof fn lemma_symbol_injective(a: int, b: int)
    requires
        0 <= a < 64,
        0 <= b < 64,
        symbol(a) == symbol(b),
    ensures
        a == b,
{
}

/// Distinct byte sequences have distinct base64url forms.
pub proof fn lemma_b64_injective(a: Seq<u8>, b: Seq<u8>)
    requires
        b64_encode(a) == b64_encode(b),
    ensures
        a == b,
{
    assert(b64_encode(a).len() == symbol_count(a.len()));
    assert(b64_encode(b).len() == symbol_count(b.len()));
    assert(a.len() == b.len());
    let n = symbol_count(a.len());
    assert forall|i: int| 0 <= i < n implies sextet(a, i) == sextet(b, i) by {
        assert(b64_encode(a)[i] == symbol(sextet(a, i)));
        assert(b64_encode(b)[i] == symbol(sextet(b, i)));
        lemma_sextet_range(a, i);
        lemma_sextet_range(b, i);
        lemma_symbol_injective(sextet(a, i), sextet(b, i));
    }
    assert forall|k: int| 0 <= k < a.len() implies a[k] == b[k] by {
        let q = k / 3;
        assert(sextet(a, 4 * q) == sextet(b, 4 * q));
        assert(sextet(a, 4 * q + 1) == sextet(b, 4 * q + 1));
        if k % 3 == 1 {
            assert(sextet(a, 4 * q + 2) == sextet(b, 4 * q + 2));
        }
        if k % 3 == 2 {
            assert(sextet(a, 4 * q + 2) == sextet(b, 4 * q + 2));
            assert(sextet(a, 4 * q + 3) == sextet(b, 4 * q + 3));
        }
        assert((4 * q) / 4 == q && (4 * q + 1) / 4 == q && (4 * q + 2) / 4 == q && (4 * q + 3) / 4
            == q);
        lemma_group(a, q);
        lemma_group(b, q);
    }
    assert(a =~= b);
}

/// The three bytes of a group, read back from its four sextets.
proof fn lemma_group(bytes: Seq<u8>, q: int)
    requires
        0 <= q,
    ensures
        byte_at(bytes, 3 * q) == sextet(bytes, 4 * q) * 4 + sextet(bytes, 4 * q + 1) / 16,
        byte_at(bytes, 3 * q + 1) == (sextet(bytes, 4 * q + 1) % 16) * 16 + sextet(
            bytes,
            4 * q + 2,
        ) / 4,
        byte_at(bytes, 3 * q + 2) == (sextet(bytes, 4 * q + 2) % 4) * 64 + sextet(bytes, 4 * q + 3),
{
    assert((4 * q) / 4 == q && (4 * q + 1) / 4 == q && (4 * q + 2) / 4 == q && (4 * q + 3) / 4
        == q);
}

/// A padded form that is also an unpadded form is of the same bytes.
pub proof fn lemma_b64_padding(a: Seq<u8>, b: Seq<u8>)
    requires
        b64_encode_padded(a) == b64_encode(b),
    ensures
        a == b,
{
    let s = b64_encode(a);
    if padding_count(s.len()) > 0 {
        let i = s.len() as int;
        assert(b64_encode_padded(a)[i] == '=');
        assert(i < b64_encode(b).len());
        lemma_sextet_range(b, i);
        assert(b64_encode(b)[i] == symbol(sextet(b, i)));
    }
    assert(b64_encode_padded(a) =~= s);
    lemma_b64_injective(a, b);
}

/// Distinct byte sequences have distinct padded forms.
pub proof fn lemma_b64_padded_injective(a: Seq<u8>, b: Seq<u8>)
    requires
        b64_encode_padded(a) == b64_encode_padded(b),
    ensures
        a == b,
{
    let s = b64_encode(a);
    let t = b64_encode(b);
    let p = b64_encode_padded(a);
    if s.len() < t.len() {
        assert(p[s.len() as int] == '=');
        lemma_sextet_range(b, s.len() as int);
        assert(b64_encode_padded(b)[s.len() as int] == t[s.len() as int]);
    } else if t.len() < s.len() {
        assert(b64_encode_padded(b)[t.len() as int] == '=');
        lemma_sextet_range(a, t.len() as int);
        assert(p[t.len() as int] == s[t.len() as int]);
    }
    assert(s =~= p.take(s.len() as int));
    assert(t =~= b64_encode_padded(b).take(t.len() as int));
    lemma_b64_injective(a, b);
}

} // verus!
