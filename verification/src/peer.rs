//! Peer addresses.
use std::cmp::Ordering;
use vstd::prelude::*;
use vstd::string::StringExecFns;
use vstd::utf8::encode_utf8;

use crate::hexcode::{self, digit_value, hex_decode, hex_encode, law_hex_writes_the_bytes, lemma_first_invalid, lemma_hex_roundtrip, lemma_hex_text};
use crate::text::{byte_ranks, lemma_byte_ranks_injective, lemma_lex_common_prefix, lemma_lex_transitive, lemma_lex_trichotomy, law_first_difference_orders, lex_less, stands_at};

verus! {

/// 32-byte Ed25519 public key: the canonical address of a peer in the mesh.
///
/// The mesh never carries a peer's name.
#[derive(Clone, Copy, Debug, Eq, Ord, Hash)]
pub struct PeerId(pub [u8; 32]);

impl View for PeerId {
    type V = Seq<u8>;

    open spec fn view(&self) -> Seq<u8> {
        self.0@
    }
}

/// Errors parsing a [`PeerId`].
#[derive(Debug)]
pub enum PeerIdError {
    /// Wrong number of bytes after hex-decoding.
    WrongLength,
    /// Not valid hex.
    Malformed,
}

impl PeerIdError {
    /// The message for people.
    pub open spec fn message(self) -> Seq<char> {
        match self {
            PeerIdError::WrongLength => "peer id must be 32 bytes (64 hex chars)"@,
            PeerIdError::Malformed => "peer id is not valid hex"@,
        }
    }

    /// The message for people.
    pub fn to_text(&self) -> (r: String)
        ensures
            r@ == self.message(),
    {
        match self {
            PeerIdError::WrongLength => "peer id must be 32 bytes (64 hex chars)".to_owned(),
            PeerIdError::Malformed => "peer id is not valid hex".to_owned(),
        }
    }
}

/// What a text means as a peer address: the 32 bytes, or why there are none.
pub open spec fn parse_peer(text: Seq<char>) -> Result<Seq<u8>, PeerIdError> {
    match hex_decode(encode_utf8(text)) {
        None => Err(PeerIdError::Malformed),
        Some(bytes) => if bytes.len() == 32 {
            Ok(bytes)
        } else {
            Err(PeerIdError::WrongLength)
        },
    }
}

/// `a` comes before `b` in the order of peer addresses.
pub open spec fn peer_less(a: Seq<u8>, b: Seq<u8>) -> bool {
    lex_less(byte_ranks(a), byte_ranks(b))
}

impl PeerId {
    /// Construct from raw key bytes.
    #[must_use]
    pub fn from_bytes(b: [u8; 32]) -> (r: Self)
        ensures
            r.0 == b,
            r@ == b@,
    {
        PeerId(b)
    }

    /// The 32 raw bytes.
    #[must_use]
    pub fn as_bytes(&self) -> (r: &[u8; 32])
        ensures
            *r == self.0,
            r@ == self@,
    {
        &self.0
    }

    /// Lower-cased hex of the full 32 bytes. This is also how a peer is shown
    /// to people.
    #[must_use]
    pub fn to_hex(&self) -> (r: String)
        ensures
            r@ == hex_encode(self@),
    {
        hexcode::encode(self.0.as_slice())
    }

    /// Short form: first 6 hex chars, suitable for logs.
    #[must_use]
    pub fn short(&self) -> (r: String)
        ensures
            r@ == hex_encode(self@.take(3)),
            r@ == hex_encode(self@).take(6),
    {
        let head = vstd::slice::slice_subrange(self.0.as_slice(), 0, 3);
        assert(head@ =~= self@.take(3));
        assert(hex_encode(self@.take(3)) =~= hex_encode(self@).take(6));
        hexcode::encode(head)
    }

    /// The form for logs: the short form, marked as a peer address.
    #[must_use]
    pub fn debug_text(&self) -> (r: String)
        ensures
            r@ == "PeerId("@ + hex_encode(self@).take(6) + ")"@,
    {
        let mut r = "PeerId(".to_owned();
        r.append(self.short().as_str());
        r.append(")");
        r
    }

    /// Parse from hex. Accepts upper or lower case; must be exactly 64 hex
    /// chars (32 bytes).
    pub fn from_hex(s: &str) -> (r: Result<Self, PeerIdError>)
        ensures
            match r {
                Ok(p) => parse_peer(s@) == Ok::<Seq<u8>, PeerIdError>(p@),
                Err(e) => parse_peer(s@) == Err::<Seq<u8>, PeerIdError>(e),
            },
    {
        match hexcode::decode(s) {
            Err(e) => {
                proof {
                    if encode_utf8(s@).len() % 2 == 0 {
                        lemma_first_invalid(encode_utf8(s@), e);
                    }
                }
                Err(PeerIdError::Malformed)
            },
            Ok(bytes) => {
                if bytes.len() != 32 {
                    return Err(PeerIdError::WrongLength);
                }
                let mut arr: [u8; 32] = [0; 32];
                let mut i: usize = 0;
                while i < 32
                    invariant
                        i <= 32,
                        bytes@.len() == 32,
                        forall|k: int| 0 <= k < i ==> arr@[k] == bytes@[k],
                    decreases 32 - i,
                {
                    arr[i] = bytes[i];
                    i = i + 1;
                }
                assert(arr@ =~= bytes@);
                Ok(PeerId(arr))
            },
        }
    }
}

impl PartialEq for PeerId {
    fn eq(&self, other: &Self) -> (r: bool) {
        crate::text::same_bytes(self.0.as_slice(), other.0.as_slice())
    }
}

impl vstd::std_specs::cmp::PartialEqSpecImpl for PeerId {
    open spec fn obeys_eq_spec() -> bool {
        true
    }

    open spec fn eq_spec(&self, other: &Self) -> bool {
        self@ == other@
    }
}

impl PartialOrd for PeerId {
    fn partial_cmp(&self, other: &Self) -> (r: Option<Ordering>) {
        let ghost a = byte_ranks(self@);
        let ghost b = byte_ranks(other@);
        let mut i: usize = 0;
        while i < 32
            invariant
                i <= 32,
                a == byte_ranks(self@),
                b == byte_ranks(other@),
                forall|k: int| 0 <= k < i ==> self.0@[k] == other.0@[k],
            decreases 32 - i,
        {
            if self.0[i] != other.0[i] {
                proof {
                    lemma_order_at(self@, other@, i);
                }
                return if self.0[i] < other.0[i] {
                    Some(Ordering::Less)
                } else {
                    Some(Ordering::Greater)
                };
            }
            i = i + 1;
        }
        assert(self@ =~= other@);
        proof {
            lemma_lex_trichotomy(a, b);
        }
        Some(Ordering::Equal)
    }
}

impl vstd::std_specs::cmp::PartialOrdSpecImpl for PeerId {
    open spec fn obeys_partial_cmp_spec() -> bool {
        true
    }

    open spec fn partial_cmp_spec(&self, other: &Self) -> Option<Ordering> {
        if peer_less(self@, other@) {
            Some(Ordering::Less)
        } else if peer_less(other@, self@) {
            Some(Ordering::Greater)
        } else {
            Some(Ordering::Equal)
        }
    }
}

/// The first byte at which two addresses differ orders them.
proof fn lemma_order_at(a: Seq<u8>, b: Seq<u8>, i: usize)
    requires
        i < a.len(),
        a.len() == b.len(),
        forall|k: int| 0 <= k < i ==> a[k] == b[k],
        a[i as int] != b[i as int],
    ensures
        peer_less(a, b) == (a[i as int] < b[i as int]),
        peer_less(b, a) == (b[i as int] < a[i as int]),
{
    let p = byte_ranks(a);
    let q = byte_ranks(b);
    assert(p.take(i as int) =~= q.take(i as int));
    lemma_lex_common_prefix(p, q, i as int);
    lemma_lex_common_prefix(q, p, i as int);
    assert(p.skip(i as int)[0] == a[i as int] as int);
    assert(q.skip(i as int)[0] == b[i as int] as int);
}

/// Addresses with the same bytes are the same address.
pub proof fn lemma_peer_ext(a: PeerId, b: PeerId)
    requires
        a@ == b@,
    ensures
        a == b,
{
    assert(a.0 =~= b.0);
}

/// Law: how an address is shown: in 64 hexadecimal digits without capitals, two for
/// each byte; in short by the first six of them; and in logs by these, marked.
pub proof fn law_how_an_address_is_shown(id: PeerId, hex: String, short: String, log: String)
    requires
        call_ensures(PeerId::to_hex, (&id,), hex),
        call_ensures(PeerId::short, (&id,), short),
        call_ensures(PeerId::debug_text, (&id,), log),
    ensures
        hex@.len() == 64,
        forall|i: int|
            0 <= i < 32 ==> digit_value(hex@[2 * i]) is Some && digit_value(hex@[2 * i + 1]) is Some
                && #[trigger] id@[i] == 16 * digit_value(hex@[2 * i])->0 + digit_value(
                hex@[2 * i + 1],
            )->0,
        forall|i: int| 0 <= i < 64 ==> !('A' <= #[trigger] hex@[i] <= 'F'),
        short@ == hex@.take(6),
        log@.len() == 14,
        stands_at(log@, 0, "PeerId("@),
        stands_at(log@, 7, short@),
        log@[13] == ')',
{
    law_hex_writes_the_bytes(id@);
    reveal_strlit("PeerId(");
    reveal_strlit(")");
    assert(log@.skip(0).take(7) =~= "PeerId("@);
    assert(log@.skip(7).take(6) =~= short@);
}

/// Law: how an address is read: from exactly 64 hexadecimal digits of either case, two
/// to a byte. Digits in another number are of the wrong length; anything else, or an
/// odd number of digits, is malformed.
pub proof fn law_how_an_address_is_read(text: &str, r: Result<PeerId, PeerIdError>)
    requires
        call_ensures(PeerId::from_hex, (text,), r),
    ensures
        r is Ok <==> text@.len() == 64 && forall|i: int|
            0 <= i < text@.len() ==> digit_value(#[trigger] text@[i]) is Some,
        r matches Ok(p) ==> forall|i: int|
            0 <= i < 32 ==> #[trigger] p@[i] == 16 * digit_value(text@[2 * i])->0 + digit_value(
                text@[2 * i + 1],
            )->0,
        r matches Err(PeerIdError::WrongLength) ==> text@.len() % 2 == 0 && text@.len() != 64
            && forall|i: int| 0 <= i < text@.len() ==> digit_value(#[trigger] text@[i]) is Some,
        r matches Err(PeerIdError::Malformed) ==> text@.len() % 2 == 1 || exists|i: int|
            0 <= i < text@.len() && digit_value(#[trigger] text@[i]) is None,
{
    lemma_hex_text(text@);
}

/// Law: what is said of a text that is no address: that it is of the wrong length, or that
/// it is not hexadecimal.
pub proof fn law_error_words(e: PeerIdError, words: String)
    requires
        call_ensures(PeerIdError::to_text, (&e,), words),
    ensures
        e is WrongLength ==> words@ == "peer id must be 32 bytes (64 hex chars)"@,
        e is Malformed ==> words@ == "peer id is not valid hex"@,
        words@ == e.message(),
{
}

/// Law: an address is read back from the form it is shown in.
pub proof fn law_shown_address_is_read_back(
    id: PeerId,
    hex: String,
    text: &str,
    r: Result<PeerId, PeerIdError>,
)
    requires
        call_ensures(PeerId::to_hex, (&id,), hex),
        call_ensures(PeerId::from_hex, (text,), r),
        text@ == hex@,
    ensures
        r matches Ok(p) && p@ == id@,
{
    law_hex_roundtrip(id);
}

/// Law: an address is the bytes it is made of, and gives them back.
pub proof fn law_address_is_its_bytes(bytes: [u8; 32], id: PeerId, back: &[u8; 32])
    requires
        call_ensures(PeerId::from_bytes, (bytes,), id),
        call_ensures(PeerId::as_bytes, (&id,), back),
    ensures
        id@ == bytes@,
        back@ == bytes@,
{
}

/// Law: the hexadecimal form of a peer address parses back to it.
pub proof fn law_hex_roundtrip(id: PeerId)
    ensures
        parse_peer(hex_encode(id@)) == Ok::<Seq<u8>, PeerIdError>(id@),
{
    lemma_hex_roundtrip(id@);
}

/// Law: the first byte at which two addresses differ orders them.
pub proof fn law_first_byte_orders(a: PeerId, b: PeerId)
    ensures
        peer_less(a@, b@) <==> exists|i: int|
            0 <= i < 32 && #[trigger] a@.take(i) == b@.take(i) && a@[i] < b@[i],
{
    let p = byte_ranks(a@);
    let q = byte_ranks(b@);
    law_first_difference_orders(p, q);
    assert forall|i: int| 0 <= i <= 32 implies (#[trigger] a@.take(i) == b@.take(i)) == (p.take(i)
        == q.take(i)) by {
        assert(p.take(i) =~= byte_ranks(a@.take(i)));
        assert(q.take(i) =~= byte_ranks(b@.take(i)));
        lemma_byte_ranks_injective(a@.take(i), b@.take(i));
    }
    if peer_less(a@, b@) {
        let i = choose|i: int|
            0 <= i <= p.len() && i < q.len() && #[trigger] p.take(i) == q.take(i) && (i == p.len()
                || p[i] < q[i]);
        assert(a@.take(i) == b@.take(i));
    }
    if exists|i: int| 0 <= i < 32 && #[trigger] a@.take(i) == b@.take(i) && a@[i] < b@[i] {
        let i = choose|i: int|
            0 <= i < 32 && #[trigger] a@.take(i) == b@.take(i) && a@[i] < b@[i];
        assert(p.take(i) == q.take(i));
    }
}

/// Law: comparing two addresses compares the first byte at which they differ; only
/// an address itself is equal to it.
pub proof fn law_comparison_is_by_bytes(a: PeerId, b: PeerId, r: Option<Ordering>, equal: bool)
    requires
        call_ensures(PeerId::partial_cmp, (&a, &b), r),
        call_ensures(PeerId::eq, (&a, &b), equal),
    ensures
        r == Some(Ordering::Less) <==> exists|i: int|
            0 <= i < 32 && #[trigger] a@.take(i) == b@.take(i) && a@[i] < b@[i],
        r == Some(Ordering::Greater) <==> exists|i: int|
            0 <= i < 32 && #[trigger] b@.take(i) == a@.take(i) && b@[i] < a@[i],
        r == Some(Ordering::Equal) <==> a@ == b@,
        equal <==> a@ == b@,
{
    law_first_byte_orders(a, b);
    law_first_byte_orders(b, a);
    law_order_total(a, b);
    if a@ == b@ {
        lemma_peer_ext(a, b);
    }
}

/// Law: of two distinct peer addresses exactly one comes before the other.
pub proof fn law_order_total(a: PeerId, b: PeerId)
    ensures
        !(peer_less(a@, b@) && peer_less(b@, a@)),
        a != b <==> peer_less(a@, b@) || peer_less(b@, a@),
{
    lemma_lex_trichotomy(byte_ranks(a@), byte_ranks(b@));
    lemma_byte_ranks_injective(a@, b@);
    if a@ == b@ {
        lemma_peer_ext(a, b);
    }
}

/// Law: the order of peer addresses is transitive.
pub proof fn law_order_transitive(a: PeerId, b: PeerId, c: PeerId)
    requires
        peer_less(a@, b@),
        peer_less(b@, c@),
    ensures
        peer_less(a@, c@),
{
    lemma_lex_transitive(byte_ranks(a@), byte_ranks(b@), byte_ranks(c@));
}

} // verus!
