//! BLAKE3 digests, and the calls into the `blake3` crate.
use vstd::prelude::*;

use crate::hexcode::{self, hex_encode};

verus! {

/// The incremental hasher of the `blake3` crate.
#[verifier::external_type_specification]
#[verifier::external_body]
pub struct ExHasher(blake3::Hasher);

/// The BLAKE3 hash of `bytes`, 32 bytes long.
pub uninterp spec fn blake3_digest(bytes: Seq<u8>) -> Seq<u8>;

/// The bytes that were fed to an incremental hasher, in order.
pub uninterp spec fn hasher_input(h: blake3::Hasher) -> Seq<u8>;

/// The hash of `bytes` as it is written everywhere: in hexadecimal.
pub open spec fn digest_text(bytes: Seq<u8>) -> Seq<char> {
    hex_encode(blake3_digest(bytes))
}

/// Calls `blake3::hash`: the hash of all the bytes at once.
#[verifier::external_body]
fn blake3_hash(bytes: &[u8]) -> (r: [u8; 32])
    ensures
        r@ == blake3_digest(bytes@),
{
    *blake3::hash(bytes).as_bytes()
}

/// Calls `blake3::Hasher::new`: a hasher that was fed nothing.
#[verifier::external_body]
fn hasher_new() -> (h: blake3::Hasher)
    ensures
        hasher_input(h) == Seq::<u8>::empty(),
{
    blake3::Hasher::new()
}

/// Calls `blake3::Hasher::update`, which feeds `bytes` after what the hasher
/// was fed before. The hasher counts its input in 64 bits.
#[verifier::external_body]
fn hasher_update(h: &mut blake3::Hasher, bytes: &[u8])
    requires
        hasher_input(*old(h)).len() + bytes@.len() <= u64::MAX,
    ensures
        hasher_input(*final(h)) == hasher_input(*old(h)) + bytes@,
{
    h.update(bytes);
}

/// Calls `blake3::Hasher::finalize`: the hash of everything that was fed, the
/// same as `blake3::hash` gives of it.
#[verifier::external_body]
fn hasher_finalize(h: &blake3::Hasher) -> (r: [u8; 32])
    ensures
        r@ == blake3_digest(hasher_input(*h)),
{
    *h.finalize().as_bytes()
}

/// The hash of `bytes`, in hexadecimal.
pub(crate) fn hash_text(bytes: &[u8]) -> (r: String)
    ensures
        r@ == digest_text(bytes@),
        r@.len() == 64,
{
    let h = blake3_hash(bytes);
    hexcode::encode(h.as_slice())
}

/// Hashes a file from the reads of it.
pub struct RootHasher {
    hasher: blake3::Hasher,
}

impl View for RootHasher {
    type V = Seq<u8>;

    /// The bytes read so far.
    closed spec fn view(&self) -> Seq<u8> {
        hasher_input(self.hasher)
    }
}

impl RootHasher {
    /// A hasher that has read nothing.
    #[must_use]
    pub fn new() -> (r: Self)
        ensures
            r@ == Seq::<u8>::empty(),
    {
        RootHasher { hasher: hasher_new() }
    }

    /// Read `bytes` next.
    pub fn update(&mut self, bytes: &[u8])
        requires
            old(self)@.len() + bytes@.len() <= u64::MAX,
        ensures
            final(self)@ == old(self)@ + bytes@,
    {
        hasher_update(&mut self.hasher, bytes);
    }

    /// The root hash of what was read, in hexadecimal.
    #[must_use]
    pub fn finish(&self) -> (r: String)
        ensures
            r@ == digest_text(self@),
            r@.len() == 64,
    {
        let h = hasher_finalize(&self.hasher);
        hexcode::encode(h.as_slice())
    }
}

/// The bytes of a file that was read piece by piece. An empty read is the end
/// of the file.
pub open spec fn read_bytes(reads: Seq<Vec<u8>>) -> Seq<u8>
    decreases reads.len(),
{
    if reads.len() == 0 || reads[0]@.len() == 0 {
        Seq::empty()
    } else {
        reads[0]@ + read_bytes(reads.skip(1))
    }
}

/// Compute the BLAKE3 root hash of a file from the reads of it, in
/// hexadecimal. An empty read is the end of the file.
#[must_use]
pub fn root_hash(reads: &Vec<Vec<u8>>) -> (r: String)
    requires
        read_bytes(reads@).len() <= u64::MAX,
    ensures
        r@ == digest_text(read_bytes(reads@)),
        r@.len() == 64,
{
    let mut hasher = RootHasher::new();
    let mut i: usize = 0;
    assert(reads@.skip(0) =~= reads@);
    assert(Seq::<u8>::empty() + read_bytes(reads@) =~= read_bytes(reads@));
    while i < reads.len()
        invariant_except_break
            hasher@ + read_bytes(reads@.skip(i as int)) == read_bytes(reads@),
        invariant
            i <= reads@.len(),
            read_bytes(reads@).len() <= u64::MAX,
        ensures
            hasher@ == read_bytes(reads@),
        decreases reads@.len() - i,
    {
        let read = &reads[i];
        let ghost rest = reads@.skip(i as int);
        assert(rest[0] == *read);
        if read.len() == 0 {
            assert(hasher@ + read_bytes(rest) =~= hasher@);
            break;
        }
        assert(rest.skip(1) =~= reads@.skip(i + 1));
        assert(hasher@ + (read@ + read_bytes(rest.skip(1))) =~= (hasher@ + read@) + read_bytes(
            rest.skip(1),
        ));
        hasher.update(read.as_slice());
        i = i + 1;
        assert(i == reads@.len() ==> hasher@ + read_bytes(reads@.skip(i as int)) =~= hasher@);
    }
    hasher.finish()
}

/// The pieces that a file was read in.
pub open spec fn pieces(reads: Seq<Vec<u8>>) -> Seq<Seq<u8>> {
    reads.map_values(|r: Vec<u8>| r@)
}

/// Law: the root hash does not depend on how the file was cut into reads. It is
/// the hash of the file as a whole.
pub proof fn law_root_hash_of_any_reads(reads: Seq<Vec<u8>>, file: Seq<u8>)
    requires
        forall|i: int| 0 <= i < reads.len() ==> (#[trigger] reads[i])@.len() > 0,
        pieces(reads).flatten() == file,
    ensures
        digest_text(read_bytes(reads)) == digest_text(file),
{
    lemma_read_bytes(reads);
}

proof fn lemma_read_bytes(reads: Seq<Vec<u8>>)
    requires
        forall|i: int| 0 <= i < reads.len() ==> (#[trigger] reads[i])@.len() > 0,
    ensures
        read_bytes(reads) == pieces(reads).flatten(),
    decreases reads.len(),
{
    if reads.len() > 0 {
        lemma_read_bytes(reads.skip(1));
        assert(pieces(reads.skip(1)) =~= pieces(reads).drop_first());
        assert(reads[0]@.len() > 0);
    }
}

/// Law: feeding a hasher bytes in two pieces gives the hash of the two together.
pub proof fn law_hash_of_pieces(
    fresh: RootHasher,
    first: &mut RootHasher,
    a: &[u8],
    second: &mut RootHasher,
    b: &[u8],
    r: String,
)
    requires
        call_ensures(RootHasher::new, (), fresh),
        call_ensures(RootHasher::update, (first, a), ()),
        call_ensures(RootHasher::update, (second, b), ()),
        call_ensures(RootHasher::finish, (&*final(second),), r),
        *old(first) == fresh,
        *final(first) == *old(second),
    ensures
        r@ == hex_encode(blake3_digest(a@ + b@)),
        r@.len() == 64,
{
    assert(Seq::<u8>::empty() + a@ + b@ =~= a@ + b@);
}

/// Law: the root hash of a file is the hash of all its bytes, however they were read;
/// what comes after an empty read does not count.
pub proof fn law_root_hash_is_of_the_file(
    reads: Vec<Vec<u8>>,
    r: String,
    file: Seq<u8>,
    n: int,
)
    requires
        call_ensures(root_hash, (&reads,), r),
        0 <= n <= reads@.len(),
        n < reads@.len() ==> reads@[n]@.len() == 0,
        forall|i: int| 0 <= i < n ==> (#[trigger] reads@[i])@.len() > 0,
        pieces(reads@.take(n)).flatten() == file,
    ensures
        r@ == hex_encode(blake3_digest(file)),
        r@.len() == 64,
{
    lemma_read_bytes(reads@.take(n));
    lemma_reads_stop(reads@, n);
}

proof fn lemma_reads_stop(reads: Seq<Vec<u8>>, n: int)
    requires
        0 <= n <= reads.len(),
        n < reads.len() ==> reads[n]@.len() == 0,
        forall|i: int| 0 <= i < n ==> (#[trigger] reads[i])@.len() > 0,
    ensures
        read_bytes(reads) == read_bytes(reads.take(n)),
    decreases n,
{
    if n > 0 {
        assert(reads[0]@.len() > 0);
        assert(reads.take(n).skip(1) =~= reads.skip(1).take(n - 1));
        lemma_reads_stop(reads.skip(1), n - 1);
    }
}

} // verus!
