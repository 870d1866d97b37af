//! Chunks: how a file is cut, and how each piece is labelled and checked.
use vstd::prelude::*;

use crate::hexcode::{hex_encode, lemma_hex_encode_ascii};
use crate::transfer::digest::{blake3_digest, digest_text, hash_text};
use crate::transfer::error::{TransferError, TransferFault};

verus! {

/// On-wire chunk size: 1 MiB. Chosen so that a 4 GB model is about 4096
/// chunks: large enough that per-chunk overhead is negligible, small enough
/// that resuming after a network blip doesn't redo too much work.
pub const CHUNK_SIZE: usize = 1_048_576;

/// One chunk in transit. It travels beside the payload, which stays the exact
/// bytes of the file.
#[derive(Clone, Debug)]
pub struct ChunkHeader {
    /// Byte offset of this chunk in the file. Always a multiple of
    /// [`CHUNK_SIZE`].
    pub offset: u64,
    /// BLAKE3 of the chunk's bytes, hex.
    pub chunk_hash: String,
    /// Length of the chunk's payload. Equal to [`CHUNK_SIZE`] for all but the
    /// last chunk.
    pub len: u32,
    /// True if this is the last chunk of the file. The receiver uses this to
    /// know when to start the root-hash verification step.
    pub last: bool,
}

/// A chunk header in mathematical terms.
#[verifier::ext_equal]
pub struct HeaderView {
    pub offset: u64,
    pub chunk_hash: Seq<char>,
    pub len: u32,
    pub last: bool,
}

impl View for ChunkHeader {
    type V = HeaderView;

    open spec fn view(&self) -> HeaderView {
        HeaderView {
            offset: self.offset,
            chunk_hash: self.chunk_hash@,
            len: self.len,
            last: self.last,
        }
    }
}

/// Whether `payload` is what `header` was written for.
pub open spec fn verifies(header: HeaderView, payload: Seq<u8>) -> bool {
    header.chunk_hash == digest_text(payload)
}

/// BLAKE3 verifier: the sender hashes chunks before emitting them, the receiver
/// hashes incoming chunks and compares.
pub struct ChunkVerifier;

impl ChunkVerifier {
    /// Hash a chunk's bytes. The hex encoding goes into the matching
    /// [`ChunkHeader::chunk_hash`].
    #[must_use]
    pub fn hash(bytes: &[u8]) -> (r: String)
        ensures
            r@ == digest_text(bytes@),
            r@.len() == 64,
    {
        hash_text(bytes)
    }

    /// Verify a received chunk against a header.
    pub fn verify(header: &ChunkHeader, bytes: &[u8]) -> (r: Result<(), TransferError>)
        ensures
            match r {
                Ok(()) => verifies(header@, bytes@),
                Err(e) => !verifies(header@, bytes@) && e@ == (TransferFault::ChunkVerify {
                    offset: header.offset,
                }),
            },
    {
        let actual = Self::hash(bytes);
        if actual == header.chunk_hash {
            Ok(())
        } else {
            Err(TransferError::ChunkVerify { offset: header.offset })
        }
    }
}

/// Law: the hash of a chunk is the BLAKE3 hash of all its bytes, in 64 hexadecimal
/// digits without capitals.
pub proof fn law_hash_is_of_all_bytes(bytes: &[u8], r: String)
    requires
        call_ensures(ChunkVerifier::hash, (bytes,), r),
    ensures
        r@ == hex_encode(blake3_digest(bytes@)),
        r@.len() == 64,
        forall|i: int| 0 <= i < 64 ==> ('0' <= #[trigger] r@[i] <= '9' || 'a' <= r@[i] <= 'f'),
{
    lemma_hex_encode_ascii(blake3_digest(bytes@));
}

/// Law: a chunk is accepted exactly if the hash of its bytes is the one in its header,
/// whatever its offset, its length and whether it is the last; one that is not is
/// refused by its offset.
pub proof fn law_chunk_is_checked(
    header: ChunkHeader,
    bytes: &[u8],
    r: Result<(), TransferError>,
    hash: String,
)
    requires
        call_ensures(ChunkVerifier::verify, (&header, bytes), r),
        call_ensures(ChunkVerifier::hash, (bytes,), hash),
    ensures
        r is Ok <==> header.chunk_hash@ == hash@,
        r is Ok <==> header.chunk_hash@ == hex_encode(blake3_digest(bytes@)),
        r matches Err(e) ==> (e matches TransferError::ChunkVerify { offset } && offset
            == header.offset),
{
    if let Err(e) = r {
        assert(e@ is ChunkVerify);
    }
}

/// Law: what vouches for a chunk is the BLAKE3 hash of its bytes, and nothing else in
/// its header.
pub proof fn law_only_the_hash_vouches(a: HeaderView, b: HeaderView, payload: Seq<u8>)
    ensures
        verifies(a, payload) <==> a.chunk_hash == hex_encode(blake3_digest(payload)),
        a.chunk_hash == b.chunk_hash ==> verifies(a, payload) == verifies(b, payload),
{
}

/// Law: a chunk on the wire holds at most one mebibyte.
pub proof fn law_chunk_size()
    ensures
        CHUNK_SIZE == 1024 * 1024,
{
}

// ---------------------------------------------------------------------------
// How a file is cut
// ---------------------------------------------------------------------------

/// A chunk as it is sent: its header and its bytes.
#[verifier::ext_equal]
pub struct ChunkView {
    pub header: HeaderView,
    pub payload: Seq<u8>,
}

/// How many chunks a file of `len` bytes has.
pub open spec fn chunk_count(len: nat) -> nat {
    (len + CHUNK_SIZE - 1) as nat / (CHUNK_SIZE as nat)
}

/// Where chunk `k` of a file of `len` bytes ends.
pub open spec fn chunk_end(len: nat, k: int) -> int {
    if (k + 1) * CHUNK_SIZE < len {
        (k + 1) * CHUNK_SIZE
    } else {
        len as int
    }
}

/// Chunk `k` of `file`.
pub open spec fn chunk_of(file: Seq<u8>, k: int) -> ChunkView {
    let payload = file.subrange(k * CHUNK_SIZE, chunk_end(file.len(), k));
    ChunkView {
        header: HeaderView {
            offset: (k * CHUNK_SIZE) as u64,
            chunk_hash: digest_text(payload),
            len: payload.len() as u32,
            last: chunk_end(file.len(), k) == file.len(),
        },
        payload,
    }
}

/// The chunks of `file`, in order.
pub open spec fn chunks_of(file: Seq<u8>) -> Seq<ChunkView> {
    Seq::new(chunk_count(file.len()), |k: int| chunk_of(file, k))
}

/// Where the chunks of a file lie: each starts where the one before ended, all
/// but the last are full, and the last one, and no other, ends the file.
pub proof fn lemma_chunk_bounds(len: nat, k: int)
    requires
        0 <= k < chunk_count(len),
    ensures
        0 <= k * CHUNK_SIZE < chunk_end(len, k) <= len,
        chunk_end(len, k) - k * CHUNK_SIZE <= CHUNK_SIZE,
        k + 1 < chunk_count(len) ==> chunk_end(len, k) == (k + 1) * CHUNK_SIZE < len,
        k + 1 == chunk_count(len) ==> chunk_end(len, k) == len,
{
    let c = CHUNK_SIZE as int;
    let n = chunk_count(len) as int;
    assert(n == (len + c - 1) / c);
    assert(n * c <= len + c - 1);
    assert(len <= n * c);
}

/// Every byte of a file lies in one of its chunks.
pub proof fn lemma_chunk_cover(len: nat, i: int)
    requires
        0 <= i < len,
    ensures
        0 <= i / (CHUNK_SIZE as int) < chunk_count(len),
        (i / (CHUNK_SIZE as int)) * CHUNK_SIZE <= i < chunk_end(len, i / (CHUNK_SIZE as int)),
{
    let c = CHUNK_SIZE as int;
    let k = i / c;
    assert(k * c <= i < (k + 1) * c);
    assert(chunk_count(len) as int == (len + c - 1) / c);
}

/// Law: the chunks of a file are the file. The first begins at its start, each begins
/// where the one before ended, the last, and no other, ends at its end and is marked so;
/// each holds exactly the bytes of the file at its place, a mebibyte of them but in the
/// last, and the BLAKE3 hash of these.
pub proof fn law_chunks_are_the_file(file: Seq<u8>, k: int)
    requires
        file.len() <= u64::MAX,
        0 <= k < chunks_of(file).len(),
    ensures
        ({
            let c = chunks_of(file)[k];
            let n = chunks_of(file).len();
            &&& c.header.offset == k * 1048576
            &&& c.header.len == c.payload.len() > 0
            &&& c.header.offset + c.payload.len() <= file.len()
            &&& c.payload == file.subrange(
                c.header.offset as int,
                c.header.offset + c.payload.len(),
            )
            &&& c.header.chunk_hash == hex_encode(blake3_digest(c.payload))
            &&& c.header.last <==> k == n - 1
            &&& k < n - 1 ==> c.payload.len() == 1048576
            &&& k == n - 1 ==> c.header.offset + c.payload.len() == file.len()
        }),
        file.len() > 0 <==> chunks_of(file).len() > 0,
{
    lemma_chunk_bounds(file.len(), k);
}

} // verus!
