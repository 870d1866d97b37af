//! What can go wrong with a transfer.
use vstd::prelude::*;
use vstd::string::StringExecFns;

use crate::config::{io_message, io_text, io_to_text, prefixed};
use crate::hexcode::hex_encode;
use crate::peer::PeerId;
use crate::text::{decimal, law_decimal_writes_the_number, lemma_stands_between, numeral_value, stands_at, to_decimal};

verus! {

/// Transfer errors.
#[derive(Debug)]
pub enum TransferError {
    /// IO error reading or writing the on-disk cache.
    Io(std::io::Error),
    /// A chunk's BLAKE3 hash didn't match what the sender claimed.
    ChunkVerify {
        /// Byte offset where the mismatch was detected.
        offset: u64,
    },
    /// The reconstructed file's root hash didn't match the manifest.
    RootVerify {
        /// Hex of the expected root hash.
        expected: String,
        /// Hex of the hash that was computed.
        actual: String,
    },
    /// The peer claimed not to have this digest.
    PeerMissing {
        /// Which peer was asked.
        peer: PeerId,
        /// What hex digest was asked for.
        digest: String,
    },
    /// Transport-layer error wrapping the underlying transfer.
    Transport(String),
    /// Reply was malformed (missing chunk header, bad header).
    MalformedReply(String),
}

/// A transfer error in mathematical terms.
pub enum TransferFault {
    Io(std::io::Error),
    ChunkVerify { offset: u64 },
    RootVerify { expected: Seq<char>, actual: Seq<char> },
    PeerMissing { peer: Seq<u8>, digest: Seq<char> },
    Transport(Seq<char>),
    MalformedReply(Seq<char>),
}

impl View for TransferError {
    type V = TransferFault;

    open spec fn view(&self) -> TransferFault {
        match self {
            TransferError::Io(e) => TransferFault::Io(*e),
            TransferError::ChunkVerify { offset } => TransferFault::ChunkVerify { offset: *offset },
            TransferError::RootVerify { expected, actual } => TransferFault::RootVerify {
                expected: expected@,
                actual: actual@,
            },
            TransferError::PeerMissing { peer, digest } => TransferFault::PeerMissing {
                peer: peer@,
                digest: digest@,
            },
            TransferError::Transport(s) => TransferFault::Transport(s@),
            TransferError::MalformedReply(s) => TransferFault::MalformedReply(s@),
        }
    }
}

impl TransferError {
    /// The message for people.
    pub fn to_text(&self) -> (r: String)
        ensures
            match self@ {
                TransferFault::Io(e) => io_message("io: "@, e, r@),
                TransferFault::ChunkVerify { offset } => r@ == "chunk verify failed at offset "@
                    + decimal(offset as nat),
                TransferFault::RootVerify { expected, actual } => r@
                    == "root verify failed: expected "@ + expected + ", got "@ + actual,
                TransferFault::PeerMissing { peer, digest } => r@ == "peer "@ + hex_encode(peer)
                    + " does not have digest "@ + digest,
                TransferFault::Transport(s) => r@ == "transport: "@ + s,
                TransferFault::MalformedReply(s) => r@ == "malformed reply: "@ + s,
            },
    {
        match self {
            TransferError::Io(e) => io_to_text("io: ", e),
            TransferError::ChunkVerify { offset } => prefixed(
                "chunk verify failed at offset ",
                to_decimal(*offset).as_str(),
            ),
            TransferError::RootVerify { expected, actual } => {
                let mut r = prefixed("root verify failed: expected ", expected.as_str());
                r.append(", got ");
                r.append(actual.as_str());
                r
            },
            TransferError::PeerMissing { peer, digest } => {
                let mut r = prefixed("peer ", peer.to_hex().as_str());
                r.append(" does not have digest ");
                r.append(digest.as_str());
                r
            },
            TransferError::Transport(s) => prefixed("transport: ", s.as_str()),
            TransferError::MalformedReply(s) => prefixed("malformed reply: ", s.as_str()),
        }
    }
}

/// Law: the words for a failed transfer hold all that is known of it, in full: the offset
/// of the chunk, both hashes, the peer and the digest, or the cause.
pub proof fn law_error_words(e: TransferError, words: String)
    requires
        call_ensures(TransferError::to_text, (&e,), words),
    ensures
        e matches TransferError::ChunkVerify { offset } ==> words@.len() > 30 && numeral_value(
            words@.skip(30),
        ) == offset && stands_at(words@, 0, "chunk verify failed at offset "@),
        e matches TransferError::Io(x) ==> exists|t: Seq<char>|
            #[trigger] io_text(x, t) && words@ == "io: "@ + t,
        e matches TransferError::RootVerify { expected, actual } ==> words@.len() == 35
            + expected@.len() + actual@.len() && stands_at(
            words@,
            0,
            "root verify failed: expected "@,
        ) && stands_at(words@, 29, expected@) && stands_at(
            words@,
            29 + expected@.len(),
            ", got "@ + actual@,
        ),
        e matches TransferError::PeerMissing { peer, digest } ==> words@.len() == 91 + digest@.len()
            && stands_at(words@, 0, "peer "@) && stands_at(words@, 5, hex_encode(peer@))
            && stands_at(words@, 69, " does not have digest "@ + digest@),
        e matches TransferError::Transport(s) ==> words@.len() == 11 + s@.len() && stands_at(
            words@,
            11,
            s@,
        ) && stands_at(words@, 0, "transport: "@),
        e matches TransferError::MalformedReply(s) ==> words@.len() == 17 + s@.len() && stands_at(
            words@,
            17,
            s@,
        ) && stands_at(words@, 0, "malformed reply: "@),
{
    reveal_strlit("chunk verify failed at offset ");
    reveal_strlit("root verify failed: expected ");
    reveal_strlit(", got ");
    reveal_strlit("peer ");
    reveal_strlit(" does not have digest ");
    reveal_strlit("transport: ");
    reveal_strlit("malformed reply: ");
    match e {
        TransferError::ChunkVerify { offset } => {
            law_decimal_writes_the_number(offset as nat);
            lemma_stands_between(
                "chunk verify failed at offset "@,
                decimal(offset as nat),
                Seq::empty(),
            );
            assert(words@.skip(30) =~= decimal(offset as nat));
        },
        TransferError::RootVerify { expected, actual } => {
            let head = "root verify failed: expected "@;
            lemma_stands_between(head, expected@, ", got "@ + actual@);
            assert(words@ =~= head + expected@ + (", got "@ + actual@));
        },
        TransferError::PeerMissing { peer, digest } => {
            let hex = hex_encode(peer@);
            lemma_stands_between("peer "@, hex, " does not have digest "@ + digest@);
            assert(words@ =~= "peer "@ + hex + (" does not have digest "@ + digest@));
        },
        TransferError::Transport(s) => lemma_stands_between("transport: "@, s@, Seq::empty()),
        TransferError::MalformedReply(s) => lemma_stands_between(
            "malformed reply: "@,
            s@,
            Seq::empty(),
        ),
        _ => {},
    }
}

} // verus!
