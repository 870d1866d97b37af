//! Content-addressed, chunked file transfer between peers.
//!
//! - The sender answers queries at `furcate/mesh/transfer/<digest-hex>`. It
//!   streams the file in chunks of [`CHUNK_SIZE`](chunk::CHUNK_SIZE) bytes, one
//!   reply for each chunk, with a header that carries the chunk's BLAKE3 hash.
//! - The receiver writes verified chunks to a temporary file until the last
//!   chunk and every byte before its end are in. It then reads no further reply,
//!   hashes the whole file again and compares with the digest it asked for. Only
//!   then is the file renamed into the cache.
//!
//! The cache is a transport, not a trust, optimisation: even with all chunk
//! hashes valid, the root hash must match before the file is renamed into
//! place.
pub mod chunk;
pub mod coverage;
pub mod digest;
pub mod error;
pub mod pulling;
pub mod receiver;
pub mod sender;
pub mod service;
pub mod serving;
