//! A LAN peer fabric for small machines: peer identity, discovery, event
//! addressing, content-addressed transfer and work routing.
//!
//! Every peer is addressed by its Ed25519 public key. The modules here hold
//! the rules of the fabric; opening sockets, reading files and keeping time
//! are the caller's part.
pub mod text;
pub mod hexcode;
pub mod peer;
pub mod clock;
pub mod config;
pub mod event;
pub mod routing;
pub mod transport;
pub mod base64url;
pub mod wire;
pub mod transfer;
pub mod discovery;
pub mod ed25519;
pub mod identity;
pub mod tls;
pub mod extensions;
pub mod table;
pub mod observe;
