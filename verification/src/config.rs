//! Mesh-wide configuration and the errors that every layer shares.
use vstd::prelude::*;
use vstd::string::StringExecFns;

use crate::text::{lemma_stands_between, stands_at};

verus! {

/// The platform's input/output error, `std::io::Error`, carried through
/// unread.
#[verifier::external_type_specification]
#[verifier::external_body]
pub struct ExIoError(std::io::Error);

/// `text` is how the platform words the error `e`.
pub open spec fn io_text(e: std::io::Error, text: Seq<char>) -> bool {
    exists|s: String|
        #[trigger] vstd::string::to_string_from_display_ensures::<std::io::Error>(&e, s) && s@
            == text
}

/// `text` is `prefix` and the platform's wording of `e`.
pub open spec fn io_message(prefix: Seq<char>, e: std::io::Error, text: Seq<char>) -> bool {
    exists|t: Seq<char>| #[trigger] io_text(e, t) && text == prefix + t
}

/// `prefix` and the platform's wording of `e`.
pub(crate) fn io_to_text(prefix: &str, e: &std::io::Error) -> (r: String)
    ensures
        io_message(prefix@, *e, r@),
{
    let t = e.to_string();
    assert(io_text(*e, t@));
    let mut r = prefix.to_owned();
    r.append(t.as_str());
    r
}

/// `prefix` and then `rest`.
pub(crate) fn prefixed(prefix: &str, rest: &str) -> (r: String)
    ensures
        r@ == prefix@ + rest@,
{
    let mut r = prefix.to_owned();
    r.append(rest);
    r
}

/// Configuration shared between the transport, discovery, and routing layers.
/// Each layer consumes only the fields it cares about.
#[derive(Clone, Debug)]
pub struct MeshConfig {
    /// How often each peer publishes a heartbeat. Default 5 seconds.
    pub heartbeat_interval_secs: u64,
    /// How long after a missing heartbeat a peer counts as dead. Default 30
    /// seconds.
    pub peer_dead_after_secs: u64,
    /// Maximum hops a work offer can take before the receiver refuses to
    /// forward it again. Default 1 (one redirect).
    pub max_hops: u8,
    /// mDNS service domain. Default `local.`.
    pub mdns_domain: String,
}

impl Default for MeshConfig {
    fn default() -> (r: Self)
        ensures
            r.heartbeat_interval_secs == 5,
            r.peer_dead_after_secs == 30,
            r.max_hops == 1,
            r.mdns_domain@ == "local."@,
    {
        MeshConfig {
            heartbeat_interval_secs: 5,
            peer_dead_after_secs: 30,
            max_hops: 1,
            mdns_domain: "local.".to_owned(),
        }
    }
}

/// Errors common to every layer of the mesh.
#[derive(Debug)]
pub enum MeshError {
    /// Identity material is missing, malformed, or unreadable.
    Identity(String),
    /// Discovery layer failure (mDNS bind, browse loop crash).
    Discovery(String),
    /// Transport layer failure (session open, publish, subscribe).
    Transport(String),
    /// Transfer layer failure (chunk fetch, BLAKE3 verify).
    Transfer(String),
    /// Configuration error, most often a malformed seed-list URL.
    Config(String),
    /// IO error while reading/writing local state.
    Io(std::io::Error),
    /// (De)serialisation error on a mesh event payload.
    Encoding(String),
}

impl MeshError {
    /// The message for people.
    pub fn to_text(&self) -> (r: String)
        ensures
            match self {
                MeshError::Identity(s) => r@ == "identity: "@ + s@,
                MeshError::Discovery(s) => r@ == "discovery: "@ + s@,
                MeshError::Transport(s) => r@ == "transport: "@ + s@,
                MeshError::Transfer(s) => r@ == "transfer: "@ + s@,
                MeshError::Config(s) => r@ == "config: "@ + s@,
                MeshError::Io(e) => io_message("io: "@, *e, r@),
                MeshError::Encoding(s) => r@ == "encoding: "@ + s@,
            },
    {
        match self {
            MeshError::Identity(s) => prefixed("identity: ", s.as_str()),
            MeshError::Discovery(s) => prefixed("discovery: ", s.as_str()),
            MeshError::Transport(s) => prefixed("transport: ", s.as_str()),
            MeshError::Transfer(s) => prefixed("transfer: ", s.as_str()),
            MeshError::Config(s) => prefixed("config: ", s.as_str()),
            MeshError::Io(e) => io_to_text("io: ", e),
            MeshError::Encoding(s) => prefixed("encoding: ", s.as_str()),
        }
    }
}

/// Law: the words for an error begin with the layer it comes from and end in what the
/// error holds, in full.
pub proof fn law_error_words(e: MeshError, words: String)
    requires
        call_ensures(MeshError::to_text, (&e,), words),
    ensures
        e matches MeshError::Identity(s) ==> words@.len() == 10 + s@.len() && stands_at(
            words@,
            10,
            s@,
        ) && stands_at(words@, 0, "identity: "@),
        e matches MeshError::Discovery(s) ==> words@.len() == 11 + s@.len() && stands_at(
            words@,
            11,
            s@,
        ) && stands_at(words@, 0, "discovery: "@),
        e matches MeshError::Transport(s) ==> words@.len() == 11 + s@.len() && stands_at(
            words@,
            11,
            s@,
        ) && stands_at(words@, 0, "transport: "@),
        e matches MeshError::Transfer(s) ==> words@.len() == 10 + s@.len() && stands_at(
            words@,
            10,
            s@,
        ) && stands_at(words@, 0, "transfer: "@),
        e matches MeshError::Config(s) ==> words@.len() == 8 + s@.len() && stands_at(
            words@,
            8,
            s@,
        ) && stands_at(words@, 0, "config: "@),
        e matches MeshError::Encoding(s) ==> words@.len() == 10 + s@.len() && stands_at(
            words@,
            10,
            s@,
        ) && stands_at(words@, 0, "encoding: "@),
        e matches MeshError::Io(x) ==> exists|t: Seq<char>|
            #[trigger] io_text(x, t) && words@ == "io: "@ + t,
{
    reveal_strlit("identity: ");
    reveal_strlit("discovery: ");
    reveal_strlit("transport: ");
    reveal_strlit("transfer: ");
    reveal_strlit("config: ");
    reveal_strlit("encoding: ");
    match e {
        MeshError::Identity(s) => {
            lemma_stands_between("identity: "@, s@, Seq::empty());
        },
        MeshError::Discovery(s) => {
            lemma_stands_between("discovery: "@, s@, Seq::empty());
        },
        MeshError::Transport(s) => {
            lemma_stands_between("transport: "@, s@, Seq::empty());
        },
        MeshError::Transfer(s) => {
            lemma_stands_between("transfer: "@, s@, Seq::empty());
        },
        MeshError::Config(s) => {
            lemma_stands_between("config: "@, s@, Seq::empty());
        },
        MeshError::Encoding(s) => {
            lemma_stands_between("encoding: "@, s@, Seq::empty());
        },
        MeshError::Io(_) => {},
    }
}

/// Law: unless it is told otherwise, a peer beats often enough to be heard several times
/// before it counts as dead, and a request is redirected once.
pub proof fn law_defaults(cfg: MeshConfig)
    requires
        call_ensures(MeshConfig::default, (), cfg),
    ensures
        cfg.peer_dead_after_secs == 30,
        cfg.peer_dead_after_secs == 6 * cfg.heartbeat_interval_secs,
        cfg.max_hops == 1,
        cfg.mdns_domain@ == "local."@,
{
}

} // verus!
