//! What discovery is configured with, what it finds, and how it fails.
use vstd::prelude::*;
use vstd::string::StringExecFns;

use crate::config::{io_message, io_text, io_to_text, prefixed};
use crate::peer::PeerId;
use crate::text::{decimal, law_decimal_writes_the_number, lemma_stands_between, numeral_value, stands_at};
use crate::transport::{listen_url, listen_url_text, TransportConfig};

verus! {

/// Discovery service type. Part of the wire contract, on the same level as the
/// topic names.
pub const SERVICE_TYPE: &'static str = "_furcate-mesh._tcp.local.";

/// How many finds may wait for the consumer. Enough headroom for a mesh of
/// small machines; the consumer is expected to keep up.
pub const CHANNEL_CAPACITY: usize = 32;

/// How the standard library writes a string for debugging: in quotes, with
/// what does not print escaped.
pub uninterp spec fn debug_form(text: Seq<char>) -> Seq<char>;

/// Formats a string with its `std::fmt::Debug`.
#[verifier::external_body]
fn debug_text(text: &str) -> (r: String)
    ensures
        r@ == debug_form(text@),
{
    format!("{text:?}")
}

/// Discovery errors.
#[derive(Debug)]
pub enum DiscoveryError {
    /// mDNS daemon creation or service registration failed.
    Mdns(String),
    /// IO error binding sockets or reading interface lists.
    Io(std::io::Error),
    /// A seed-list entry could not be parsed.
    BadSeed {
        /// The offending entry as the operator wrote it.
        entry: String,
        /// Why it didn't parse.
        reason: String,
    },
}

/// A discovery error in mathematical terms.
pub enum DiscoveryFault {
    Mdns(Seq<char>),
    Io(std::io::Error),
    BadSeed { entry: Seq<char>, reason: Seq<char> },
}

impl View for DiscoveryError {
    type V = DiscoveryFault;

    open spec fn view(&self) -> DiscoveryFault {
        match self {
            DiscoveryError::Mdns(s) => DiscoveryFault::Mdns(s@),
            DiscoveryError::Io(e) => DiscoveryFault::Io(*e),
            DiscoveryError::BadSeed { entry, reason } => DiscoveryFault::BadSeed {
                entry: entry@,
                reason: reason@,
            },
        }
    }
}

impl DiscoveryError {
    /// The message for people.
    pub fn to_text(&self) -> (r: String)
        ensures
            match self@ {
                DiscoveryFault::Mdns(s) => r@ == "mdns: "@ + s,
                DiscoveryFault::Io(e) => io_message("io: "@, e, r@),
                DiscoveryFault::BadSeed { entry, reason } => r@ == "bad seed entry "@ + debug_form(
                    entry,
                ) + ": "@ + reason,
            },
    {
        match self {
            DiscoveryError::Mdns(s) => prefixed("mdns: ", s.as_str()),
            DiscoveryError::Io(e) => io_to_text("io: ", e),
            DiscoveryError::BadSeed { entry, reason } => {
                let mut r = prefixed("bad seed entry ", debug_text(entry.as_str()).as_str());
                r.append(": ");
                r.append(reason.as_str());
                r
            },
        }
    }
}

/// One peer the discovery layer has observed on the network. `A` is the type of
/// socket addresses.
#[derive(Clone, Debug)]
pub struct DiscoveredPeer<A> {
    /// The peer's stable address.
    pub peer: PeerId,
    /// Where to dial it.
    pub addr: A,
    /// The listen URL the peer advertised (e.g. `tcp/<ip>:7447`).
    pub zenoh_url: String,
    /// `true` if found via mDNS, `false` if from the static seed list.
    pub via_mdns: bool,
}

/// A discovered peer in mathematical terms.
pub struct PeerFind<A> {
    pub peer: Seq<u8>,
    pub addr: A,
    pub url: Seq<char>,
    pub via_mdns: bool,
}

impl<A> View for DiscoveredPeer<A> {
    type V = PeerFind<A>;

    open spec fn view(&self) -> PeerFind<A> {
        PeerFind {
            peer: self.peer@,
            addr: self.addr,
            url: self.zenoh_url@,
            via_mdns: self.via_mdns,
        }
    }
}

/// Configuration for the discovery layer.
#[derive(Clone, Debug)]
pub struct DiscoveryConfig {
    /// The local peer's public key, advertised in the mDNS TXT record.
    pub local_peer: Option<PeerId>,
    /// The listen URL of the local peer, advertised in the TXT record so remote
    /// peers know where to dial.
    pub local_zenoh_url: Option<String>,
    /// TCP port to advertise: the listen port.
    pub port: u16,
    /// Static seed peers. Each entry is `peer-hex@host:port[/zenoh-url]`. Used
    /// when mDNS is unavailable.
    pub seeds: Vec<String>,
    /// If `true`, only use the seed list and skip mDNS entirely.
    pub seeds_only: bool,
}

impl Default for DiscoveryConfig {
    fn default() -> (r: Self)
        ensures
            r.local_peer is None,
            r.local_zenoh_url is None,
            r.port == 0,
            r.seeds@.len() == 0,
            !r.seeds_only,
    {
        DiscoveryConfig {
            local_peer: None,
            local_zenoh_url: None,
            port: 0,
            seeds: Vec::new(),
            seeds_only: false,
        }
    }
}

impl DiscoveryConfig {
    /// The configuration of a peer that listens on `port` and lets itself be
    /// found.
    #[must_use]
    pub fn advertising(peer: PeerId, port: u16, seeds: Vec<String>, seeds_only: bool) -> (r: Self)
        ensures
            r.local_peer == Some(peer),
            r.local_zenoh_url matches Some(url) && url@ == listen_url_text(port),
            r.port == port,
            r.seeds == seeds,
            r.seeds_only == seeds_only,
    {
        DiscoveryConfig {
            local_peer: Some(peer),
            local_zenoh_url: Some(listen_url(port)),
            port,
            seeds,
            seeds_only,
        }
    }

    /// The configuration of a process that only looks for others.
    #[must_use]
    pub fn browsing(port: u16, seeds: Vec<String>, seeds_only: bool) -> (r: Self)
        ensures
            r.local_peer is None,
            r.local_zenoh_url is None,
            r.port == port,
            r.seeds == seeds,
            r.seeds_only == seeds_only,
    {
        DiscoveryConfig { local_peer: None, local_zenoh_url: None, port, seeds, seeds_only }
    }
}

/// Law: unless it is told otherwise, discovery advertises nothing, has no seeds and uses
/// mDNS, and up to thirty-two finds wait for the consumer.
pub proof fn law_defaults(cfg: DiscoveryConfig)
    requires
        call_ensures(DiscoveryConfig::default, (), cfg),
    ensures
        cfg.local_peer is None && cfg.local_zenoh_url is None && cfg.port == 0,
        cfg.seeds@.len() == 0 && !cfg.seeds_only,
        CHANNEL_CAPACITY == 32,
        SERVICE_TYPE@ == "_furcate-mesh._tcp.local."@,
{
}

/// Law: a peer advertises the port it listens on and the URL under which it does,
/// and takes up the seeds it is given; a process that only looks for others
/// advertises nothing.
pub proof fn law_advertises_where_it_listens(
    peer: PeerId,
    port: u16,
    seeds: Vec<String>,
    seeds_only: bool,
    found: DiscoveryConfig,
    looking: DiscoveryConfig,
    transport: TransportConfig,
)
    requires
        call_ensures(DiscoveryConfig::advertising, (peer, port, seeds, seeds_only), found),
        call_ensures(DiscoveryConfig::browsing, (port, seeds, seeds_only), looking),
        call_ensures(TransportConfig::listening, (port,), transport),
    ensures
        found.local_peer == Some(peer),
        found.port == port,
        found.local_zenoh_url is Some && transport.listen is Some,
        found.local_zenoh_url->0@ == transport.listen->0@,
        numeral_value(found.local_zenoh_url->0@.skip(12)) == port,
        found.seeds@ == seeds@ && looking.seeds@ == seeds@,
        found.seeds_only == seeds_only && looking.seeds_only == seeds_only,
        looking.local_peer is None && looking.local_zenoh_url is None,
        looking.port == port,
{
    reveal_strlit("tcp/0.0.0.0:");
    law_decimal_writes_the_number(port as nat);
    assert(found.local_zenoh_url->0@.skip(12) =~= decimal(port as nat));
}

/// Law: the words for an error of discovery end in what is known of it, in full; those
/// for a bad seed name the entry.
pub proof fn law_error_words(e: DiscoveryError, words: String)
    requires
        call_ensures(DiscoveryError::to_text, (&e,), words),
    ensures
        e matches DiscoveryError::Mdns(s) ==> words@.len() == 6 + s@.len() && stands_at(
            words@,
            6,
            s@,
        ) && stands_at(words@, 0, "mdns: "@),
        e matches DiscoveryError::Io(x) ==> exists|t: Seq<char>|
            #[trigger] io_text(x, t) && words@ == "io: "@ + t,
        e matches DiscoveryError::BadSeed { entry, reason } ==> {
            let shown = debug_form(entry@);
            &&& words@.len() == 17 + shown.len() + reason@.len()
            &&& stands_at(words@, 0, "bad seed entry "@)
            &&& stands_at(words@, 15, shown)
            &&& stands_at(words@, 15 + shown.len(), ": "@ + reason@)
        },
{
    reveal_strlit("mdns: ");
    reveal_strlit("bad seed entry ");
    reveal_strlit(": ");
    match e {
        DiscoveryError::Mdns(s) => lemma_stands_between("mdns: "@, s@, Seq::empty()),
        DiscoveryError::BadSeed { entry, reason } => {
            let head = "bad seed entry "@;
            let shown = debug_form(entry@);
            lemma_stands_between(head, shown, ": "@ + reason@);
            assert(words@ =~= head + shown + (": "@ + reason@));
        },
        _ => {},
    }
}

} // verus!
