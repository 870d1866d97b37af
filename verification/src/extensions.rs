//! What discovery backends announce and work brokers exchange.
use vstd::prelude::*;

use crate::config::prefixed;
use crate::peer::PeerId;
use crate::text::{lemma_stands_between, stands_at};

verus! {

/// One peer announcement from a discovery backend.
#[derive(Clone, Debug)]
pub struct PeerAnnouncement {
    /// Discovered peer.
    pub peer: PeerId,
    /// Optional reachable endpoint (e.g. `"tcp://10.0.0.5:7447"`).
    pub endpoint: Option<String>,
    /// Free-form labels, used by the routing layer to bias selection (e.g.
    /// `"region=eu-west"`, `"npu=hailo"`).
    pub labels: Vec<String>,
}

/// Errors of a discovery backend.
#[derive(Debug)]
pub enum DiscoveryError {
    /// Setup error: the backend could not start (mDNS bind, RPC auth).
    Setup(String),
    /// Stream terminated and cannot be resumed.
    Terminated(String),
}

impl DiscoveryError {
    /// The message for people.
    pub fn to_text(&self) -> (r: String)
        ensures
            match self {
                DiscoveryError::Setup(s) => r@ == "setup: "@ + s@,
                DiscoveryError::Terminated(s) => r@ == "terminated: "@ + s@,
            },
    {
        match self {
            DiscoveryError::Setup(s) => prefixed("setup: ", s.as_str()),
            DiscoveryError::Terminated(s) => prefixed("terminated: ", s.as_str()),
        }
    }
}

/// One offer of work to be executed somewhere on the mesh.
#[derive(Clone, Debug)]
pub struct WorkOffer {
    /// Logical work type, e.g. `"inference:text-completion"`. Brokers use this
    /// to filter executors.
    pub work_type: String,
    /// Opaque request body.
    pub request: Vec<u8>,
    /// Maximum price the offerer is willing to pay (implementation-specific
    /// units). `None` means no limit, or not for sale.
    pub max_price: Option<u128>,
    /// Per-offer deadline in seconds. `None` means the broker's default.
    pub deadline_secs: Option<u32>,
}

/// Outcome of an offer to a work broker.
#[derive(Clone, Debug)]
pub enum WorkOutcome {
    /// Work was executed and produced this response.
    Completed {
        /// Opaque response bytes.
        response: Vec<u8>,
        /// Executor that completed the work.
        executor: PeerId,
    },
    /// Broker accepted the offer but executor failed or timed out.
    Failed {
        /// Reason from the broker.
        reason: String,
    },
    /// Broker refused the offer (no matching executor, price too low, policy
    /// block).
    Refused {
        /// Reason from the broker.
        reason: String,
    },
}

/// Errors of a work broker.
#[derive(Debug)]
pub enum WorkBrokerError {
    /// Broker is unreachable.
    Unreachable(String),
    /// Transient error: the caller may retry.
    Transient(String),
    /// Broker reported a fatal error.
    Failed(String),
}

impl WorkBrokerError {
    /// The message for people.
    pub fn to_text(&self) -> (r: String)
        ensures
            match self {
                WorkBrokerError::Unreachable(s) => r@ == "unreachable: "@ + s@,
                WorkBrokerError::Transient(s) => r@ == "transient: "@ + s@,
                WorkBrokerError::Failed(s) => r@ == "broker failed: "@ + s@,
            },
    {
        match self {
            WorkBrokerError::Unreachable(s) => prefixed("unreachable: ", s.as_str()),
            WorkBrokerError::Transient(s) => prefixed("transient: ", s.as_str()),
            WorkBrokerError::Failed(s) => prefixed("broker failed: ", s.as_str()),
        }
    }
}

/// Law: the words for an error end in what the error holds, in full.
pub proof fn law_error_words(
    d: DiscoveryError,
    discovery: String,
    w: WorkBrokerError,
    broker: String,
)
    requires
        call_ensures(DiscoveryError::to_text, (&d,), discovery),
        call_ensures(WorkBrokerError::to_text, (&w,), broker),
    ensures
        match d {
            DiscoveryError::Setup(s) => discovery@.len() == 7 + s@.len() && stands_at(
                discovery@,
                7,
                s@,
            ) && stands_at(discovery@, 0, "setup: "@),
            DiscoveryError::Terminated(s) => discovery@.len() == 12 + s@.len() && stands_at(
                discovery@,
                12,
                s@,
            ) && stands_at(discovery@, 0, "terminated: "@),
        },
        match w {
            WorkBrokerError::Unreachable(s) => broker@.len() == 13 + s@.len() && stands_at(
                broker@,
                13,
                s@,
            ) && stands_at(broker@, 0, "unreachable: "@),
            WorkBrokerError::Transient(s) => broker@.len() == 11 + s@.len() && stands_at(
                broker@,
                11,
                s@,
            ) && stands_at(broker@, 0, "transient: "@),
            WorkBrokerError::Failed(s) => broker@.len() == 15 + s@.len() && stands_at(
                broker@,
                15,
                s@,
            ) && stands_at(broker@, 0, "broker failed: "@),
        },
{
    reveal_strlit("setup: ");
    reveal_strlit("terminated: ");
    reveal_strlit("unreachable: ");
    reveal_strlit("transient: ");
    reveal_strlit("broker failed: ");
    match d {
        DiscoveryError::Setup(s) => lemma_stands_between("setup: "@, s@, Seq::empty()),
        DiscoveryError::Terminated(s) => lemma_stands_between("terminated: "@, s@, Seq::empty()),
    }
    match w {
        WorkBrokerError::Unreachable(s) => lemma_stands_between(
            "unreachable: "@,
            s@,
            Seq::empty(),
        ),
        WorkBrokerError::Transient(s) => lemma_stands_between("transient: "@, s@, Seq::empty()),
        WorkBrokerError::Failed(s) => lemma_stands_between("broker failed: "@, s@, Seq::empty()),
    }
}

} // verus!
