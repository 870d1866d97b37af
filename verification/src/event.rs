//! Mesh events: what every peer publishes and subscribes to.
use vstd::prelude::*;

use crate::clock::HybridLogicalClock;
use crate::peer::PeerId;

verus! {

/// A peer's coarse load: 0.0 idle, 1.0 saturated. Held as the bits of the
/// IEEE 754 double that travels on the wire.
#[derive(Clone, Copy, Debug, PartialEq, Eq, Structural)]
pub struct Load {
    /// The 64 bits of the double, sign bit first.
    pub bits: u64,
}

/// The weight of a double's sign bit.
pub const SIGN_WEIGHT: u64 = 0x8000_0000_0000_0000;

/// The bits of positive infinity: what lies above them, sign bit aside, is
/// not a number.
pub const INFINITY_BITS: u64 = 0x7ff0_0000_0000_0000;

/// The bits of the largest finite double.
pub const MAX_BITS: u64 = 0x7fef_ffff_ffff_ffff;

impl Load {
    /// The bits without the sign bit.
    pub open spec fn magnitude(self) -> int {
        if self.bits < SIGN_WEIGHT {
            self.bits as int
        } else {
            self.bits - SIGN_WEIGHT
        }
    }

    /// Whether these are the bits of a NaN, which compares with nothing.
    pub open spec fn is_nan(self) -> bool {
        self.magnitude() > INFINITY_BITS
    }

    /// The number that orders loads: doubles are ordered as their bits are
    /// when these are read as sign and magnitude, and both zeros have rank 0.
    pub open spec fn rank(self) -> int {
        if self.bits < SIGN_WEIGHT {
            self.magnitude()
        } else {
            -self.magnitude()
        }
    }

    /// Whether this load is a number that is smaller than the number `other`.
    pub open spec fn below(self, other: Load) -> bool {
        !self.is_nan() && !other.is_nan() && self.rank() < other.rank()
    }

    /// The load with the given bits.
    #[must_use]
    pub fn from_bits(bits: u64) -> (r: Self)
        ensures
            r.bits == bits,
    {
        Load { bits }
    }

    /// No load: positive zero.
    #[must_use]
    pub fn idle() -> (r: Self)
        ensures
            r.bits == 0,
    {
        Load { bits: 0 }
    }

    /// The load of a peer that has not reported one: the largest finite
    /// double, so that any peer that has reported comes first.
    #[must_use]
    pub fn unknown() -> (r: Self)
        ensures
            r.bits == MAX_BITS,
    {
        Load { bits: MAX_BITS }
    }

    /// Whether this load is a number that is smaller than the number `other`.
    #[must_use]
    pub fn is_below(&self, other: &Load) -> (r: bool)
        ensures
            r == self.below(*other),
    {
        let neg_a: bool = self.bits >= SIGN_WEIGHT;
        let neg_b: bool = other.bits >= SIGN_WEIGHT;
        let mag_a: u64 = if neg_a {
            self.bits - SIGN_WEIGHT
        } else {
            self.bits
        };
        let mag_b: u64 = if neg_b {
            other.bits - SIGN_WEIGHT
        } else {
            other.bits
        };
        if mag_a > INFINITY_BITS || mag_b > INFINITY_BITS {
            false
        } else if neg_a {
            if neg_b {
                mag_b < mag_a
            } else {
                mag_a > 0 || mag_b > 0
            }
        } else if neg_b {
            false
        } else {
            mag_a < mag_b
        }
    }
}

/// Law: loads compare as the doubles that their bits write. Of two numbers without
/// the sign bit the one with the smaller bits is smaller, of two with it the one
/// with the larger bits; one with it is smaller than one without, but for the two
/// zeros, which are the same number; and what is not a number compares with
/// nothing.
pub proof fn law_loads_compare_as_doubles(a: Load, b: Load, r: bool)
    requires
        call_ensures(Load::is_below, (&a, &b), r),
    ensures
        r == a.below(b),
        a.bits <= 0x7ff0_0000_0000_0000 && b.bits <= 0x7ff0_0000_0000_0000 ==> r == (a.bits
            < b.bits),
        0x8000_0000_0000_0000 <= a.bits <= 0xfff0_0000_0000_0000 && 0x8000_0000_0000_0000 <= b.bits
            <= 0xfff0_0000_0000_0000 ==> r == (a.bits > b.bits),
        0x8000_0000_0000_0000 <= a.bits <= 0xfff0_0000_0000_0000 && b.bits
            <= 0x7ff0_0000_0000_0000 ==> r == !(a.bits == 0x8000_0000_0000_0000 && b.bits == 0),
        a.bits <= 0x7ff0_0000_0000_0000 && 0x8000_0000_0000_0000 <= b.bits
            <= 0xfff0_0000_0000_0000 ==> !r,
        0x7ff0_0000_0000_0000 < a.bits < 0x8000_0000_0000_0000 || a.bits > 0xfff0_0000_0000_0000
            ==> !r,
        0x7ff0_0000_0000_0000 < b.bits < 0x8000_0000_0000_0000 || b.bits > 0xfff0_0000_0000_0000
            ==> !r,
{
}

/// Law: what is not a number is what has all the bits of the exponent set and some
/// bit of the fraction, with or without the sign bit.
pub proof fn law_not_a_number(a: Load)
    ensures
        a.is_nan() <==> (0x7ff0_0000_0000_0000 < a.bits < 0x8000_0000_0000_0000 || a.bits
            > 0xfff0_0000_0000_0000),
{
}

/// Law: the order of loads is an order: no load is below itself, and below is
/// passed on.
pub proof fn law_load_order(a: Load, b: Load, c: Load)
    ensures
        !a.below(a),
        !(a.below(b) && b.below(a)),
        a.below(b) && b.below(c) ==> a.below(c),
{
}

/// Law: a peer that reports any finite load comes before one that has reported
/// none, and no load that is not negative is below the idle one.
pub proof fn law_reported_load_comes_first(load: Load, unknown: Load, idle: Load)
    requires
        call_ensures(Load::unknown, (), unknown),
        call_ensures(Load::idle, (), idle),
    ensures
        load.bits < 0x7fef_ffff_ffff_ffff ==> load.below(unknown),
        0x8000_0000_0000_0000 <= load.bits <= 0xffef_ffff_ffff_ffff ==> load.below(unknown),
        !unknown.is_nan() && !idle.is_nan(),
        load.bits < 0x8000_0000_0000_0000 ==> !load.below(idle),
        0 < load.bits <= 0x7ff0_0000_0000_0000 ==> idle.below(load),
{
}

/// Law: a load keeps the bits it is made of.
pub proof fn law_load_keeps_its_bits(first: u64, a: Load, second: u64, b: Load)
    requires
        call_ensures(Load::from_bits, (first,), a),
        call_ensures(Load::from_bits, (second,), b),
    ensures
        a.bits == first,
        a == b <==> first == second,
{
}

/// One mesh event, addressed by a key expression like
/// `furcate/mesh/<peer-hex>/<event-kind>`. Variants only ever get added, never
/// reordered or removed.
#[derive(Clone, Debug)]
pub enum MeshEvent {
    /// Heartbeat. Every peer publishes one at a fixed interval, so that the
    /// routing layer can drop dead peers.
    Heartbeat {
        /// Sender.
        peer: PeerId,
        /// When the sender produced this event.
        clock: HybridLogicalClock,
        /// Coarse current load. Routing uses this to bias work-stealing.
        load: Load,
    },
    /// Peer is announcing a model it has loaded and can serve.
    ModelAnnounce {
        /// Sender.
        peer: PeerId,
        /// When the sender produced this event.
        clock: HybridLogicalClock,
        /// Logical model name.
        model_name: String,
        /// BLAKE3 digest of the on-disk artefact. Hex.
        digest_blake3: String,
        /// Format hint (`gguf`, `onnx`, ...).
        format: String,
    },
    /// Peer is forwarding an inference request to the recipient because it
    /// can't serve it locally.
    WorkOffer {
        /// Forwarding peer.
        from: PeerId,
        /// Intended servicer.
        to: PeerId,
        /// Opaque request body.
        request: Vec<u8>,
        /// Hops the request has already taken. Increment on forward.
        hops: u8,
    },
    /// Reply to a work offer.
    WorkResult {
        /// Original servicer.
        from: PeerId,
        /// Original requester (the peer that issued the offer).
        to: PeerId,
        /// Opaque response body.
        response: Vec<u8>,
    },
    /// Agent-state transition gossiped between peers.
    AgentState {
        /// Sender.
        peer: PeerId,
        /// When the sender produced this event.
        clock: HybridLogicalClock,
        /// Agent identifier.
        agent_id: String,
        /// Opaque state body.
        state: Vec<u8>,
    },
}

} // verus!
