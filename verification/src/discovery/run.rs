//! The discovery service: seeds first, then mDNS, until the consumer is gone.
use vstd::prelude::*;

use crate::config::prefixed;
use crate::discovery::seed::{addr_view, bad_seed, seed_found, seed_parts, Seed, SeedParts};
use crate::discovery::service::{local_described, register_local, resolve_to_peer, resolved, service_record, txt_view, ServiceRecord, Txt};
use crate::discovery::types::{DiscoveredPeer, DiscoveryConfig, DiscoveryError, DiscoveryFault, PeerFind};
use crate::hexcode::hex_encode;
use crate::text::{lemma_stands_between, stands_at, texts};

verus! {

// ---------------------------------------------------------------------------
// Events and actions
// ---------------------------------------------------------------------------

/// What happens to the discovery service. `A` is the type of socket addresses.
pub enum DiscoveryEvent<A> {
    /// The socket address, or why it is none.
    Addr(Result<A, String>),
    /// The consumer took the find.
    Sent,
    /// The consumer is gone.
    Dropped,
    /// The mDNS work that was asked for is done.
    Ready,
    /// The mDNS work that was asked for failed.
    Failed(String),
    /// A service was resolved, with these pairs in its TXT record and one of
    /// its socket addresses, if it has any.
    Resolved { txt: Vec<(String, String)>, addr: Option<A> },
    /// Something else was seen on mDNS.
    Other,
    /// Nothing more will be seen on mDNS.
    BrowseClosed,
}

/// What the discovery service does next.
pub enum DiscoveryAction<A> {
    /// Read a socket address.
    ParseAddr(String),
    /// Hand a find to the consumer.
    Send(DiscoveredPeer<A>),
    /// Wait until the consumer is gone.
    AwaitDropped,
    /// Open the mDNS daemon.
    OpenDaemon,
    /// Register this service with the daemon.
    Register(mdns_sd::ServiceInfo),
    /// Browse for the service type.
    Browse,
    /// Wait for what is seen on mDNS.
    Receive,
    /// Shut the daemon down; it does not matter whether that succeeds.
    Shutdown,
    /// Nothing more: the service ended this way.
    Done(Result<(), DiscoveryError>),
}

/// A discovery event in mathematical terms.
pub enum DiscoveryInput<A> {
    Addr(Result<A, Seq<char>>),
    Sent,
    Dropped,
    Ready,
    Failed(Seq<char>),
    Resolved { txt: Txt, addr: Option<A> },
    Other,
    BrowseClosed,
}

/// A discovery action in mathematical terms.
pub enum DiscoveryOutput<A> {
    ParseAddr(Seq<char>),
    Send(PeerFind<A>),
    AwaitDropped,
    OpenDaemon,
    Register(ServiceRecord),
    Browse,
    Receive,
    Shutdown,
    Done(Result<(), DiscoveryFault>),
}

impl<A> View for DiscoveryEvent<A> {
    type V = DiscoveryInput<A>;

    open spec fn view(&self) -> DiscoveryInput<A> {
        match self {
            DiscoveryEvent::Addr(a) => DiscoveryInput::Addr(addr_view(*a)),
            DiscoveryEvent::Sent => DiscoveryInput::Sent,
            DiscoveryEvent::Dropped => DiscoveryInput::Dropped,
            DiscoveryEvent::Ready => DiscoveryInput::Ready,
            DiscoveryEvent::Failed(t) => DiscoveryInput::Failed(t@),
            DiscoveryEvent::Resolved { txt, addr } => DiscoveryInput::Resolved {
                txt: txt_view(txt@),
                addr: *addr,
            },
            DiscoveryEvent::Other => DiscoveryInput::Other,
            DiscoveryEvent::BrowseClosed => DiscoveryInput::BrowseClosed,
        }
    }
}

impl<A> View for DiscoveryAction<A> {
    type V = DiscoveryOutput<A>;

    open spec fn view(&self) -> DiscoveryOutput<A> {
        match self {
            DiscoveryAction::ParseAddr(s) => DiscoveryOutput::ParseAddr(s@),
            DiscoveryAction::Send(p) => DiscoveryOutput::Send(p@),
            DiscoveryAction::AwaitDropped => DiscoveryOutput::AwaitDropped,
            DiscoveryAction::OpenDaemon => DiscoveryOutput::OpenDaemon,
            DiscoveryAction::Register(info) => DiscoveryOutput::Register(service_record(*info)),
            DiscoveryAction::Browse => DiscoveryOutput::Browse,
            DiscoveryAction::Receive => DiscoveryOutput::Receive,
            DiscoveryAction::Shutdown => DiscoveryOutput::Shutdown,
            DiscoveryAction::Done(Ok(())) => DiscoveryOutput::Done(Ok(())),
            DiscoveryAction::Done(Err(e)) => DiscoveryOutput::Done(Err(e@)),
        }
    }
}

// ---------------------------------------------------------------------------
// The rules of discovery
// ---------------------------------------------------------------------------

/// The configuration in mathematical terms.
#[verifier::ext_equal]
pub struct DiscoverySetup {
    pub local_peer: Option<Seq<u8>>,
    pub local_url: Option<Seq<char>>,
    pub port: u16,
    pub seeds: Seq<Seq<char>>,
    pub seeds_only: bool,
}

impl View for DiscoveryConfig {
    type V = DiscoverySetup;

    open spec fn view(&self) -> DiscoverySetup {
        DiscoverySetup {
            local_peer: match self.local_peer {
                Some(p) => Some(p@),
                None => None,
            },
            local_url: match self.local_zenoh_url {
                Some(u) => Some(u@),
                None => None,
            },
            port: self.port,
            seeds: texts(self.seeds@),
            seeds_only: self.seeds_only,
        }
    }
}

/// Where discovery is, by what it waits for.
pub enum DiscoveryPhase {
    /// The socket address of a seed.
    Resolving(SeedParts),
    /// The consumer to take a seed.
    Flushing,
    /// The consumer to go away.
    Idle,
    /// The daemon.
    Opening,
    /// The registration.
    Registering,
    /// The start of browsing.
    Starting,
    /// Something to be seen on mDNS.
    Browsing,
    /// The consumer to take a find.
    Surfacing,
    /// The daemon to go down.
    Closing,
    Finished,
}

/// The discovery service in mathematical terms.
#[verifier::ext_equal]
pub struct DiscoveryState {
    pub setup: DiscoverySetup,
    /// How many seeds were taken up.
    pub taken: nat,
    pub phase: DiscoveryPhase,
}

/// The events that can follow on the last action.
pub open spec fn discovery_expects<A>(s: DiscoveryState, e: DiscoveryInput<A>) -> bool {
    match (s.phase, e) {
        (DiscoveryPhase::Resolving(_), DiscoveryInput::Addr(_)) => true,
        (DiscoveryPhase::Flushing, DiscoveryInput::Sent) => true,
        (DiscoveryPhase::Flushing, DiscoveryInput::Dropped) => true,
        (DiscoveryPhase::Idle, DiscoveryInput::Dropped) => true,
        (DiscoveryPhase::Opening, DiscoveryInput::Ready) => true,
        (DiscoveryPhase::Opening, DiscoveryInput::Failed(_)) => true,
        (DiscoveryPhase::Registering, DiscoveryInput::Ready) => true,
        (DiscoveryPhase::Registering, DiscoveryInput::Failed(_)) => true,
        (DiscoveryPhase::Starting, DiscoveryInput::Ready) => true,
        (DiscoveryPhase::Starting, DiscoveryInput::Failed(_)) => true,
        (DiscoveryPhase::Browsing, DiscoveryInput::Resolved { .. }) => true,
        (DiscoveryPhase::Browsing, DiscoveryInput::Other) => true,
        (DiscoveryPhase::Browsing, DiscoveryInput::BrowseClosed) => true,
        (DiscoveryPhase::Surfacing, DiscoveryInput::Sent) => true,
        (DiscoveryPhase::Surfacing, DiscoveryInput::Dropped) => true,
        (DiscoveryPhase::Closing, DiscoveryInput::Ready) => true,
        _ => false,
    }
}

/// Discovery ends with `r`.
pub open spec fn discovery_done<A>(s: DiscoveryState, r: Result<(), DiscoveryFault>) -> (
    DiscoveryState,
    DiscoveryOutput<A>,
) {
    (DiscoveryState { phase: DiscoveryPhase::Finished, ..s }, DiscoveryOutput::Done(r))
}

/// Discovery goes on in `phase` with `action`.
pub open spec fn discovery_goes<A>(
    s: DiscoveryState,
    phase: DiscoveryPhase,
    action: DiscoveryOutput<A>,
) -> (DiscoveryState, DiscoveryOutput<A>) {
    (DiscoveryState { phase, ..s }, action)
}

/// The next seed is taken up. After the last one, mDNS work begins, unless only
/// the seeds count.
pub open spec fn next_seed<A>(s: DiscoveryState) -> (DiscoveryState, DiscoveryOutput<A>) {
    if s.taken < s.setup.seeds.len() {
        let entry = s.setup.seeds[s.taken as int];
        let t = DiscoveryState { taken: s.taken + 1, ..s };
        match seed_parts(entry) {
            Ok(parts) => discovery_goes(
                t,
                DiscoveryPhase::Resolving(parts),
                DiscoveryOutput::ParseAddr(parts.host_port),
            ),
            Err(reason) => discovery_done(t, Err(bad_seed(entry, reason))),
        }
    } else if s.setup.seeds_only {
        discovery_goes(s, DiscoveryPhase::Idle, DiscoveryOutput::AwaitDropped)
    } else {
        discovery_goes(s, DiscoveryPhase::Opening, DiscoveryOutput::OpenDaemon)
    }
}

/// The daemon is open. The local peer is registered where there is something to
/// advertise.
pub open spec fn daemon_opened<A>(s: DiscoveryState) -> (DiscoveryState, DiscoveryOutput<A>) {
    match (s.setup.local_peer, s.setup.local_url) {
        (Some(peer), Some(url)) => match local_described(peer, url, s.setup.port) {
            Ok(record) => discovery_goes(
                s,
                DiscoveryPhase::Registering,
                DiscoveryOutput::Register(record),
            ),
            Err(e) => discovery_done(s, Err(DiscoveryFault::Mdns("ServiceInfo: "@ + e))),
        },
        _ => discovery_goes(s, DiscoveryPhase::Starting, DiscoveryOutput::Browse),
    }
}

/// A service was resolved. It is surfaced if it is a peer, and not this one.
pub open spec fn service_seen<A>(s: DiscoveryState, txt: Txt, addr: Option<A>) -> (
    DiscoveryState,
    DiscoveryOutput<A>,
) {
    match resolved(txt, addr) {
        Some(find) => if s.setup.local_peer == Some(find.peer) {
            discovery_goes(s, DiscoveryPhase::Browsing, DiscoveryOutput::Receive)
        } else {
            discovery_goes(s, DiscoveryPhase::Surfacing, DiscoveryOutput::Send(find))
        },
        None => discovery_goes(s, DiscoveryPhase::Browsing, DiscoveryOutput::Receive),
    }
}

/// What discovery does on an event. Events that are not expected have no
/// meaning.
pub open spec fn discovery_next<A>(s: DiscoveryState, e: DiscoveryInput<A>) -> (
    DiscoveryState,
    DiscoveryOutput<A>,
) {
    match (s.phase, e) {
        (DiscoveryPhase::Resolving(parts), DiscoveryInput::Addr(addr)) => match seed_found(
            s.setup.seeds[s.taken - 1],
            parts,
            addr,
        ) {
            Ok(find) => discovery_goes(s, DiscoveryPhase::Flushing, DiscoveryOutput::Send(find)),
            Err(fault) => discovery_done(s, Err(fault)),
        },
        (DiscoveryPhase::Flushing, DiscoveryInput::Sent) => next_seed(s),
        (DiscoveryPhase::Opening, DiscoveryInput::Ready) => daemon_opened(s),
        (DiscoveryPhase::Opening, DiscoveryInput::Failed(t)) => discovery_done(
            s,
            Err(DiscoveryFault::Mdns("daemon: "@ + t)),
        ),
        (DiscoveryPhase::Registering, DiscoveryInput::Ready) => discovery_goes(
            s,
            DiscoveryPhase::Starting,
            DiscoveryOutput::Browse,
        ),
        (DiscoveryPhase::Registering, DiscoveryInput::Failed(t)) => discovery_done(
            s,
            Err(DiscoveryFault::Mdns("register: "@ + t)),
        ),
        (DiscoveryPhase::Starting, DiscoveryInput::Failed(t)) => discovery_done(
            s,
            Err(DiscoveryFault::Mdns("browse: "@ + t)),
        ),
        (DiscoveryPhase::Browsing, DiscoveryInput::Resolved { txt, addr }) => service_seen(
            s,
            txt,
            addr,
        ),
        (DiscoveryPhase::Browsing, DiscoveryInput::BrowseClosed) => discovery_goes(
            s,
            DiscoveryPhase::Closing,
            DiscoveryOutput::Shutdown,
        ),
        (DiscoveryPhase::Surfacing, DiscoveryInput::Dropped) => discovery_goes(
            s,
            DiscoveryPhase::Closing,
            DiscoveryOutput::Shutdown,
        ),
        (DiscoveryPhase::Starting, _) => discovery_goes(
            s,
            DiscoveryPhase::Browsing,
            DiscoveryOutput::Receive,
        ),
        (DiscoveryPhase::Browsing, _) => discovery_goes(
            s,
            DiscoveryPhase::Browsing,
            DiscoveryOutput::Receive,
        ),
        (DiscoveryPhase::Surfacing, _) => discovery_goes(
            s,
            DiscoveryPhase::Browsing,
            DiscoveryOutput::Receive,
        ),
        _ => discovery_done(s, Ok(())),
    }
}

/// The state from which the first seed is taken up.
pub open spec fn discovery_fresh(setup: DiscoverySetup) -> DiscoveryState {
    DiscoveryState { setup, taken: 0, phase: DiscoveryPhase::Flushing }
}

// ---------------------------------------------------------------------------
// The service
// ---------------------------------------------------------------------------

enum Phase {
    Resolving(Seed),
    Flushing,
    Idle,
    Opening,
    Registering,
    Starting,
    Browsing,
    Surfacing,
    Closing,
    Finished,
}

impl View for Phase {
    type V = DiscoveryPhase;

    closed spec fn view(&self) -> DiscoveryPhase {
        match self {
            Phase::Resolving(seed) => DiscoveryPhase::Resolving(seed@),
            Phase::Flushing => DiscoveryPhase::Flushing,
            Phase::Idle => DiscoveryPhase::Idle,
            Phase::Opening => DiscoveryPhase::Opening,
            Phase::Registering => DiscoveryPhase::Registering,
            Phase::Starting => DiscoveryPhase::Starting,
            Phase::Browsing => DiscoveryPhase::Browsing,
            Phase::Surfacing => DiscoveryPhase::Surfacing,
            Phase::Closing => DiscoveryPhase::Closing,
            Phase::Finished => DiscoveryPhase::Finished,
        }
    }
}

/// The discovery service. Perform each action that it asks for and hand back
/// what happened.
pub struct Discovery {
    cfg: DiscoveryConfig,
    taken: usize,
    phase: Phase,
}

impl View for Discovery {
    type V = DiscoveryState;

    closed spec fn view(&self) -> DiscoveryState {
        DiscoveryState { setup: self.cfg@, taken: self.taken as nat, phase: self.phase@ }
    }
}

impl Discovery {
    /// The seed at hand is the one that was taken up last.
    pub closed spec fn wf(self) -> bool {
        &&& self.taken <= self.cfg.seeds@.len()
        &&& self.phase matches Phase::Resolving(seed) ==> self.taken > 0 && seed.entry@
            == self.cfg.seeds@[self.taken - 1]@
    }

    /// Construct a new discovery service, and the first thing it does.
    #[must_use]
    pub fn new<A>(cfg: DiscoveryConfig) -> (r: (Self, DiscoveryAction<A>))
        ensures
            r.0.wf(),
            (r.0@, r.1@) == next_seed::<A>(discovery_fresh(cfg@)),
    {
        let mut d = Discovery { cfg, taken: 0, phase: Phase::Flushing };
        let action = d.take_seed();
        (d, action)
    }

    fn done<A>(&mut self, r: Result<(), DiscoveryError>) -> (action: DiscoveryAction<A>)
        requires
            old(self).wf(),
        ensures
            final(self).wf(),
            final(self)@ == (DiscoveryState { phase: DiscoveryPhase::Finished, ..old(self)@ }),
            action == DiscoveryAction::<A>::Done(r),
    {
        self.phase = Phase::Finished;
        DiscoveryAction::Done(r)
    }

    fn take_seed<A>(&mut self) -> (action: DiscoveryAction<A>)
        requires
            old(self).wf(),
        ensures
            final(self).wf(),
            (final(self)@, action@) == next_seed::<A>(old(self)@),
    {
        if self.taken < self.cfg.seeds.len() {
            let split = Seed::split(self.cfg.seeds[self.taken].as_str());
            self.taken = self.taken + 1;
            match split {
                Ok(seed) => {
                    let host_port = seed.host_port.clone();
                    self.phase = Phase::Resolving(seed);
                    DiscoveryAction::ParseAddr(host_port)
                },
                Err(e) => {
                    self.phase = Phase::Finished;
                    DiscoveryAction::Done(Err(e))
                },
            }
        } else if self.cfg.seeds_only {
            self.phase = Phase::Idle;
            DiscoveryAction::AwaitDropped
        } else {
            self.phase = Phase::Opening;
            DiscoveryAction::OpenDaemon
        }
    }

    fn advertise<A>(&mut self) -> (action: DiscoveryAction<A>)
        requires
            old(self).wf(),
        ensures
            final(self).wf(),
            (final(self)@, action@) == daemon_opened::<A>(old(self)@),
    {
        match (&self.cfg.local_peer, &self.cfg.local_zenoh_url) {
            (Some(peer), Some(url)) => match register_local(*peer, url.as_str(), self.cfg.port) {
                Ok(info) => {
                    self.phase = Phase::Registering;
                    DiscoveryAction::Register(info)
                },
                Err(e) => self.done(Err(e)),
            },
            _ => {
                self.phase = Phase::Starting;
                DiscoveryAction::Browse
            },
        }
    }

    fn surface<A>(&mut self, txt: Vec<(String, String)>, addr: Option<A>) -> (action:
        DiscoveryAction<A>)
        requires
            old(self).wf(),
        ensures
            final(self).wf(),
            (final(self)@, action@) == service_seen(old(self)@, txt_view(txt@), addr),
    {
        self.phase = Phase::Browsing;
        match resolve_to_peer(&txt, addr) {
            Some(find) => {
                let own: bool = match &self.cfg.local_peer {
                    Some(local) => *local == find.peer,
                    None => false,
                };
                if own {
                    DiscoveryAction::Receive
                } else {
                    self.phase = Phase::Surfacing;
                    DiscoveryAction::Send(find)
                }
            },
            None => DiscoveryAction::Receive,
        }
    }

    fn fail<A>(&mut self, cause: &str) -> (action: DiscoveryAction<A>)
        requires
            old(self).wf(),
            discovery_expects(old(self)@, DiscoveryInput::<A>::Failed(cause@)),
        ensures
            final(self).wf(),
            (final(self)@, action@) == discovery_next(
                old(self)@,
                DiscoveryInput::<A>::Failed(cause@),
            ),
    {
        let what: &str = match &self.phase {
            Phase::Opening => "daemon: ",
            Phase::Registering => "register: ",
            _ => "browse: ",
        };
        self.done(Err(DiscoveryError::Mdns(prefixed(what, cause))))
    }

    /// The next action after an event.
    pub fn step<A>(&mut self, event: DiscoveryEvent<A>) -> (action: DiscoveryAction<A>)
        requires
            old(self).wf(),
            discovery_expects(old(self)@, event@),
        ensures
            final(self).wf(),
            (final(self)@, action@) == discovery_next(old(self)@, event@),
    {
        match event {
            DiscoveryEvent::Addr(addr) => {
                let mut phase = Phase::Finished;
                std::mem::swap(&mut phase, &mut self.phase);
                match phase {
                    Phase::Resolving(seed) => match seed.resolve(addr) {
                        Ok(find) => {
                            self.phase = Phase::Flushing;
                            DiscoveryAction::Send(find)
                        },
                        Err(e) => DiscoveryAction::Done(Err(e)),
                    },
                    _ => DiscoveryAction::Done(Ok(())),
                }
            },
            DiscoveryEvent::Sent => match &self.phase {
                Phase::Flushing => self.take_seed(),
                _ => {
                    self.phase = Phase::Browsing;
                    DiscoveryAction::Receive
                },
            },
            DiscoveryEvent::Dropped => match &self.phase {
                Phase::Surfacing => {
                    self.phase = Phase::Closing;
                    DiscoveryAction::Shutdown
                },
                _ => self.done(Ok(())),
            },
            DiscoveryEvent::Ready => match &self.phase {
                Phase::Opening => self.advertise(),
                Phase::Registering => {
                    self.phase = Phase::Starting;
                    DiscoveryAction::Browse
                },
                Phase::Starting => {
                    self.phase = Phase::Browsing;
                    DiscoveryAction::Receive
                },
                _ => self.done(Ok(())),
            },
            DiscoveryEvent::Failed(cause) => self.fail(cause.as_str()),
            DiscoveryEvent::Resolved { txt, addr } => self.surface(txt, addr),
            DiscoveryEvent::Other => {
                self.phase = Phase::Browsing;
                DiscoveryAction::Receive
            },
            DiscoveryEvent::BrowseClosed => {
                self.phase = Phase::Closing;
                DiscoveryAction::Shutdown
            },
        }
    }
}

// ---------------------------------------------------------------------------
// Whole runs
// ---------------------------------------------------------------------------

/// Where discovery is after `events`, and what it does next.
pub open spec fn discovery_after<A>(setup: DiscoverySetup, events: Seq<DiscoveryInput<A>>) -> (
    DiscoveryState,
    DiscoveryOutput<A>,
)
    decreases events.len(),
{
    if events.len() == 0 {
        next_seed(discovery_fresh(setup))
    } else {
        discovery_next(discovery_after(setup, events.drop_last()).0, events.last())
    }
}

/// Whether each of `events` can follow on the action before it.
pub open spec fn discovery_run<A>(setup: DiscoverySetup, events: Seq<DiscoveryInput<A>>) -> bool
    decreases events.len(),
{
    events.len() > 0 ==> {
        &&& discovery_run(setup, events.drop_last())
        &&& discovery_expects(discovery_after(setup, events.drop_last()).0, events.last())
    }
}

/// The finds that the consumer took in the course of `events`, in order.
pub open spec fn surfaced<A>(setup: DiscoverySetup, events: Seq<DiscoveryInput<A>>) -> Seq<
    PeerFind<A>,
>
    decreases events.len(),
{
    if events.len() == 0 {
        Seq::empty()
    } else {
        let earlier = surfaced(setup, events.drop_last());
        match (discovery_after(setup, events.drop_last()).1, events.last()) {
            (DiscoveryOutput::Send(find), DiscoveryInput::Sent) => earlier.push(find),
            _ => earlier,
        }
    }
}

/// The socket addresses that were read in the course of `events`, in order.
pub open spec fn addresses_read<A>(events: Seq<DiscoveryInput<A>>) -> Seq<A>
    decreases events.len(),
{
    if events.len() == 0 {
        Seq::empty()
    } else {
        let earlier = addresses_read(events.drop_last());
        match events.last() {
            DiscoveryInput::Addr(Ok(addr)) => earlier.push(addr),
            _ => earlier,
        }
    }
}

/// The peers, other than the local one, that the services resolved in the course
/// of `events` stand for, in order.
pub open spec fn services_seen<A>(setup: DiscoverySetup, events: Seq<DiscoveryInput<A>>) -> Seq<
    PeerFind<A>,
>
    decreases events.len(),
{
    if events.len() == 0 {
        Seq::empty()
    } else {
        let earlier = services_seen(setup, events.drop_last());
        match events.last() {
            DiscoveryInput::Resolved { txt, addr } => match resolved(txt, addr) {
                Some(find) if setup.local_peer != Some(find.peer) => earlier.push(find),
                _ => earlier,
            },
            _ => earlier,
        }
    }
}

/// `find` is what the seed-list entry `entry` says, with `addr` for its address.
pub open spec fn from_seed<A>(find: PeerFind<A>, entry: Seq<char>, addr: A) -> bool {
    match seed_parts(entry) {
        Ok(parts) => find == (PeerFind {
            peer: parts.peer,
            addr,
            url: parts.url,
            via_mdns: false,
        }),
        Err(_) => false,
    }
}

/// `find` was seen on mDNS and is not the local peer.
pub open spec fn from_mdns<A>(find: PeerFind<A>, setup: DiscoverySetup) -> bool {
    find.via_mdns && setup.local_peer != Some(find.peer)
}

/// `finds` are the seeds in order, as far as they go, each with the address that
/// was read for it, and after all of them the peers seen on mDNS, in the order
/// in which their services were resolved.
pub open spec fn seeds_then_mdns<A>(
    finds: Seq<PeerFind<A>>,
    setup: DiscoverySetup,
    addresses: Seq<A>,
    services: Seq<PeerFind<A>>,
) -> bool {
    let n = setup.seeds.len();
    &&& finds.len() <= addresses.len() || n <= addresses.len()
    &&& finds.len() <= n + services.len()
    &&& forall|i: int|
        0 <= i < finds.len() && i < n ==> from_seed(
            #[trigger] finds[i],
            setup.seeds[i],
            addresses[i],
        )
    &&& forall|i: int|
        n <= i < finds.len() ==> #[trigger] finds[i] == services[i - n] && from_mdns(
            finds[i],
            setup,
        )
}

spec fn in_order<A>(
    setup: DiscoverySetup,
    s: DiscoveryState,
    action: DiscoveryOutput<A>,
    finds: Seq<PeerFind<A>>,
    addresses: Seq<A>,
    services: Seq<PeerFind<A>>,
) -> bool {
    let k = finds.len();
    let n = setup.seeds.len();
    let quiet = k == n && services.len() == 0;
    &&& s.setup == setup
    &&& seeds_then_mdns(finds, setup, addresses, services)
    &&& match s.phase {
        DiscoveryPhase::Resolving(parts) => {
            &&& k < n && s.taken == k + 1
            &&& seed_parts(setup.seeds[k as int]) == Ok::<SeedParts, Seq<char>>(parts)
            &&& action is ParseAddr
            &&& addresses.len() == k && services.len() == 0
        },
        DiscoveryPhase::Flushing => {
            &&& k < n && s.taken == k + 1
            &&& addresses.len() == k + 1 && services.len() == 0
            &&& action matches DiscoveryOutput::Send(find) && from_seed(
                find,
                setup.seeds[k as int],
                addresses[k as int],
            )
        },
        DiscoveryPhase::Idle => quiet && setup.seeds_only && action is AwaitDropped,
        DiscoveryPhase::Finished => action is Done && (setup.seeds_only ==> k <= n),
        DiscoveryPhase::Opening => quiet && !setup.seeds_only && action is OpenDaemon,
        DiscoveryPhase::Registering => quiet && !setup.seeds_only && action is Register,
        DiscoveryPhase::Starting => quiet && !setup.seeds_only && action is Browse,
        DiscoveryPhase::Browsing => {
            &&& k == n + services.len() && !setup.seeds_only
            &&& action is Receive
        },
        DiscoveryPhase::Surfacing => {
            &&& k + 1 == n + services.len() && !setup.seeds_only && services.len() > 0
            &&& action == DiscoveryOutput::Send(services.last())
            &&& from_mdns(services.last(), setup)
        },
        DiscoveryPhase::Closing => k >= n && !setup.seeds_only && action is Shutdown,
    }
}

proof fn lemma_in_order<A>(setup: DiscoverySetup, events: Seq<DiscoveryInput<A>>)
    requires
        discovery_run(setup, events),
    ensures
        in_order(
            setup,
            discovery_after(setup, events).0,
            discovery_after(setup, events).1,
            surfaced(setup, events),
            addresses_read(events),
            services_seen(setup, events),
        ),
    decreases events.len(),
{
    if events.len() > 0 {
        let earlier = events.drop_last();
        lemma_in_order(setup, earlier);
        let finds = surfaced(setup, earlier);
        let now = surfaced(setup, events);
        assert forall|i: int| 0 <= i < finds.len() implies #[trigger] now[i] == finds[i] by {}
    }
}

/// Law: whatever happens, the consumer gets the seeds first, in the order of the
/// list, each with the address that was read for it, and all of them before any
/// mDNS work begins. What comes after are the peers seen on mDNS, in the order in
/// which their services were resolved, and the local peer is never among them.
/// None is passed over: while discovery waits for the next service, the consumer
/// has all of them.
pub proof fn law_seeds_come_first<A>(setup: DiscoverySetup, events: Seq<DiscoveryInput<A>>)
    requires
        discovery_run(setup, events),
    ensures
        seeds_then_mdns(
            surfaced(setup, events),
            setup,
            addresses_read(events),
            services_seen(setup, events),
        ),
        discovery_after(setup, events).1 is OpenDaemon ==> surfaced(setup, events).len()
            == setup.seeds.len(),
        discovery_after(setup, events).1 is AwaitDropped ==> surfaced(setup, events).len()
            == setup.seeds.len(),
        discovery_after(setup, events).1 is Receive ==> surfaced(setup, events).len()
            == setup.seeds.len() + services_seen(setup, events).len(),
{
    lemma_in_order(setup, events);
}

/// Law: where only the seeds count, mDNS is never touched.
pub proof fn law_seeds_only_skips_mdns<A>(setup: DiscoverySetup, events: Seq<DiscoveryInput<A>>)
    requires
        setup.seeds_only,
        discovery_run(setup, events),
    ensures
        !(discovery_after(setup, events).1 is OpenDaemon),
        !(discovery_after(setup, events).1 is Register),
        !(discovery_after(setup, events).1 is Browse),
        !(discovery_after(setup, events).1 is Receive),
        !(discovery_after(setup, events).1 is Shutdown),
        surfaced(setup, events).len() <= setup.seeds.len(),
{
    lemma_in_order(setup, events);
}

/// Law: when the consumer goes away, discovery ends well; a daemon that is
/// open is shut down before.
pub proof fn law_dropped_consumer_ends_discovery<A>(s: DiscoveryState)
    requires
        discovery_expects(s, DiscoveryInput::<A>::Dropped),
    ensures
        ({
            let (t, action) = discovery_next(s, DiscoveryInput::<A>::Dropped);
            let end = DiscoveryOutput::<A>::Done(Ok::<(), DiscoveryFault>(()));
            if s.phase is Surfacing {
                action is Shutdown && discovery_next(t, DiscoveryInput::<A>::Ready).1 == end
            } else {
                action == end
            }
        }),
{
}

/// Law: discovery works with exactly the configuration it is given, and begins with
/// the first seed: it asks for the socket address that stands in it, or ends with an
/// error that names it. Without seeds it goes to mDNS at once, or, where only the
/// seeds count, waits.
pub proof fn law_how_discovery_begins<A>(cfg: DiscoveryConfig, r: (Discovery, DiscoveryAction<A>))
    requires
        call_ensures(Discovery::new::<A>, (cfg,), r),
    ensures
        r.0@.setup.port == cfg.port,
        r.0@.setup.seeds_only == cfg.seeds_only,
        r.0@.setup.seeds.len() == cfg.seeds@.len(),
        forall|i: int|
            0 <= i < cfg.seeds@.len() ==> #[trigger] r.0@.setup.seeds[i] == cfg.seeds@[i]@,
        r.0@.setup.local_peer is Some <==> cfg.local_peer is Some,
        cfg.local_peer matches Some(p) ==> r.0@.setup.local_peer == Some(p@),
        r.0@.setup.local_url is Some <==> cfg.local_zenoh_url is Some,
        cfg.local_zenoh_url matches Some(u) ==> r.0@.setup.local_url == Some(u@),
        cfg.seeds@.len() == 0 && cfg.seeds_only ==> r.1 is AwaitDropped,
        cfg.seeds@.len() == 0 && !cfg.seeds_only ==> r.1 is OpenDaemon,
        cfg.seeds@.len() > 0 ==> match r.1 {
            DiscoveryAction::ParseAddr(text) => seed_parts(cfg.seeds@[0]@) is Ok && text@
                == seed_parts(cfg.seeds@[0]@)->Ok_0.host_port,
            DiscoveryAction::Done(Err(DiscoveryError::BadSeed { entry, .. })) => seed_parts(
                cfg.seeds@[0]@,
            ) is Err && entry@ == cfg.seeds@[0]@,
            _ => false,
        },
{
}

/// Law: when the consumer has taken a seed, the one after it follows, whatever its place:
/// it is taken apart and its socket address asked for, or discovery ends with an error
/// that names it. After the last seed discovery goes to mDNS, or, where only the seeds
/// count, waits. A consumer that is gone ends it well.
pub proof fn law_how_seeds_follow<A>(
    d: &mut Discovery,
    entry: &str,
    split: Result<Seed, DiscoveryError>,
    action: DiscoveryAction<A>,
    dropped: &mut Discovery,
    end: DiscoveryAction<A>,
)
    requires
        call_ensures(Discovery::step::<A>, (d, DiscoveryEvent::Sent), action),
        old(d)@.phase is Flushing,
        old(d)@.taken < old(d)@.setup.seeds.len() ==> entry@ == old(d)@.setup.seeds[old(
            d,
        )@.taken as int] && call_ensures(Seed::split, (entry,), split),
        call_ensures(Discovery::step::<A>, (dropped, DiscoveryEvent::Dropped), end),
        old(dropped)@.phase is Flushing || old(dropped)@.phase is Idle,
    ensures
        old(d)@.taken < old(d)@.setup.seeds.len() ==> {
            &&& final(d)@.taken == old(d)@.taken + 1
            &&& split matches Ok(seed) ==> {
                &&& action matches DiscoveryAction::ParseAddr(text) && text@ == seed.host_port@
                &&& final(d)@.phase matches DiscoveryPhase::Resolving(parts) && parts.peer
                    == seed.peer@ && parts.host_port == seed.host_port@ && parts.url
                    == seed.zenoh_url@
            }
            &&& split is Err ==> (action matches DiscoveryAction::Done(
                Err(DiscoveryError::BadSeed { entry: named, .. }),
            ) && named@ == entry@)
        },
        old(d)@.taken >= old(d)@.setup.seeds.len() && old(d)@.setup.seeds_only ==> action
            is AwaitDropped && final(d)@.phase is Idle,
        old(d)@.taken >= old(d)@.setup.seeds.len() && !old(d)@.setup.seeds_only ==> action
            is OpenDaemon && final(d)@.phase is Opening,
        final(d)@.setup == old(d)@.setup,
        end matches DiscoveryAction::Done(r) && r is Ok,
{
    if let DiscoveryAction::Done(Ok(_)) = action {
        assert(action@ == DiscoveryOutput::<A>::Done(Ok(())));
    }
    if let DiscoveryAction::Done(Err(e)) = action {
        assert(action@ == DiscoveryOutput::<A>::Done(Err(e@)));
    }
    if let DiscoveryAction::Done(Err(e)) = end {
        assert(end@ == DiscoveryOutput::<A>::Done(Err(e@)));
    }
}

/// Law: once the daemon is open, a peer that has an address and a URL to advertise is
/// registered, with the port of the configuration, its whole address and its whole
/// URL, before it browses; one that has none browses at once; and one whose URL does
/// not fit ends discovery.
pub proof fn law_local_peer_is_registered<A>(d: &mut Discovery, action: DiscoveryAction<A>)
    requires
        call_ensures(Discovery::step::<A>, (d, DiscoveryEvent::Ready), action),
        old(d)@.phase is Opening,
    ensures
        match (old(d)@.setup.local_peer, old(d)@.setup.local_url) {
            (Some(peer), Some(url)) => if vstd::utf8::encode_utf8(url).len() <= 249 {
                action matches DiscoveryAction::Register(info) && {
                    let record = service_record(info);
                    &&& record.port == old(d)@.setup.port
                    &&& record.txt.len() == 2
                    &&& record.txt[0] == ("peer"@, hex_encode(peer))
                    &&& record.txt[1] == ("zenoh"@, url)
                }
            } else {
                action matches DiscoveryAction::Done(Err(DiscoveryError::Mdns(_)))
            },
            _ => action is Browse,
        },
        action is Register ==> final(d)@.phase is Registering,
        action is Browse ==> final(d)@.phase is Starting,
        final(d)@.setup == old(d)@.setup,
{
    if let DiscoveryAction::Done(Ok(_)) = action {
        assert(action@ is Done);
    }
    if let DiscoveryAction::Done(Err(e)) = action {
        assert(action@ == DiscoveryOutput::<A>::Done(Err(e@)));
    }
}

/// Law: mDNS work goes on from the daemon to the registration, to browsing, to waiting
/// for services; where a step of it fails, discovery ends with an error that ends in
/// the cause, in full.
pub proof fn law_mdns_failures_are_told<A>(
    ready: &mut Discovery,
    next: DiscoveryAction<A>,
    failed: &mut Discovery,
    cause: String,
    end: DiscoveryAction<A>,
)
    requires
        call_ensures(Discovery::step::<A>, (ready, DiscoveryEvent::Ready), next),
        call_ensures(Discovery::step::<A>, (failed, DiscoveryEvent::Failed(cause)), end),
    ensures
        old(ready)@.phase is Registering ==> next is Browse && final(ready)@.phase is Starting,
        old(ready)@.phase is Starting ==> next is Receive && final(ready)@.phase is Browsing,
        old(ready)@.phase is Closing ==> (next matches DiscoveryAction::Done(r) && r is Ok),
        final(ready)@.setup == old(ready)@.setup,
        old(failed)@.phase is Opening || old(failed)@.phase is Registering || old(
            failed,
        )@.phase is Starting ==> (end matches DiscoveryAction::Done(Err(DiscoveryError::Mdns(t)))
            && t@.len() >= cause@.len() && stands_at(t@, (t@.len() - cause@.len()) as nat, cause@)
            && stands_at(t@, 0, match old(failed)@.phase {
            DiscoveryPhase::Opening => "daemon: "@,
            DiscoveryPhase::Registering => "register: "@,
            _ => "browse: "@,
        })),
{
    lemma_stands_between("daemon: "@, cause@, Seq::empty());
    lemma_stands_between("register: "@, cause@, Seq::empty());
    lemma_stands_between("browse: "@, cause@, Seq::empty());
    if let DiscoveryAction::Done(Ok(_)) = end {
        assert(end@ == DiscoveryOutput::<A>::Done(Ok(())));
    }
    if let DiscoveryAction::Done(Err(e)) = end {
        assert(end@ == DiscoveryOutput::<A>::Done(Err(e@)));
    }
    if let DiscoveryAction::Done(Err(e)) = next {
        assert(next@ == DiscoveryOutput::<A>::Done(Err(e@)));
    }
}

/// Law: while it browses, discovery hands on every service that stands for a peer
/// other than the local one, as that peer, and passes over everything else. It goes on
/// browsing when the consumer has taken the peer, and shuts the daemon down when the
/// consumer is gone or nothing more will be seen.
pub proof fn law_what_browsing_does<A>(
    seen: &mut Discovery,
    txt: Vec<(String, String)>,
    addr: Option<A>,
    found: Option<DiscoveredPeer<A>>,
    action: DiscoveryAction<A>,
    later: &mut Discovery,
    event: DiscoveryEvent<A>,
    next: DiscoveryAction<A>,
)
    requires
        call_ensures(Discovery::step::<A>, (seen, DiscoveryEvent::Resolved { txt, addr }), action),
        call_ensures(resolve_to_peer::<A>, (&txt, addr), found),
        call_ensures(Discovery::step::<A>, (later, event), next),
        old(seen)@.phase is Browsing,
    ensures
        found matches Some(p) ==> (old(seen)@.setup.local_peer != Some(p.peer@) ==> (action
            matches DiscoveryAction::Send(out) && out.peer@ == p.peer@ && out.addr == p.addr
            && out.zenoh_url@ == p.zenoh_url@ && out.via_mdns)),
        found matches Some(p) ==> (old(seen)@.setup.local_peer == Some(p.peer@) ==> action
            is Receive),
        found is None ==> action is Receive,
        old(later)@.phase is Browsing && event is Other ==> next is Receive,
        old(later)@.phase is Browsing && event is BrowseClosed ==> next is Shutdown,
        old(later)@.phase is Surfacing && event is Sent ==> next is Receive,
        old(later)@.phase is Surfacing && event is Dropped ==> next is Shutdown,
        old(later)@.phase is Browsing || old(later)@.phase is Surfacing ==> (next is Receive
            <==> final(later)@.phase is Browsing) && (next is Shutdown <==> final(later)@.phase
            is Closing) && (next is Send <==> final(later)@.phase is Surfacing),
        action is Send ==> final(seen)@.phase is Surfacing,
        action is Receive ==> final(seen)@.phase is Browsing,
        final(seen)@.setup == old(seen)@.setup && final(seen)@.taken == old(seen)@.taken,
        final(later)@.setup == old(later)@.setup,
{
    assert(action@ is Send ==> action is Send);
}

/// Law: a seed whose socket address is read goes to the consumer with that address;
/// one whose socket address cannot be read ends discovery with an error that names it
/// and ends in the cause.
pub proof fn law_seed_is_handed_on<A>(
    d: &mut Discovery,
    addr: Result<A, String>,
    action: DiscoveryAction<A>,
)
    requires
        call_ensures(Discovery::step::<A>, (d, DiscoveryEvent::Addr(addr)), action),
        old(d)@.phase is Resolving,
    ensures
        addr matches Ok(a) ==> (action matches DiscoveryAction::Send(p) && p.peer@ == old(
            d,
        )@.phase->Resolving_0.peer && p.addr == a && p.zenoh_url@ == old(
            d,
        )@.phase->Resolving_0.url && !p.via_mdns && final(d)@.phase is Flushing),
        final(d)@.setup == old(d)@.setup && final(d)@.taken == old(d)@.taken,
        addr matches Err(cause) ==> (action matches DiscoveryAction::Done(
            Err(DiscoveryError::BadSeed { entry, reason }),
        ) && entry@ == old(d)@.setup.seeds[old(d)@.taken - 1] && reason@.len() >= cause@.len()
            && stands_at(reason@, (reason@.len() - cause@.len()) as nat, cause@) && stands_at(
            reason@,
            0,
            "not a socket addr: "@,
        )),
{
    if let Err(cause) = addr {
        lemma_stands_between("not a socket addr: "@, cause@, Seq::empty());
    }
    if let DiscoveryAction::Done(Ok(_)) = action {
        assert(action@ == DiscoveryOutput::<A>::Done(Ok(())));
    }
    if let DiscoveryAction::Done(Err(e)) = action {
        assert(action@ == DiscoveryOutput::<A>::Done(Err(e@)));
    }
}

} // verus!
