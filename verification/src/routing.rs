//! Local-only work-stealing decisions.
//!
//! Every peer decides for itself, on every inference request, whether to serve
//! locally or forward to a peer that has the same model loaded:
//!
//! 1. If the model is loaded here, serve locally, even at high load.
//! 2. If the request has already taken as many hops as it may, refuse.
//! 3. Of the live peers that have announced the model, the least loaded serves
//!    it; ties go to the smaller address, so that two peers facing the same
//!    decision pick the same target.
use vstd::prelude::*;
use vstd::string::StringExecFns;

use crate::config::MeshConfig;
use crate::event::{Load, MAX_BITS};
use crate::peer::{law_first_byte_orders, law_order_total, law_order_transitive, lemma_peer_ext, peer_less, PeerId};
use crate::text::{decimal, law_decimal_writes_the_number, lemma_stands_between, numeral_value, same_text, stands_at, texts, to_decimal};

verus! {

/// Nanoseconds in a second.
pub const NANOS_PER_SEC: u128 = 1_000_000_000;

/// Routing errors.
#[derive(Debug)]
pub enum RoutingError {
    /// No live peer in the mesh has this model.
    NoSuchModel {
        /// Model name the caller asked for.
        model_name: String,
    },
    /// The request has already hit the hop budget.
    HopBudget {
        /// The configured maximum.
        max_hops: u8,
    },
}

impl RoutingError {
    /// The message for people.
    pub fn to_text(&self) -> (r: String)
        ensures
            match self {
                RoutingError::NoSuchModel { model_name } => r@ == "no peer advertises model "@
                    + model_name@,
                RoutingError::HopBudget { max_hops } => r@ == "hop budget exhausted (max_hops="@
                    + decimal(*max_hops as nat) + ")"@,
            },
    {
        match self {
            RoutingError::NoSuchModel { model_name } => {
                let mut r = "no peer advertises model ".to_owned();
                r.append(model_name.as_str());
                r
            },
            RoutingError::HopBudget { max_hops } => {
                let mut r = "hop budget exhausted (max_hops=".to_owned();
                r.append(to_decimal(*max_hops as u64).as_str());
                r.append(")");
                r
            },
        }
    }
}

/// What the router decided for one incoming request.
#[derive(Clone, Debug, PartialEq, Eq)]
pub enum Decision {
    /// Serve locally.
    Local,
    /// Forward to a peer that has the model loaded.
    Forward {
        /// Target peer.
        to: PeerId,
    },
}

// ---------------------------------------------------------------------------
// The model of a routing table
// ---------------------------------------------------------------------------

/// One peer's gossiped state.
#[verifier::ext_equal]
pub struct PeerState {
    /// Most recent load from a heartbeat.
    pub load: Load,
    /// When the peer was last heard, in nanoseconds of the caller's monotonic
    /// clock.
    pub last_seen: u128,
    /// Models this peer has announced, in the order of their announcement.
    pub models: Seq<Seq<char>>,
}

/// What is known of the other peers, by address.
pub type Peers = Map<Seq<u8>, PeerState>;

/// `peers` after `peer` announced `model` at `now`. An announcement from a peer
/// not heard of before leaves its load unknown.
pub open spec fn announced(peers: Peers, peer: Seq<u8>, model: Seq<char>, now: u128) -> Peers {
    let known = if peers.contains_key(peer) {
        peers[peer]
    } else {
        PeerState { load: Load { bits: MAX_BITS }, last_seen: now, models: Seq::empty() }
    };
    peers.insert(
        peer,
        PeerState {
            load: known.load,
            last_seen: now,
            models: if known.models.contains(model) {
                known.models
            } else {
                known.models.push(model)
            },
        },
    )
}

/// `peers` after a heartbeat of `peer` with `load` at `now`.
pub open spec fn beaten(peers: Peers, peer: Seq<u8>, load: Load, now: u128) -> Peers {
    peers.insert(
        peer,
        PeerState {
            load,
            last_seen: now,
            models: if peers.contains_key(peer) {
                peers[peer].models
            } else {
                Seq::empty()
            },
        },
    )
}

/// How long ago `last_seen` was at `now`; a time still to come counts as now.
pub open spec fn age(now: u128, last_seen: u128) -> int {
    if now >= last_seen {
        now - last_seen
    } else {
        0
    }
}

/// Whether `peer` is live and has announced `model`.
pub open spec fn candidate(
    peers: Peers,
    dead_after_secs: u64,
    model: Seq<char>,
    now: u128,
    peer: Seq<u8>,
) -> bool {
    &&& peers.contains_key(peer)
    &&& age(now, peers[peer].last_seen) < dead_after_secs * NANOS_PER_SEC
    &&& peers[peer].models.contains(model)
}

/// Whether every candidate's load is a number.
pub open spec fn loads_comparable(
    peers: Peers,
    dead_after_secs: u64,
    model: Seq<char>,
    now: u128,
) -> bool {
    forall|k: Seq<u8>| #[trigger]
        candidate(peers, dead_after_secs, model, now, k) ==> !peers[k].load.is_nan()
}

/// Whether peer `a` is to be preferred to peer `b`: a smaller load, or the same
/// load and a smaller address.
pub open spec fn preferred(peers: Peers, a: Seq<u8>, b: Seq<u8>) -> bool {
    ||| peers[a].load.below(peers[b].load)
    ||| (!peers[b].load.below(peers[a].load) && peer_less(a, b))
}

/// Whether `peer` is a candidate that is preferred to every other.
pub open spec fn preferred_to_all(
    peers: Peers,
    dead_after_secs: u64,
    model: Seq<char>,
    now: u128,
    peer: Seq<u8>,
) -> bool {
    &&& candidate(peers, dead_after_secs, model, now, peer)
    &&& forall|k: Seq<u8>| #[trigger]
        candidate(peers, dead_after_secs, model, now, k) && k != peer ==> preferred(peers, peer, k)
}

/// Whether `to` is a candidate and, where loads can be compared, the one
/// preferred to every other. Where some cannot, one that is preferred to every
/// other is still the one, if there is such.
pub open spec fn best(
    peers: Peers,
    dead_after_secs: u64,
    model: Seq<char>,
    now: u128,
    to: Seq<u8>,
) -> bool {
    &&& candidate(peers, dead_after_secs, model, now, to)
    &&& loads_comparable(peers, dead_after_secs, model, now) ==> forall|k: Seq<u8>| #[trigger]
        candidate(peers, dead_after_secs, model, now, k) && k != to ==> preferred(peers, to, k)
    &&& forall|k: Seq<u8>| #[trigger]
        preferred_to_all(peers, dead_after_secs, model, now, k) ==> k == to
}

/// Whether `r` is the answer for a request: what `Router::route` promises.
pub open spec fn routed(
    cfg: MeshConfig,
    peers: Peers,
    model: Seq<char>,
    local_has: bool,
    hops_so_far: u8,
    now: u128,
    r: Result<Decision, RoutingError>,
) -> bool {
    if local_has {
        r == Ok::<Decision, RoutingError>(Decision::Local)
    } else if hops_so_far >= cfg.max_hops {
        r == Err::<Decision, RoutingError>(RoutingError::HopBudget { max_hops: cfg.max_hops })
    } else if exists|k: Seq<u8>| #[trigger]
        candidate(peers, cfg.peer_dead_after_secs, model, now, k) {
        r matches Ok(Decision::Forward { to }) && best(
            peers,
            cfg.peer_dead_after_secs,
            model,
            now,
            to@,
        )
    } else {
        r matches Err(RoutingError::NoSuchModel { model_name }) && model_name@ == model
    }
}

// ---------------------------------------------------------------------------
// The router
// ---------------------------------------------------------------------------

/// One row of the routing table.
#[derive(Clone, Debug)]
struct PeerRow {
    peer: PeerId,
    load: Load,
    last_seen: u128,
    models: Vec<String>,
}

impl PeerRow {
    spec fn state(self) -> PeerState {
        PeerState { load: self.load, last_seen: self.last_seen, models: texts(self.models@) }
    }
}

/// Whether some row is for `peer`.
spec fn has_row(rows: Seq<PeerRow>, peer: Seq<u8>) -> bool {
    exists|i: int| 0 <= i < rows.len() && #[trigger] rows[i].peer@ == peer
}

/// The row for `peer`.
spec fn row_of(rows: Seq<PeerRow>, peer: Seq<u8>) -> int {
    choose|i: int| 0 <= i < rows.len() && #[trigger] rows[i].peer@ == peer
}

spec fn table(rows: Seq<PeerRow>) -> Peers {
    Map::new(|k: Seq<u8>| has_row(rows, k), |k: Seq<u8>| rows[row_of(rows, k)].state())
}

/// Whether no two rows are for the same peer.
spec fn distinct(rows: Seq<PeerRow>) -> bool {
    forall|i: int, j: int|
        0 <= i < rows.len() && 0 <= j < rows.len() && i != j ==> #[trigger] rows[i].peer@
            != #[trigger] rows[j].peer@
}

proof fn lemma_table(rows: Seq<PeerRow>, i: int)
    requires
        distinct(rows),
        0 <= i < rows.len(),
    ensures
        table(rows).contains_key(rows[i].peer@),
        table(rows)[rows[i].peer@] == rows[i].state(),
{
    assert(has_row(rows, rows[i].peer@));
    assert(row_of(rows, rows[i].peer@) == i);
}

/// The router of one peer.
#[derive(Clone)]
pub struct Router {
    cfg: MeshConfig,
    local: PeerId,
    rows: Vec<PeerRow>,
}

impl Router {
    /// The configuration the router works under.
    pub closed spec fn cfg(self) -> MeshConfig {
        self.cfg
    }

    /// This peer's own address.
    pub closed spec fn local(self) -> Seq<u8> {
        self.local@
    }

    /// What is known of the other peers.
    pub closed spec fn peers(self) -> Peers {
        table(self.rows@)
    }

    /// Every peer has one row, and this peer has none.
    pub closed spec fn wf(self) -> bool {
        distinct(self.rows@) && !has_row(self.rows@, self.local@)
    }

    /// Construct a new router. `local` is *this* peer's address: the router
    /// will never route a request back to its own peer.
    #[must_use]
    pub fn new(local: PeerId, cfg: MeshConfig) -> (r: Self)
        ensures
            r.wf(),
            r.cfg() == cfg,
            r.local() == local@,
            r.peers() == Map::<Seq<u8>, PeerState>::empty(),
    {
        let r = Router { cfg, local, rows: Vec::new() };
        assert(table(r.rows@) =~= Map::<Seq<u8>, PeerState>::empty());
        r
    }

    fn find(&self, peer: PeerId) -> (r: Option<usize>)
        ensures
            match r {
                Some(i) => i < self.rows@.len() && self.rows@[i as int].peer@ == peer@,
                None => !has_row(self.rows@, peer@),
            },
    {
        let mut i: usize = 0;
        while i < self.rows.len()
            invariant
                i <= self.rows@.len(),
                forall|j: int| 0 <= j < i ==> #[trigger] self.rows@[j].peer@ != peer@,
            decreases self.rows@.len() - i,
        {
            if self.rows[i].peer == peer {
                return Some(i);
            }
            i = i + 1;
        }
        None
    }

    /// Record an incoming model announcement, heard at `now` (nanoseconds of a
    /// monotonic clock). One from this peer itself changes nothing.
    pub fn record_announce(&mut self, peer: PeerId, model_name: String, now: u128)
        requires
            old(self).wf(),
        ensures
            final(self).wf(),
            final(self).cfg() == old(self).cfg(),
            final(self).local() == old(self).local(),
            final(self).peers() == (if peer@ == old(self).local() {
                old(self).peers()
            } else {
                announced(old(self).peers(), peer@, model_name@, now)
            }),
    {
        if peer == self.local {
            return;
        }
        let ghost rows0 = self.rows@;
        match self.find(peer) {
            Some(i) => {
                proof {
                    lemma_table(rows0, i as int);
                }
                let known = has_text(&self.rows[i].models, model_name.as_str());
                let ghost models0 = texts(rows0[i as int].models@);
                let row = &mut self.rows[i];
                if !known {
                    row.models.push(model_name);
                }
                row.last_seen = now;
                proof {
                    let rows1 = self.rows@;
                    assert(texts(rows1[i as int].models@) =~= if known {
                        models0
                    } else {
                        models0.push(model_name@)
                    });
                    lemma_table_updated(rows0, rows1, i as int);
                }
            },
            None => {
                let mut models: Vec<String> = Vec::new();
                models.push(model_name);
                let row = PeerRow { peer, load: Load::unknown(), last_seen: now, models };
                assert(texts(row.models@) =~= Seq::<Seq<char>>::empty().push(model_name@));
                self.rows.push(row);
                proof {
                    lemma_table_pushed(rows0, self.rows@, row);
                }
            },
        }
    }

    /// Record an incoming heartbeat, heard at `now`. Updates the load and the
    /// last-seen time; does not change the model list.
    pub fn record_heartbeat(&mut self, peer: PeerId, load: Load, now: u128)
        requires
            old(self).wf(),
        ensures
            final(self).wf(),
            final(self).cfg() == old(self).cfg(),
            final(self).local() == old(self).local(),
            final(self).peers() == (if peer@ == old(self).local() {
                old(self).peers()
            } else {
                beaten(old(self).peers(), peer@, load, now)
            }),
    {
        if peer == self.local {
            return;
        }
        let ghost rows0 = self.rows@;
        match self.find(peer) {
            Some(i) => {
                proof {
                    lemma_table(rows0, i as int);
                }
                let row = &mut self.rows[i];
                row.load = load;
                row.last_seen = now;
                proof {
                    lemma_table_updated(rows0, self.rows@, i as int);
                }
            },
            None => {
                let row = PeerRow { peer, load, last_seen: now, models: Vec::new() };
                assert(texts(row.models@) =~= Seq::<Seq<char>>::empty());
                self.rows.push(row);
                proof {
                    lemma_table_pushed(rows0, self.rows@, row);
                }
            },
        }
    }

    /// Decide where to route a request for `model_name` at `now`. `local_has`
    /// is whether the caller's own engine has the model loaded; `hops_so_far`
    /// is how many forwards the request has already taken (0 for first-touch
    /// requests).
    pub fn route(
        &self,
        model_name: &str,
        local_has: bool,
        hops_so_far: u8,
        now: u128,
    ) -> (r: Result<Decision, RoutingError>)
        requires
            self.wf(),
        ensures
            routed(self.cfg(), self.peers(), model_name@, local_has, hops_so_far, now, r),
            r matches Ok(Decision::Forward { to }) ==> to@ != self.local(),
    {
        if local_has {
            return Ok(Decision::Local);
        }
        if hops_so_far >= self.cfg.max_hops {
            return Err(RoutingError::HopBudget { max_hops: self.cfg.max_hops });
        }
        let dead_after: u128 = self.cfg.peer_dead_after_secs as u128 * NANOS_PER_SEC;
        let ghost peers = self.peers();
        let ghost secs = self.cfg.peer_dead_after_secs;
        let mut chosen: Option<usize> = None;
        let mut i: usize = 0;
        while i < self.rows.len()
            invariant
                i <= self.rows@.len(),
                self.wf(),
                peers == table(self.rows@),
                secs == self.cfg.peer_dead_after_secs,
                dead_after == secs * NANOS_PER_SEC,
                match chosen {
                    None => forall|j: int|
                        0 <= j < i ==> !candidate(
                            peers,
                            secs,
                            model_name@,
                            now,
                            #[trigger] self.rows@[j].peer@,
                        ),
                    Some(c) => {
                        &&& c < i
                        &&& candidate(peers, secs, model_name@, now, self.rows@[c as int].peer@)
                        &&& loads_comparable(peers, secs, model_name@, now) ==> forall|j: int|
                            0 <= j < i && j != c && candidate(
                                peers,
                                secs,
                                model_name@,
                                now,
                                #[trigger] self.rows@[j].peer@,
                            ) ==> preferred(peers, self.rows@[c as int].peer@, self.rows@[j].peer@)
                        &&& forall|j: int|
                            0 <= j < i && preferred_to_all(
                                peers,
                                secs,
                                model_name@,
                                now,
                                #[trigger] self.rows@[j].peer@,
                            ) ==> j == c
                    },
                },
            decreases self.rows@.len() - i,
        {
            let row = &self.rows[i];
            proof {
                lemma_table(self.rows@, i as int);
            }
            let row_age: u128 = if now >= row.last_seen {
                now - row.last_seen
            } else {
                0
            };
            if row_age < dead_after && has_text(&row.models, model_name) {
                assert(candidate(peers, secs, model_name@, now, row.peer@));
                match chosen {
                    None => {
                        chosen = Some(i);
                    },
                    Some(c) => {
                        let held = &self.rows[c];
                        proof {
                            lemma_table(self.rows@, c as int);
                        }
                        let better = row.load.is_below(&held.load) || (!held.load.is_below(
                            &row.load,
                        ) && row.peer < held.peer);
                        assert(better == preferred(peers, row.peer@, held.peer@));
                        proof {
                            law_order_total(row.peer, held.peer);
                            if row.peer@ == held.peer@ {
                                assert(false);
                            }
                            assert(row.peer != held.peer);
                        }
                        if better {
                            proof {
                                if loads_comparable(peers, secs, model_name@, now) {
                                    assert forall|j: int|
                                        0 <= j < i + 1 && j != i && candidate(
                                            peers,
                                            secs,
                                            model_name@,
                                            now,
                                            #[trigger] self.rows@[j].peer@,
                                        ) implies preferred(
                                        peers,
                                        row.peer@,
                                        self.rows@[j].peer@,
                                    ) by {
                                        if j != c {
                                            lemma_preferred_transitive(
                                                peers,
                                                row.peer,
                                                held.peer,
                                                self.rows@[j].peer,
                                            );
                                        }
                                    }
                                }
                            }
                            chosen = Some(i);
                        } else {
                            assert(loads_comparable(peers, secs, model_name@, now) ==> preferred(
                                peers,
                                held.peer@,
                                row.peer@,
                            ));
                        }
                    },
                }
            }
            i = i + 1;
        }
        match chosen {
            None => {
                proof {
                    assert forall|k: Seq<u8>| !#[trigger]
                        candidate(peers, secs, model_name@, now, k) by {
                        if has_row(self.rows@, k) {
                            let j = row_of(self.rows@, k);
                            assert(self.rows@[j].peer@ == k);
                        }
                    }
                }
                Err(RoutingError::NoSuchModel { model_name: model_name.to_owned() })
            },
            Some(c) => {
                let to = self.rows[c].peer;
                proof {
                    assert forall|k: Seq<u8>| #[trigger]
                        candidate(peers, secs, model_name@, now, k) && k != to@
                            && loads_comparable(peers, secs, model_name@, now) implies preferred(
                        peers,
                        to@,
                        k,
                    ) by {
                        let j = row_of(self.rows@, k);
                        assert(has_row(self.rows@, k));
                        assert(self.rows@[j].peer@ == k);
                    }
                    assert forall|k: Seq<u8>| #[trigger]
                        preferred_to_all(peers, secs, model_name@, now, k) implies k == to@ by {
                        let j = row_of(self.rows@, k);
                        assert(has_row(self.rows@, k));
                        assert(self.rows@[j].peer@ == k);
                    }
                }
                Ok(Decision::Forward { to })
            },
        }
    }
}

/// Whether `v` holds the text `s`.
fn has_text(v: &Vec<String>, s: &str) -> (r: bool)
    ensures
        r == texts(v@).contains(s@),
{
    let mut i: usize = 0;
    while i < v.len()
        invariant
            i <= v@.len(),
            forall|j: int| 0 <= j < i ==> (#[trigger] v@[j])@ != s@,
        decreases v@.len() - i,
    {
        if same_text(v[i].as_str(), s) {
            assert(texts(v@)[i as int] == s@);
            return true;
        }
        i = i + 1;
    }
    assert forall|j: int| 0 <= j < texts(v@).len() implies texts(v@)[j] != s@ by {
        assert(v@[j]@ != s@);
    }
    false
}

proof fn lemma_table_updated(rows0: Seq<PeerRow>, rows1: Seq<PeerRow>, i: int)
    requires
        distinct(rows0),
        0 <= i < rows0.len(),
        rows1.len() == rows0.len(),
        rows1[i].peer == rows0[i].peer,
        forall|j: int| 0 <= j < rows0.len() && j != i ==> rows1[j] == rows0[j],
    ensures
        distinct(rows1),
        table(rows1) == table(rows0).insert(rows0[i].peer@, rows1[i].state()),
        forall|k: Seq<u8>| has_row(rows1, k) == has_row(rows0, k),
{
    assert forall|j: int| 0 <= j < rows0.len() implies #[trigger] rows1[j].peer == rows0[j].peer by {}
    assert forall|k: Seq<u8>| has_row(rows1, k) == has_row(rows0, k) by {
        if has_row(rows1, k) {
            let j = row_of(rows1, k);
            assert(rows0[j].peer@ == k);
        }
        if has_row(rows0, k) {
            let j = row_of(rows0, k);
            assert(rows1[j].peer@ == k);
        }
    }
    let m = table(rows0).insert(rows0[i].peer@, rows1[i].state());
    assert forall|k: Seq<u8>| has_row(rows1, k) implies table(rows1)[k] == m[k] by {
        let j = row_of(rows1, k);
        lemma_table(rows1, j);
        lemma_table(rows0, j);
        if k == rows0[i].peer@ {
            assert(rows0[j].peer@ == rows0[i].peer@);
        }
    }
    lemma_table(rows0, i);
    assert(table(rows1) =~= m);
}

proof fn lemma_table_pushed(rows0: Seq<PeerRow>, rows1: Seq<PeerRow>, row: PeerRow)
    requires
        distinct(rows0),
        !has_row(rows0, row.peer@),
        rows1 == rows0.push(row),
    ensures
        distinct(rows1),
        table(rows1) == table(rows0).insert(row.peer@, row.state()),
        forall|k: Seq<u8>| has_row(rows1, k) == (has_row(rows0, k) || k == row.peer@),
{
    let n = rows0.len() as int;
    assert(rows1[n] == row);
    assert forall|j: int| 0 <= j < n implies #[trigger] rows1[j] == rows0[j] by {}
    assert forall|k: Seq<u8>| has_row(rows1, k) == (has_row(rows0, k) || k == row.peer@) by {
        if has_row(rows1, k) {
            let j = row_of(rows1, k);
            if j < n {
                assert(rows0[j].peer@ == k);
            }
        }
        if has_row(rows0, k) {
            let j = row_of(rows0, k);
            assert(rows1[j].peer@ == k);
        }
        if k == row.peer@ {
            assert(rows1[n].peer@ == k);
        }
    }
    assert forall|a: int, b: int| 0 <= a < rows1.len() && 0 <= b < rows1.len() && a != b implies
        #[trigger] rows1[a].peer@ != #[trigger] rows1[b].peer@ by {
        if a == n {
            assert(rows0[b].peer@ != row.peer@);
        } else if b == n {
            assert(rows0[a].peer@ != row.peer@);
        }
    }
    let m = table(rows0).insert(row.peer@, row.state());
    assert forall|k: Seq<u8>| has_row(rows1, k) implies table(rows1)[k] == m[k] by {
        let j = row_of(rows1, k);
        lemma_table(rows1, j);
        if j < n {
            lemma_table(rows0, j);
        }
    }
    assert(table(rows1) =~= m);
}

proof fn lemma_preferred_transitive(peers: Peers, a: PeerId, b: PeerId, c: PeerId)
    requires
        preferred(peers, a@, b@),
        preferred(peers, b@, c@),
        !peers[a@].load.is_nan(),
        !peers[b@].load.is_nan(),
        !peers[c@].load.is_nan(),
    ensures
        preferred(peers, a@, c@),
{
    if peer_less(a@, b@) && peer_less(b@, c@) {
        law_order_transitive(a, b, c);
    }
}

// ---------------------------------------------------------------------------
// Laws
// ---------------------------------------------------------------------------

/// Law: where loads can be compared, the answer to a request is determined by
/// what is known of the peers, so that two routers facing the same decision
/// pick the same target.
pub proof fn law_same_decision(
    cfg: MeshConfig,
    peers: Peers,
    model: Seq<char>,
    local_has: bool,
    hops_so_far: u8,
    now: u128,
    r1: Result<Decision, RoutingError>,
    r2: Result<Decision, RoutingError>,
)
    requires
        routed(cfg, peers, model, local_has, hops_so_far, now, r1),
        routed(cfg, peers, model, local_has, hops_so_far, now, r2),
        loads_comparable(peers, cfg.peer_dead_after_secs, model, now),
    ensures
        r1 is Ok <==> r2 is Ok,
        r1 is Ok ==> r1 == r2,
        r1 matches Err(RoutingError::HopBudget { .. }) ==> r1 == r2,
        r1 matches Err(RoutingError::NoSuchModel { model_name: m1 }) ==> (r2 matches Err(
            RoutingError::NoSuchModel { model_name: m2 },
        ) && m1@ == m2@),
{
    if let (Ok(Decision::Forward { to: a }), Ok(Decision::Forward { to: b })) = (r1, r2) {
        law_order_total(a, b);
        if a@ != b@ {
            assert(preferred(peers, a@, b@));
            assert(preferred(peers, b@, a@));
            assert(false);
        }
        lemma_peer_ext(a, b);
    }
}

/// Law: a request whose model is announced by a live peer is forwarded, if it
/// cannot be served here and has hops left.
pub proof fn law_announced_model_is_routable(
    cfg: MeshConfig,
    peers: Peers,
    peer: Seq<u8>,
    model: Seq<char>,
    announced_at: u128,
    hops_so_far: u8,
    now: u128,
    r: Result<Decision, RoutingError>,
)
    requires
        age(now, announced_at) < cfg.peer_dead_after_secs * NANOS_PER_SEC,
        hops_so_far < cfg.max_hops,
        routed(
            cfg,
            announced(peers, peer, model, announced_at),
            model,
            false,
            hops_so_far,
            now,
            r,
        ),
    ensures
        r is Ok,
{
    let after = announced(peers, peer, model, announced_at);
    let models = after[peer].models;
    if !(peers.contains_key(peer) && peers[peer].models.contains(model)) {
        assert(models[models.len() - 1] == model);
    }
    assert(candidate(after, cfg.peer_dead_after_secs, model, now, peer));
}

/// Law: announcing a model again only renews the time it was last seen.
pub proof fn law_announce_again(
    peers: Peers,
    peer: Seq<u8>,
    model: Seq<char>,
    first: u128,
    second: u128,
)
    ensures
        announced(announced(peers, peer, model, first), peer, model, second) == announced(
            peers,
            peer,
            model,
            second,
        ),
{
    let once = announced(peers, peer, model, first);
    let models = once[peer].models;
    if !(peers.contains_key(peer) && peers[peer].models.contains(model)) {
        assert(models[models.len() - 1] == model);
    }
    assert(models.contains(model));
    assert(announced(once, peer, model, second) =~= announced(peers, peer, model, second));
}

/// Law: a heartbeat changes no peer's models, and nothing at all of any other
/// peer.
pub proof fn law_heartbeat_keeps_models(
    peers: Peers,
    peer: Seq<u8>,
    load: Load,
    now: u128,
    other: Seq<u8>,
)
    requires
        peers.contains_key(other),
    ensures
        beaten(peers, peer, load, now).contains_key(other),
        beaten(peers, peer, load, now)[other].models == peers[other].models,
        other != peer ==> beaten(peers, peer, load, now)[other] == peers[other],
{
}

/// Law: the words for a refused request end in the whole name of the model, or hold the
/// number of hops.
pub proof fn law_error_words(e: RoutingError, words: String)
    requires
        call_ensures(RoutingError::to_text, (&e,), words),
    ensures
        match e {
            RoutingError::NoSuchModel { model_name } => words@.len() == 25 + model_name@.len()
                && stands_at(words@, 0, "no peer advertises model "@) && stands_at(
                words@,
                25,
                model_name@,
            ),
            RoutingError::HopBudget { max_hops } => words@.len() > 32 && numeral_value(
                words@.subrange(31, words@.len() - 1),
            ) == max_hops && stands_at(words@, 0, "hop budget exhausted (max_hops="@)
                && words@.last() == ')',
        },
{
    reveal_strlit("no peer advertises model ");
    reveal_strlit("hop budget exhausted (max_hops=");
    reveal_strlit(")");
    match e {
        RoutingError::NoSuchModel { model_name } => lemma_stands_between(
            "no peer advertises model "@,
            model_name@,
            Seq::empty(),
        ),
        RoutingError::HopBudget { max_hops } => {
            law_decimal_writes_the_number(max_hops as nat);
            lemma_stands_between(
                "hop budget exhausted (max_hops="@,
                decimal(max_hops as nat),
                ")"@,
            );
            assert(words@.subrange(31, words@.len() - 1) =~= decimal(max_hops as nat));
        },
    }
}

/// Law: a heartbeat of another peer sets what is known of that peer to exactly the
/// load it carries and the time it is heard, whatever was known before; its models
/// stay, and nothing changes of any other peer.
pub proof fn law_heartbeat_is_recorded(
    router: &mut Router,
    peer: PeerId,
    load: Load,
    now: u128,
    other: Seq<u8>,
)
    requires
        call_ensures(Router::record_heartbeat, (router, peer, load, now), ()),
        peer@ != old(router).local(),
    ensures
        final(router).peers().contains_key(peer@),
        final(router).peers()[peer@].load == load,
        final(router).peers()[peer@].last_seen == now,
        old(router).peers().contains_key(peer@) ==> final(router).peers()[peer@].models == old(
            router,
        ).peers()[peer@].models,
        !old(router).peers().contains_key(peer@) ==> final(router).peers()[peer@].models.len()
            == 0,
        other != peer@ ==> (final(router).peers().contains_key(other) <==> old(
            router,
        ).peers().contains_key(other)),
        other != peer@ && old(router).peers().contains_key(other) ==> final(router).peers()[other]
            == old(router).peers()[other],
        final(router).local() == old(router).local(),
        final(router).cfg() == old(router).cfg(),
{
}

/// Law: an announcement of another peer adds the model to those of that peer, and
/// no other; it renews the time the peer was heard, and keeps its load. The load of
/// a peer not heard of before counts as larger than every other finite one. Nothing
/// changes of any other peer.
pub proof fn law_announcement_is_recorded(
    router: &mut Router,
    peer: PeerId,
    name: String,
    now: u128,
    other: Seq<u8>,
    model: Seq<char>,
)
    requires
        call_ensures(Router::record_announce, (router, peer, name, now), ()),
        peer@ != old(router).local(),
    ensures
        final(router).peers().contains_key(peer@),
        final(router).peers()[peer@].models.contains(name@),
        final(router).peers()[peer@].last_seen == now,
        model != name@ ==> (final(router).peers()[peer@].models.contains(model) <==> (old(
            router,
        ).peers().contains_key(peer@) && old(router).peers()[peer@].models.contains(model))),
        old(router).peers().contains_key(peer@) ==> final(router).peers()[peer@].load == old(
            router,
        ).peers()[peer@].load,
        !old(router).peers().contains_key(peer@) ==> final(router).peers()[peer@].load.bits
            == 0x7fef_ffff_ffff_ffff,
        other != peer@ ==> (final(router).peers().contains_key(other) <==> old(
            router,
        ).peers().contains_key(other)),
        other != peer@ && old(router).peers().contains_key(other) ==> final(router).peers()[other]
            == old(router).peers()[other],
        final(router).local() == old(router).local(),
        final(router).cfg() == old(router).cfg(),
{
    let before = old(router).peers();
    let after = final(router).peers()[peer@].models;
    let known = if before.contains_key(peer@) {
        before[peer@].models
    } else {
        Seq::empty()
    };
    if !known.contains(name@) {
        assert(after =~= known.push(name@));
        assert(after[known.len() as int] == name@);
        if known.contains(model) {
            let i = choose|i: int| 0 <= i < known.len() && known[i] == model;
            assert(after[i] == model);
        }
        if model != name@ && after.contains(model) {
            let i = choose|i: int| 0 <= i < after.len() && after[i] == model;
            assert(known[i] == model);
        }
    }
}

/// Law: a router knows only what it was told of others: it starts out knowing
/// nobody, and what comes from its own peer changes nothing.
pub proof fn law_own_events_change_nothing(
    fresh: Router,
    local: PeerId,
    cfg: MeshConfig,
    beaten_router: &mut Router,
    announced_router: &mut Router,
    peer: PeerId,
    load: Load,
    name: String,
    now: u128,
)
    requires
        call_ensures(Router::new, (local, cfg), fresh),
        call_ensures(Router::record_heartbeat, (beaten_router, peer, load, now), ()),
        call_ensures(Router::record_announce, (announced_router, peer, name, now), ()),
    ensures
        fresh.local() == local@,
        fresh.cfg() == cfg,
        forall|k: Seq<u8>| !fresh.peers().contains_key(k),
        peer@ == old(beaten_router).local() ==> final(beaten_router).peers() == old(
            beaten_router,
        ).peers(),
        peer@ == old(announced_router).local() ==> final(announced_router).peers() == old(
            announced_router,
        ).peers(),
{
}

/// Law: what becomes of a request. A model that is loaded here is served here. Any
/// other request is refused if it has no hop left, and otherwise goes to a peer
/// that has announced the model and was heard within the time after which a peer
/// counts as dead: never to this peer itself, never past a peer with a smaller
/// load, and of peers with the same load to the one with the smallest address. A
/// peer that comes before every other such peer is the target even where some load
/// is not a number. It is refused for want of the model exactly if there is no such
/// peer.
pub proof fn law_what_becomes_of_a_request(
    router: Router,
    name: &str,
    local_has: bool,
    hops: u8,
    now: u128,
    r: Result<Decision, RoutingError>,
    peer: PeerId,
)
    requires
        call_ensures(Router::route, (&router, name, local_has, hops, now), r),
    ensures
        local_has ==> r == Ok::<Decision, RoutingError>(Decision::Local),
        !local_has ==> r != Ok::<Decision, RoutingError>(Decision::Local),
        !local_has && hops >= router.cfg().max_hops ==> r == Err::<Decision, RoutingError>(
            RoutingError::HopBudget { max_hops: router.cfg().max_hops },
        ),
        r matches Err(RoutingError::HopBudget { .. }) ==> !local_has && hops
            >= router.cfg().max_hops,
        r matches Err(RoutingError::NoSuchModel { model_name }) ==> {
            &&& model_name@ == name@
            &&& !(router.peers().contains_key(peer@) && router.peers()[peer@].models.contains(name@)
                && router.cfg().peer_dead_after_secs > 0 && now < router.peers()[peer@].last_seen
                + router.cfg().peer_dead_after_secs * 1_000_000_000)
        },
        r matches Ok(Decision::Forward { to }) ==> {
            &&& to@ != router.local()
            &&& router.peers().contains_key(to@)
            &&& router.peers()[to@].models.contains(name@)
            &&& now < router.peers()[to@].last_seen + router.cfg().peer_dead_after_secs
                * 1_000_000_000
        },
        (r matches Ok(Decision::Forward { to }) && peer@ != to@ && router.peers().contains_key(peer@)
            && router.peers()[peer@].models.contains(name@) && router.cfg().peer_dead_after_secs > 0
            && now < router.peers()[peer@].last_seen + router.cfg().peer_dead_after_secs
            * 1_000_000_000 && (forall|k: Seq<u8>|
            router.peers().contains_key(k) ==> !(#[trigger] router.peers()[k]).load.is_nan()))
            ==> {
            let to = r->Ok_0->to;
            &&& !router.peers()[peer@].load.below(router.peers()[to@].load)
            &&& !router.peers()[to@].load.below(router.peers()[peer@].load) ==> exists|i: int|
                0 <= i < 32 && #[trigger] to@.take(i) == peer@.take(i) && to@[i] < peer@[i]
        },
        (!local_has && hops < router.cfg().max_hops && router.peers().contains_key(peer@)
            && router.peers()[peer@].models.contains(name@) && router.cfg().peer_dead_after_secs > 0
            && now < router.peers()[peer@].last_seen + router.cfg().peer_dead_after_secs
            * 1_000_000_000 && (forall|k: Seq<u8>|
            router.peers().contains_key(k) && k != peer@ && (#[trigger] router.peers()[k]).models.contains(
                name@,
            ) && now < router.peers()[k].last_seen + router.cfg().peer_dead_after_secs
                * 1_000_000_000 ==> router.peers()[peer@].load.below(router.peers()[k].load) || (
            !router.peers()[k].load.below(router.peers()[peer@].load) && peer_less(peer@, k))))
            ==> (r matches Ok(Decision::Forward { to }) && to@ == peer@),
{
    let peers = router.peers();
    let secs = router.cfg().peer_dead_after_secs;
    if peers.contains_key(peer@) && peers[peer@].models.contains(name@) && secs > 0 && now
        < peers[peer@].last_seen + secs * 1_000_000_000 {
        assert(candidate(peers, secs, name@, now, peer@));
        if forall|k: Seq<u8>|
            peers.contains_key(k) && k != peer@ && (#[trigger] peers[k]).models.contains(name@)
                && now < peers[k].last_seen + secs * 1_000_000_000 ==> peers[peer@].load.below(
                peers[k].load,
            ) || (!peers[k].load.below(peers[peer@].load) && peer_less(peer@, k)) {
            assert(preferred_to_all(peers, secs, name@, now, peer@));
        }
    }
    if let Ok(Decision::Forward { to }) = r {
        law_first_byte_orders(to, peer);
    }
}

/// Law: of two peers that have announced a model and are live, the one whose most
/// recent heartbeat carries the smaller load comes first: the other is no target,
/// whatever either reported before; and where nobody else has announced the model,
/// the first is the target. `first` and `second` are the router as it records one
/// heartbeat of each.
pub proof fn law_smaller_recent_load_is_the_target(
    first: &mut Router,
    second: &mut Router,
    a: PeerId,
    load_a: Load,
    b: PeerId,
    load_b: Load,
    heard: u128,
    name: &str,
    hops: u8,
    now: u128,
    r: Result<Decision, RoutingError>,
)
    requires
        call_ensures(Router::record_heartbeat, (first, a, load_a, heard), ()),
        call_ensures(Router::record_heartbeat, (second, b, load_b, heard), ()),
        *final(first) == *old(second) || *final(second) == *old(first),
        call_ensures(
            Router::route,
            (
                &(if *final(first) == *old(second) {
                    *final(second)
                } else {
                    *final(first)
                }),
                name,
                false,
                hops,
                now,
            ),
            r,
        ),
        a@ != b@,
        a@ != old(first).local(),
        b@ != old(second).local(),
        old(first).local() == old(second).local(),
        old(first).cfg() == old(second).cfg(),
        old(first).peers().contains_key(a@),
        old(first).peers()[a@].models.contains(name@),
        old(second).peers().contains_key(b@),
        old(second).peers()[b@].models.contains(name@),
        load_a.below(load_b),
        forall|k: Seq<u8>|
            old(first).peers().contains_key(k) ==> !(#[trigger] old(
                first,
            ).peers()[k]).load.is_nan(),
        forall|k: Seq<u8>|
            old(second).peers().contains_key(k) ==> !(#[trigger] old(
                second,
            ).peers()[k]).load.is_nan(),
        hops < old(first).cfg().max_hops,
        heard <= now < heard + old(first).cfg().peer_dead_after_secs * 1_000_000_000,
    ensures
        r matches Ok(Decision::Forward { to }) && to@ != b@,
        (forall|k: Seq<u8>|
            old(first).peers().contains_key(k) && k != a@ && k != b@ ==> !(#[trigger] old(
                first,
            ).peers()[k]).models.contains(name@)) && (forall|k: Seq<u8>|
            old(second).peers().contains_key(k) && k != a@ && k != b@ ==> !(#[trigger] old(
                second,
            ).peers()[k]).models.contains(name@)) ==> r->Ok_0->to@ == a@,
{
    let router = if *final(first) == *old(second) {
        *final(second)
    } else {
        *final(first)
    };
    let peers = router.peers();
    let secs = router.cfg().peer_dead_after_secs;
    assert(candidate(peers, secs, name@, now, a@));
    assert(candidate(peers, secs, name@, now, b@));
    assert forall|k: Seq<u8>| peers.contains_key(k) implies !(#[trigger] peers[k]).load.is_nan() by {
        if k != a@ && k != b@ {
            if *final(first) == *old(second) {
                assert(!old(first).peers()[k].load.is_nan());
            } else {
                assert(!old(second).peers()[k].load.is_nan());
            }
        }
    }
    if let Ok(Decision::Forward { to }) = r {
        law_what_becomes_of_a_request(router, name, false, hops, now, r, a);
        assert(best(peers, secs, name@, now, to@));
    }
}

/// Law: a peer not heard of for as long as makes it dead is never a target.
pub proof fn law_dead_peer_is_no_target(
    cfg: MeshConfig,
    peers: Peers,
    model: Seq<char>,
    local_has: bool,
    hops_so_far: u8,
    now: u128,
    r: Result<Decision, RoutingError>,
    dead: PeerId,
)
    requires
        routed(cfg, peers, model, local_has, hops_so_far, now, r),
        peers.contains_key(dead@),
        age(now, peers[dead@].last_seen) >= cfg.peer_dead_after_secs * NANOS_PER_SEC,
    ensures
        r != Ok::<Decision, RoutingError>(Decision::Forward { to: dead }),
{
}

} // verus!
