//! Canonical key expressions, and how a transport session is set up and read.
//!
//! Every key starts with `furcate/mesh/`. The next segment is a peer's
//! address, and the one after it the class of event:
//!
//! | Pattern                                      | Event           |
//! |----------------------------------------------|-----------------|
//! | `furcate/mesh/<peer>/heartbeat`              | `Heartbeat`     |
//! | `furcate/mesh/<peer>/model/<name>`           | `ModelAnnounce` |
//! | `furcate/mesh/<to>/work-offer/<request-id>`  | `WorkOffer`     |
//! | `furcate/mesh/<to>/work-result/<request-id>` | `WorkResult`    |
//! | `furcate/mesh/<peer>/agent/<agent-id>`       | `AgentState`    |
//!
//! Subscribers put a wildcard for the peer to listen to the whole mesh.
use vstd::prelude::*;
use vstd::string::StringExecFns;

use crate::config::prefixed;
use crate::event::MeshEvent;
use crate::hexcode::{hex_digit, hex_encode, lemma_hex_encode_ascii, lemma_hex_injective};
use crate::peer::PeerId;
use crate::text::{decimal, law_decimal_writes_the_number, lemma_stands_between, numeral_value, stands_at, texts, to_decimal};

verus! {

/// Root namespace for every mesh key.
pub const ROOT: &'static str = "furcate/mesh";

/// Wildcard for "all heartbeats from any peer".
pub const SUB_ALL_HEARTBEATS: &'static str = "furcate/mesh/*/heartbeat";

/// Wildcard for "all model announcements".
pub const SUB_ALL_MODELS: &'static str = "furcate/mesh/*/model/**";

/// Wildcard for "any agent-state event".
pub const SUB_ALL_AGENT_STATE: &'static str = "furcate/mesh/*/agent/**";

// ---------------------------------------------------------------------------
// Key expressions
// ---------------------------------------------------------------------------

/// The key of what concerns `peer` under the class `rest`.
pub open spec fn peer_key(peer: Seq<u8>, rest: Seq<char>) -> Seq<char> {
    ROOT@ + "/"@ + hex_encode(peer) + "/"@ + rest
}

/// The peer whose part of the namespace an event is published in: the sender,
/// or the receiver of work.
pub open spec fn key_peer(event: MeshEvent) -> Seq<u8> {
    match event {
        MeshEvent::Heartbeat { peer, .. } => peer@,
        MeshEvent::ModelAnnounce { peer, .. } => peer@,
        MeshEvent::WorkOffer { to, .. } => to@,
        MeshEvent::WorkResult { to, .. } => to@,
        MeshEvent::AgentState { peer, .. } => peer@,
    }
}

/// The class of an event, and the name within it.
pub open spec fn key_class(event: MeshEvent) -> Seq<char> {
    match event {
        MeshEvent::Heartbeat { .. } => "heartbeat"@,
        MeshEvent::ModelAnnounce { model_name, .. } => "model/"@ + model_name@,
        MeshEvent::WorkOffer { .. } => "work-offer"@,
        MeshEvent::WorkResult { .. } => "work-result"@,
        MeshEvent::AgentState { agent_id, .. } => "agent/"@ + agent_id@,
    }
}

/// The canonical key of an event.
pub open spec fn event_key(event: MeshEvent) -> Seq<char> {
    peer_key(key_peer(event), key_class(event))
}

fn make_key(peer: &PeerId, class: &str, name: &str) -> (r: String)
    ensures
        r@ == peer_key(peer@, class@ + name@),
{
    let mut r = ROOT.to_owned();
    r.append("/");
    r.append(peer.to_hex().as_str());
    r.append("/");
    r.append(class);
    r.append(name);
    assert(r@ =~= peer_key(peer@, class@ + name@));
    r
}

/// Build the canonical key expression for a mesh event.
///
/// Request ids are not part of an event, so for work offers and results this
/// is the prefix that `key_work_offer` and `key_work_result` complete.
#[must_use]
pub fn key_for(event: &MeshEvent) -> (r: String)
    ensures
        r@ == event_key(*event),
{
    proof {
        reveal_strlit("");
        assert("heartbeat"@ + ""@ =~= "heartbeat"@);
        assert("work-offer"@ + ""@ =~= "work-offer"@);
        assert("work-result"@ + ""@ =~= "work-result"@);
    }
    match event {
        MeshEvent::Heartbeat { peer, .. } => make_key(peer, "heartbeat", ""),
        MeshEvent::ModelAnnounce { peer, model_name, .. } => make_key(
            peer,
            "model/",
            model_name.as_str(),
        ),
        MeshEvent::WorkOffer { to, .. } => make_key(to, "work-offer", ""),
        MeshEvent::WorkResult { to, .. } => make_key(to, "work-result", ""),
        MeshEvent::AgentState { peer, agent_id, .. } => make_key(peer, "agent/", agent_id.as_str()),
    }
}

/// Full work-offer key including a request id.
#[must_use]
pub fn key_work_offer(to: &PeerId, request_id: &str) -> (r: String)
    ensures
        r@ == peer_key(to@, "work-offer/"@ + request_id@),
{
    make_key(to, "work-offer/", request_id)
}

/// Full work-result key including a request id.
#[must_use]
pub fn key_work_result(to: &PeerId, request_id: &str) -> (r: String)
    ensures
        r@ == peer_key(to@, "work-result/"@ + request_id@),
{
    make_key(to, "work-result/", request_id)
}

/// `key` is `pattern` with its `*` replaced by one segment, and, where
/// `pattern` ends in `**`, these replaced by anything.
pub open spec fn subscribed(pattern: Seq<char>, key: Seq<char>) -> bool {
    exists|before: Seq<char>, segment: Seq<char>, after: Seq<char>, rest: Seq<char>|
        #![trigger before + segment + after + rest]
        {
            &&& segment.len() > 0 && !segment.contains('/')
            &&& !before.contains('*') && !after.contains('*')
            &&& key == before + segment + after + rest
            &&& pattern == before + "*"@ + after || pattern == before + "*"@ + after + "**"@
            &&& pattern == before + "*"@ + after ==> rest.len() == 0
        }
}

/// The parts of a key have fixed places: the address of the peer stands at the
/// same place in every key.
proof fn lemma_key_parts(peer: Seq<u8>, rest: Seq<char>)
    requires
        peer.len() == 32,
    ensures
        peer_key(peer, rest).subrange(13, 77) == hex_encode(peer),
        peer_key(peer, rest).skip(78) == rest,
        hex_encode(peer).len() == 64,
        !hex_encode(peer).contains('/'),
{
    reveal_strlit("furcate/mesh");
    reveal_strlit("/");
    lemma_hex_encode_ascii(peer);
    let k = peer_key(peer, rest);
    assert(k.subrange(13, 77) =~= hex_encode(peer));
    assert(k.skip(78) =~= rest);
    assert forall|i: int| 0 <= i < hex_encode(peer).len() implies hex_encode(peer)[i] != '/' by {}
}

/// Law: an event's key tells which peer it is about and its class and name.
pub proof fn law_key_determines_event(a: MeshEvent, b: MeshEvent)
    requires
        event_key(a) == event_key(b),
    ensures
        key_peer(a) == key_peer(b),
        key_class(a) == key_class(b),
        a is Heartbeat <==> b is Heartbeat,
        a is ModelAnnounce <==> b is ModelAnnounce,
        a is WorkOffer <==> b is WorkOffer,
        a is WorkResult <==> b is WorkResult,
        a is AgentState <==> b is AgentState,
{
    lemma_key_parts(key_peer(a), key_class(a));
    lemma_key_parts(key_peer(b), key_class(b));
    lemma_hex_injective(key_peer(a), key_peer(b));
    reveal_strlit("heartbeat");
    reveal_strlit("model/");
    reveal_strlit("work-offer");
    reveal_strlit("work-result");
    reveal_strlit("agent/");
    assert(key_class(a)[0] == key_class(b)[0]);
    assert(key_class(a).len() == key_class(b).len());
}

/// Law: what stands in a key. It begins with the root of the namespace; then comes
/// the whole address of the peer, the sender's or, for work, the receiver's; then the
/// class of the event; and for a model or an agent, after a slash, its whole name and
/// nothing else.
pub proof fn law_what_stands_in_a_key(event: MeshEvent, key: String)
    requires
        call_ensures(key_for, (&event,), key),
    ensures
        key@.len() >= 78,
        key@.take(13) == "furcate/mesh/"@,
        key@[77] == '/',
        match event {
            MeshEvent::Heartbeat { peer, .. } => key@.subrange(13, 77) == hex_encode(peer@)
                && key@.skip(78) == "heartbeat"@,
            MeshEvent::ModelAnnounce { peer, model_name, .. } => key@.subrange(13, 77)
                == hex_encode(peer@) && stands_at(key@, 78, "model/"@) && key@.skip(84)
                == model_name@,
            MeshEvent::WorkOffer { to, .. } => key@.subrange(13, 77) == hex_encode(to@) && key@.skip(
                78,
            ) == "work-offer"@,
            MeshEvent::WorkResult { to, .. } => key@.subrange(13, 77) == hex_encode(to@)
                && key@.skip(78) == "work-result"@,
            MeshEvent::AgentState { peer, agent_id, .. } => key@.subrange(13, 77) == hex_encode(
                peer@,
            ) && stands_at(key@, 78, "agent/"@) && key@.skip(84) == agent_id@,
        },
{
    lemma_key_parts(key_peer(event), key_class(event));
    reveal_strlit("furcate/mesh");
    reveal_strlit("furcate/mesh/");
    reveal_strlit("/");
    reveal_strlit("model/");
    reveal_strlit("agent/");
    assert(key@.take(13) =~= "furcate/mesh/"@);
    match event {
        MeshEvent::ModelAnnounce { model_name, .. } => {
            assert(key@.skip(78).take(6) =~= "model/"@);
            assert(key@.skip(84) =~= model_name@);
        },
        MeshEvent::AgentState { agent_id, .. } => {
            assert(key@.skip(78).take(6) =~= "agent/"@);
            assert(key@.skip(84) =~= agent_id@);
        },
        _ => {},
    }
}

/// Law: two announcements have the same key exactly if they are of the same peer and
/// the same model, two agent states exactly if they are of the same peer and the
/// same agent, and two heartbeats exactly if they are of the same peer, whatever else
/// they say. An event of one kind never has the key of another.
pub proof fn law_keys_tell_events_apart(a: MeshEvent, key_a: String, b: MeshEvent, key_b: String)
    requires
        call_ensures(key_for, (&a,), key_a),
        call_ensures(key_for, (&b,), key_b),
    ensures
        match (a, b) {
            (MeshEvent::Heartbeat { peer: p, .. }, MeshEvent::Heartbeat { peer: q, .. }) => key_a@
                == key_b@ <==> p@ == q@,
            (
                MeshEvent::ModelAnnounce { peer: p, model_name: m, .. },
                MeshEvent::ModelAnnounce { peer: q, model_name: n, .. },
            ) => key_a@ == key_b@ <==> p@ == q@ && m@ == n@,
            (MeshEvent::WorkOffer { to: p, .. }, MeshEvent::WorkOffer { to: q, .. }) => key_a@
                == key_b@ <==> p@ == q@,
            (MeshEvent::WorkResult { to: p, .. }, MeshEvent::WorkResult { to: q, .. }) => key_a@
                == key_b@ <==> p@ == q@,
            (
                MeshEvent::AgentState { peer: p, agent_id: m, .. },
                MeshEvent::AgentState { peer: q, agent_id: n, .. },
            ) => key_a@ == key_b@ <==> p@ == q@ && m@ == n@,
            _ => key_a@ != key_b@,
        },
{
    law_what_stands_in_a_key(a, key_a);
    law_what_stands_in_a_key(b, key_b);
    if key_a@ == key_b@ {
        law_key_determines_event(a, b);
    }
}

/// Law: the full key of a work offer or result is the key of the event, a slash and
/// the whole request id.
pub proof fn law_request_key_ends_in_the_id(
    to: PeerId,
    id: &str,
    offer: String,
    result: String,
    event: MeshEvent,
    key: String,
)
    requires
        call_ensures(key_work_offer, (&to, id), offer),
        call_ensures(key_work_result, (&to, id), result),
        call_ensures(key_for, (&event,), key),
    ensures
        (event matches MeshEvent::WorkOffer { to: peer, .. } && peer@ == to@) ==> {
            &&& offer@.take(key@.len() as int) == key@
            &&& offer@.skip(key@.len() as int) == "/"@ + id@
        },
        (event matches MeshEvent::WorkResult { to: peer, .. } && peer@ == to@) ==> {
            &&& result@.take(key@.len() as int) == key@
            &&& result@.skip(key@.len() as int) == "/"@ + id@
        },
        offer@.subrange(13, 77) == hex_encode(to@),
        result@.subrange(13, 77) == hex_encode(to@),
        offer@ != result@,
{
    lemma_key_parts(to@, "work-offer/"@ + id@);
    lemma_key_parts(to@, "work-result/"@ + id@);
    law_request_keys_tell_apart(to, to, id@, id@);
    if key_peer(event) == to@ {
        law_request_keys_complete(to, id@, event);
        if event is WorkOffer {
            assert(offer@.take(key@.len() as int) =~= key@);
            assert(offer@.skip(key@.len() as int) =~= "/"@ + id@);
        }
        if event is WorkResult {
            assert(result@.take(key@.len() as int) =~= key@);
            assert(result@.skip(key@.len() as int) =~= "/"@ + id@);
        }
    }
}

/// Law: whoever subscribes to all heartbeats hears the heartbeat of every peer.
pub proof fn law_heartbeats_are_subscribed(event: MeshEvent)
    requires
        event is Heartbeat,
    ensures
        subscribed(SUB_ALL_HEARTBEATS@, event_key(event)),
{
    let peer = key_peer(event);
    lemma_key_parts(peer, key_class(event));
    reveal_strlit("furcate/mesh");
    reveal_strlit("furcate/mesh/*/heartbeat");
    reveal_strlit("/");
    reveal_strlit("*");
    reveal_strlit("heartbeat");
    let before = ROOT@ + "/"@;
    let after = "/"@ + "heartbeat"@;
    let rest = Seq::<char>::empty();
    assert(SUB_ALL_HEARTBEATS@ =~= before + "*"@ + after);
    assert(event_key(event) =~= before + hex_encode(peer) + after + rest);
}

/// Law: whoever subscribes to all models hears every model announcement.
pub proof fn law_models_are_subscribed(event: MeshEvent)
    requires
        event is ModelAnnounce,
    ensures
        subscribed(SUB_ALL_MODELS@, event_key(event)),
{
    let peer = key_peer(event);
    lemma_key_parts(peer, key_class(event));
    reveal_strlit("furcate/mesh");
    reveal_strlit("furcate/mesh/*/model/**");
    reveal_strlit("/");
    reveal_strlit("*");
    reveal_strlit("**");
    reveal_strlit("model/");
    let before = ROOT@ + "/"@;
    let after = "/"@ + "model/"@;
    let rest = key_class(event).skip(6);
    assert(SUB_ALL_MODELS@ =~= before + "*"@ + after + "**"@);
    assert(event_key(event) =~= before + hex_encode(peer) + after + rest);
    assert(SUB_ALL_MODELS@.len() != (before + "*"@ + after).len());
}

/// Law: whoever subscribes to agent state hears every agent-state event.
pub proof fn law_agent_states_are_subscribed(event: MeshEvent)
    requires
        event is AgentState,
    ensures
        subscribed(SUB_ALL_AGENT_STATE@, event_key(event)),
{
    let peer = key_peer(event);
    lemma_key_parts(peer, key_class(event));
    reveal_strlit("furcate/mesh");
    reveal_strlit("furcate/mesh/*/agent/**");
    reveal_strlit("/");
    reveal_strlit("*");
    reveal_strlit("**");
    reveal_strlit("agent/");
    let before = ROOT@ + "/"@;
    let after = "/"@ + "agent/"@;
    let rest = key_class(event).skip(6);
    assert(SUB_ALL_AGENT_STATE@ =~= before + "*"@ + after + "**"@);
    assert(event_key(event) =~= before + hex_encode(peer) + after + rest);
    assert(SUB_ALL_AGENT_STATE@.len() != (before + "*"@ + after).len());
}

/// Law: the key of a work offer or result is completed by a request id.
pub proof fn law_request_keys_complete(to: PeerId, request_id: Seq<char>, event: MeshEvent)
    requires
        key_peer(event) == to@,
    ensures
        event is WorkOffer ==> peer_key(to@, "work-offer/"@ + request_id) == event_key(event)
            + "/"@ + request_id,
        event is WorkResult ==> peer_key(to@, "work-result/"@ + request_id) == event_key(event)
            + "/"@ + request_id,
{
    reveal_strlit("work-offer/");
    reveal_strlit("work-result/");
    reveal_strlit("work-offer");
    reveal_strlit("work-result");
    reveal_strlit("/");
    assert("work-offer/"@ =~= "work-offer"@ + "/"@);
    assert("work-result/"@ =~= "work-result"@ + "/"@);
    assert(peer_key(to@, "work-offer/"@ + request_id) =~= peer_key(to@, "work-offer"@) + "/"@
        + request_id);
    assert(peer_key(to@, "work-result/"@ + request_id) =~= peer_key(to@, "work-result"@) + "/"@
        + request_id);
}

/// Law: the full key of a work offer or result tells whom it is for, which of
/// the two it is, and which request it belongs to.
pub proof fn law_request_keys_tell_apart(
    a: PeerId,
    b: PeerId,
    first: Seq<char>,
    second: Seq<char>,
)
    ensures
        peer_key(a@, "work-offer/"@ + first) != peer_key(b@, "work-result/"@ + second),
        peer_key(a@, "work-offer/"@ + first) == peer_key(b@, "work-offer/"@ + second) ==> a@ == b@
            && first == second,
        peer_key(a@, "work-result/"@ + first) == peer_key(b@, "work-result/"@ + second) ==> a@
            == b@ && first == second,
{
    reveal_strlit("work-offer/");
    reveal_strlit("work-result/");
    lemma_key_parts(a@, "work-offer/"@ + first);
    lemma_key_parts(a@, "work-result/"@ + first);
    lemma_key_parts(b@, "work-offer/"@ + second);
    lemma_key_parts(b@, "work-result/"@ + second);
    if hex_encode(a@) == hex_encode(b@) {
        lemma_hex_injective(a@, b@);
    }
    assert(("work-offer/"@ + first)[5] == 'o');
    assert(("work-result/"@ + second)[5] == 'r');
    assert(("work-offer/"@ + first).skip(11) =~= first);
    assert(("work-offer/"@ + second).skip(11) =~= second);
    assert(("work-result/"@ + first).skip(12) =~= first);
    assert(("work-result/"@ + second).skip(12) =~= second);
}

// ---------------------------------------------------------------------------
// Configuration
// ---------------------------------------------------------------------------

/// Transport errors.
#[derive(Debug)]
pub enum TransportError {
    /// Session open / publish / subscribe failed.
    Zenoh(String),
    /// Payload encode/decode failure.
    Encoding(String),
}

/// A transport error in mathematical terms.
pub enum TransportFault {
    Zenoh(Seq<char>),
    Encoding(Seq<char>),
}

impl View for TransportError {
    type V = TransportFault;

    open spec fn view(&self) -> TransportFault {
        match self {
            TransportError::Zenoh(s) => TransportFault::Zenoh(s@),
            TransportError::Encoding(s) => TransportFault::Encoding(s@),
        }
    }
}

impl TransportError {
    /// The message for people.
    pub fn to_text(&self) -> (r: String)
        ensures
            match self {
                TransportError::Zenoh(s) => r@ == "zenoh: "@ + s@,
                TransportError::Encoding(s) => r@ == "encoding: "@ + s@,
            },
    {
        match self {
            TransportError::Zenoh(s) => prefixed("zenoh: ", s.as_str()),
            TransportError::Encoding(s) => prefixed("encoding: ", s.as_str()),
        }
    }

    /// The error for a setting that the session does not take.
    pub fn setting(name: &str, cause: &str) -> (r: Self)
        ensures
            r matches TransportError::Zenoh(text) && text@ == name@ + ": "@ + cause@,
    {
        let mut text = prefixed(name, ": ");
        text.append(cause);
        TransportError::Zenoh(text)
    }

    /// The error for a session that does not open.
    pub fn open(cause: &str) -> (r: Self)
        ensures
            r matches TransportError::Zenoh(text) && text@ == "open: "@ + cause@,
    {
        TransportError::Zenoh(prefixed("open: ", cause))
    }

    /// The error for an event that cannot be encoded.
    pub fn encode(cause: &str) -> (r: Self)
        ensures
            r matches TransportError::Encoding(text) && text@ == "encoding event: "@ + cause@,
    {
        TransportError::Encoding(prefixed("encoding event: ", cause))
    }

    /// The error for an event that cannot be published on `key`.
    pub fn put(key: &str, cause: &str) -> (r: Self)
        ensures
            r matches TransportError::Zenoh(text) && text@ == "put "@ + key@ + ": "@ + cause@,
    {
        let mut text = prefixed("put ", key);
        text.append(": ");
        text.append(cause);
        TransportError::Zenoh(text)
    }

    /// The error for a subscription to `key` that is refused.
    pub fn subscribe(key: &str, cause: &str) -> (r: Self)
        ensures
            r matches TransportError::Zenoh(text) && text@ == "declare_subscriber "@ + key@ + ": "@
                + cause@,
    {
        let mut text = prefixed("declare_subscriber ", key);
        text.append(": ");
        text.append(cause);
        TransportError::Zenoh(text)
    }
}

/// Mesh transport configuration.
#[derive(Clone, Debug)]
pub struct TransportConfig {
    /// `tcp/<ip>:<port>` listen URL. `None` lets the session pick.
    pub listen: Option<String>,
    /// Static peer URLs to dial on top of discovery.
    pub connect: Vec<String>,
}

impl Default for TransportConfig {
    fn default() -> (r: Self)
        ensures
            r.listen matches Some(url) && url@ == "tcp/0.0.0.0:7447"@,
            r.connect@.len() == 0,
    {
        TransportConfig { listen: Some("tcp/0.0.0.0:7447".to_owned()), connect: Vec::new() }
    }
}

/// The URL for listening on `port` of every address.
pub open spec fn listen_url_text(port: u16) -> Seq<char> {
    "tcp/0.0.0.0:"@ + decimal(port as nat)
}

/// The URL for listening on `port` of every address.
#[must_use]
pub fn listen_url(port: u16) -> (r: String)
    ensures
        r@ == listen_url_text(port),
{
    let mut r = "tcp/0.0.0.0:".to_owned();
    r.append(to_decimal(port as u64).as_str());
    r
}

impl TransportConfig {
    /// The configuration of a process that listens on `port` and dials nobody.
    #[must_use]
    pub fn listening(port: u16) -> (r: Self)
        ensures
            r.listen matches Some(url) && url@ == listen_url_text(port),
            r.connect@.len() == 0,
    {
        TransportConfig { listen: Some(listen_url(port)), connect: Vec::new() }
    }
}

/// Law: a process listens on exactly the port it is given, on every address: the
/// URL ends in the port, and distinct ports have distinct URLs. It dials nobody.
pub proof fn law_listens_on_its_port(port: u16, url: String, cfg: TransportConfig)
    requires
        call_ensures(listen_url, (port,), url),
        call_ensures(TransportConfig::listening, (port,), cfg),
    ensures
        stands_at(url@, 0, "tcp/0.0.0.0:"@),
        numeral_value(url@.skip(12)) == port,
        forall|i: int| 12 <= i < url@.len() ==> '0' <= #[trigger] url@[i] <= '9',
        cfg.listen matches Some(u) && u@ == url@,
        cfg.connect@.len() == 0,
{
    reveal_strlit("tcp/0.0.0.0:");
    law_decimal_writes_the_number(port as nat);
    let text = decimal(port as nat);
    assert(url@.skip(0).take(12) =~= "tcp/0.0.0.0:"@);
    assert(url@.skip(12) =~= text);
    assert forall|i: int| 12 <= i < url@.len() implies '0' <= #[trigger] url@[i] <= '9' by {
        assert(url@[i] == text[i - 12]);
    }
}

/// Law: unless it is told otherwise, a process listens on port 7447 of every address, as
/// one that is told to listen there, and dials nobody; up to 256 items of a subscription
/// wait for the consumer.
pub proof fn law_defaults(cfg: TransportConfig, told: TransportConfig)
    requires
        call_ensures(TransportConfig::default, (), cfg),
        call_ensures(TransportConfig::listening, (7447,), told),
    ensures
        cfg.listen is Some && told.listen is Some,
        cfg.listen->0@ == told.listen->0@,
        cfg.connect@.len() == 0,
        SUBSCRIPTION_CAPACITY == 256,
{
    reveal_strlit("tcp/0.0.0.0:");
    reveal_strlit("tcp/0.0.0.0:7447");
    reveal_with_fuel(decimal, 5);
    assert(decimal(7447) =~= seq!['7', '4', '4', '7']);
    assert(cfg.listen->0@ =~= told.listen->0@);
}

/// Law: what goes wrong with the transport is told with all that is known of it: the
/// key or the setting it happened on, and the cause, in full.
pub proof fn law_errors_tell_place_and_cause(
    place: &str,
    cause: &str,
    setting: TransportError,
    open: TransportError,
    encode: TransportError,
    put: TransportError,
    subscribe: TransportError,
)
    requires
        call_ensures(TransportError::setting, (place, cause), setting),
        call_ensures(TransportError::open, (cause,), open),
        call_ensures(TransportError::encode, (cause,), encode),
        call_ensures(TransportError::put, (place, cause), put),
        call_ensures(TransportError::subscribe, (place, cause), subscribe),
    ensures
        setting matches TransportError::Zenoh(t) && t@.len() == place@.len() + 2 + cause@.len()
            && stands_at(t@, 0, place@) && stands_at(t@, place@.len(), ": "@ + cause@),
        open matches TransportError::Zenoh(t) && t@.len() == 6 + cause@.len() && stands_at(
            t@,
            6,
            cause@,
        ) && stands_at(t@, 0, "open: "@),
        encode matches TransportError::Encoding(t) && t@.len() == 16 + cause@.len() && stands_at(
            t@,
            16,
            cause@,
        ) && stands_at(t@, 0, "encoding event: "@),
        put matches TransportError::Zenoh(t) && t@.len() == 6 + place@.len() + cause@.len()
            && stands_at(t@, 0, "put "@) && stands_at(t@, 4, place@) && stands_at(
            t@,
            4 + place@.len(),
            ": "@ + cause@,
        ),
        subscribe matches TransportError::Zenoh(t) && t@.len() == 21 + place@.len() + cause@.len()
            && stands_at(t@, 0, "declare_subscriber "@) && stands_at(t@, 19, place@) && stands_at(
            t@,
            19 + place@.len(),
            ": "@ + cause@,
        ),
{
    reveal_strlit(": ");
    reveal_strlit("open: ");
    reveal_strlit("encoding event: ");
    reveal_strlit("put ");
    reveal_strlit("declare_subscriber ");
    lemma_stands_between(Seq::empty(), place@, ": "@ + cause@);
    assert(setting->Zenoh_0@ =~= Seq::<char>::empty() + place@ + (": "@ + cause@));
    lemma_stands_between("open: "@, cause@, Seq::empty());
    lemma_stands_between("encoding event: "@, cause@, Seq::empty());
    lemma_stands_between("put "@, place@, ": "@ + cause@);
    assert(put->Zenoh_0@ =~= "put "@ + place@ + (": "@ + cause@));
    lemma_stands_between("declare_subscriber "@, place@, ": "@ + cause@);
    assert(subscribe->Zenoh_0@ =~= "declare_subscriber "@ + place@ + (": "@ + cause@));
}

/// Law: the words for an error end in what the error holds, in full, and tell the two
/// kinds apart.
pub proof fn law_error_words(e: TransportError, words: String)
    requires
        call_ensures(TransportError::to_text, (&e,), words),
    ensures
        match e {
            TransportError::Zenoh(s) => words@.len() == 7 + s@.len() && stands_at(words@, 7, s@)
                && stands_at(words@, 0, "zenoh: "@),
            TransportError::Encoding(s) => words@.len() == 10 + s@.len() && stands_at(
                words@,
                10,
                s@,
            ) && stands_at(words@, 0, "encoding: "@),
        },
{
    reveal_strlit("zenoh: ");
    reveal_strlit("encoding: ");
    match e {
        TransportError::Zenoh(s) => lemma_stands_between("zenoh: "@, s@, Seq::empty()),
        TransportError::Encoding(s) => lemma_stands_between("encoding: "@, s@, Seq::empty()),
    }
}

/// How JSON writes a character inside a string.
pub open spec fn json_char(c: char) -> Seq<char> {
    let n = c as int;
    if c == '"' || c == '\\' {
        seq!['\\', c]
    } else if n == 8 {
        seq!['\\', 'b']
    } else if n == 9 {
        seq!['\\', 't']
    } else if n == 10 {
        seq!['\\', 'n']
    } else if n == 12 {
        seq!['\\', 'f']
    } else if n == 13 {
        seq!['\\', 'r']
    } else if n < 32 {
        seq!['\\', 'u', '0', '0', hex_digit(n / 16), hex_digit(n % 16)]
    } else {
        seq![c]
    }
}

/// The characters of `s` as they stand between the quotes of a JSON string.
pub open spec fn json_chars(s: Seq<char>) -> Seq<char>
    decreases s.len(),
{
    if s.len() == 0 {
        Seq::empty()
    } else {
        json_chars(s.drop_last()) + json_char(s.last())
    }
}

/// The elements of a JSON array of strings, with commas between them.
pub open spec fn json_items(v: Seq<Seq<char>>) -> Seq<char>
    decreases v.len(),
{
    if v.len() == 0 {
        Seq::empty()
    } else {
        let item = seq!['"'] + json_chars(v.last()) + seq!['"'];
        if v.len() == 1 {
            item
        } else {
            json_items(v.drop_last()) + seq![','] + item
        }
    }
}

/// The JSON array of the strings `v`.
pub open spec fn json_array(v: Seq<Seq<char>>) -> Seq<char> {
    seq!['['] + json_items(v) + seq![']']
}

/// Calls `serde_json::to_string` on a list of strings. It writes a compact
/// array, escapes the two characters that JSON must escape and the ASCII
/// control characters, and does not fail on strings.
#[verifier::external_body]
fn json_of_strings(v: &Vec<String>) -> (r: Result<String, String>)
    ensures
        r is Ok,
        r->Ok_0@ == json_array(texts(v@)),
{
    serde_json::to_string(v).map_err(|e| e.to_string())
}

/// One setting of a transport session: its name and its value in JSON.
#[derive(Clone, Debug)]
pub struct Setting {
    pub name: String,
    pub value: String,
}

/// `s` sets `name` to `value`.
pub open spec fn sets(s: Setting, name: Seq<char>, value: Seq<char>) -> bool {
    s.name@ == name && s.value@ == value
}

/// Whether `settings` are those of `cfg`: peer mode, then the endpoint to
/// listen on, if any, then the endpoints to dial, if any.
pub open spec fn settings_of(cfg: TransportConfig, settings: Seq<Setting>) -> bool {
    let listens: int = if cfg.listen is Some { 1 } else { 0 };
    let dials: int = if cfg.connect@.len() > 0 { 1 } else { 0 };
    &&& settings.len() == 1 + listens + dials
    &&& sets(settings[0], "mode"@, "\"peer\""@)
    &&& cfg.listen matches Some(url) ==> sets(
        settings[1],
        "listen/endpoints"@,
        json_array(seq![url@]),
    )
    &&& cfg.connect@.len() > 0 ==> sets(
        settings[1 + listens],
        "connect/endpoints"@,
        json_array(texts(cfg.connect@)),
    )
}

/// The settings to open a session with, in the order they are to be made.
/// The mode is "peer": full-mesh dataflow with no central router.
pub fn session_settings(cfg: &TransportConfig) -> (r: Result<Vec<Setting>, TransportError>)
    ensures
        r matches Ok(v) && settings_of(*cfg, v@),
{
    let mut v: Vec<Setting> = Vec::new();
    v.push(Setting { name: "mode".to_owned(), value: "\"peer\"".to_owned() });
    match &cfg.listen {
        Some(url) => {
            let mut one: Vec<String> = Vec::new();
            one.push(url.clone());
            assert(texts(one@) =~= seq![url@]);
            match json_of_strings(&one) {
                Ok(value) => v.push(Setting { name: "listen/endpoints".to_owned(), value }),
                Err(e) => {
                    return Err(
                        TransportError::Encoding(prefixed("listen endpoints: ", e.as_str())),
                    );
                },
            }
        },
        None => {},
    }
    if cfg.connect.len() > 0 {
        match json_of_strings(&cfg.connect) {
            Ok(value) => v.push(Setting { name: "connect/endpoints".to_owned(), value }),
            Err(e) => {
                return Err(TransportError::Encoding(prefixed("connect endpoints: ", e.as_str())));
            },
        }
    }
    Ok(v)
}

/// Law: a session is opened as a peer, listens exactly where it is told to, if
/// anywhere, and dials every URL it is given, in order, and no other.
pub proof fn law_session_is_set_up_as_told(
    cfg: TransportConfig,
    r: Result<Vec<Setting>, TransportError>,
)
    requires
        call_ensures(session_settings, (&cfg,), r),
    ensures
        r is Ok,
        ({
            let v = r->Ok_0@;
            let listens: int = if cfg.listen is Some { 1 } else { 0 };
            &&& v.len() > 0 && v[0].name@ == "mode"@ && v[0].value@ == "\"peer\""@
            &&& cfg.listen matches Some(url) ==> v.len() > 1 && v[1].name@ == "listen/endpoints"@
                && v[1].value@ == seq!['[', '"'] + json_chars(url@) + seq!['"', ']']
            &&& cfg.connect@.len() > 0 ==> v.len() == 2 + listens && v[1 + listens].name@
                == "connect/endpoints"@ && v[1 + listens].value@ == json_array(texts(cfg.connect@))
            &&& cfg.connect@.len() == 0 ==> v.len() == 1 + listens
        }),
{
    if let Some(url) = cfg.listen {
        let one = seq![url@];
        assert(one.last() == url@);
        assert(json_array(one) =~= seq!['[', '"'] + json_chars(url@) + seq!['"', ']']);
    }
}

// ---------------------------------------------------------------------------
// Subscriptions
// ---------------------------------------------------------------------------

/// How many items of a subscription may wait for the consumer. A slow consumer
/// slows the forwarding task down.
pub const SUBSCRIPTION_CAPACITY: usize = 256;

/// What happens to the task that forwards a subscription to its consumer.
pub enum ForwardEvent {
    /// A sample arrived on `key`; `decoded` is its payload as an event, or why
    /// it is none.
    Sample { key: String, decoded: Result<MeshEvent, String> },
    /// No more samples will arrive.
    Closed,
    /// The consumer took the last item.
    Taken,
    /// The consumer is gone.
    Dropped,
}

/// What that task does next.
pub enum ForwardAction {
    /// Wait for a sample.
    Receive,
    /// Hand an item to the consumer.
    Send(Result<MeshEvent, TransportError>),
    /// End the subscription.
    Stop,
}

/// A forwarding event in mathematical terms.
pub enum ForwardInput {
    Sample { key: Seq<char>, decoded: Result<MeshEvent, Seq<char>> },
    Closed,
    Taken,
    Dropped,
}

/// A forwarding action in mathematical terms.
pub enum ForwardOutput {
    Receive,
    Send(Result<MeshEvent, TransportFault>),
    Stop,
}

impl View for ForwardEvent {
    type V = ForwardInput;

    open spec fn view(&self) -> ForwardInput {
        match self {
            ForwardEvent::Sample { key, decoded: Ok(e) } => ForwardInput::Sample {
                key: key@,
                decoded: Ok(*e),
            },
            ForwardEvent::Sample { key, decoded: Err(cause) } => ForwardInput::Sample {
                key: key@,
                decoded: Err(cause@),
            },
            ForwardEvent::Closed => ForwardInput::Closed,
            ForwardEvent::Taken => ForwardInput::Taken,
            ForwardEvent::Dropped => ForwardInput::Dropped,
        }
    }
}

impl View for ForwardAction {
    type V = ForwardOutput;

    open spec fn view(&self) -> ForwardOutput {
        match self {
            ForwardAction::Receive => ForwardOutput::Receive,
            ForwardAction::Send(Ok(e)) => ForwardOutput::Send(Ok(*e)),
            ForwardAction::Send(Err(e)) => ForwardOutput::Send(Err(e@)),
            ForwardAction::Stop => ForwardOutput::Stop,
        }
    }
}

/// The item for a payload that arrived on `key` and decodes to `decoded`.
pub open spec fn item_of(key: Seq<char>, decoded: Result<MeshEvent, Seq<char>>) -> Result<
    MeshEvent,
    TransportFault,
> {
    match decoded {
        Ok(e) => Ok(e),
        Err(cause) => Err(
            TransportFault::Encoding("decoding event on "@ + key + ": "@ + cause),
        ),
    }
}

/// What the forwarding task does on an event.
pub open spec fn forward_next(event: ForwardInput) -> ForwardOutput {
    match event {
        ForwardInput::Sample { key, decoded } => ForwardOutput::Send(item_of(key, decoded)),
        ForwardInput::Taken => ForwardOutput::Receive,
        ForwardInput::Closed => ForwardOutput::Stop,
        ForwardInput::Dropped => ForwardOutput::Stop,
    }
}

/// The step of the forwarding task. A payload that does not decode becomes an
/// error item and leaves the subscription open, so that one malformed publisher
/// cannot poison the whole mesh view.
pub fn forward_step(event: ForwardEvent) -> (r: ForwardAction)
    ensures
        r@ == forward_next(event@),
{
    match event {
        ForwardEvent::Sample { key, decoded } => match decoded {
            Ok(e) => ForwardAction::Send(Ok(e)),
            Err(cause) => {
                let mut text = "decoding event on ".to_owned();
                text.append(key.as_str());
                text.append(": ");
                text.append(cause.as_str());
                ForwardAction::Send(Err(TransportError::Encoding(text)))
            },
        },
        ForwardEvent::Closed => ForwardAction::Stop,
        ForwardEvent::Taken => ForwardAction::Receive,
        ForwardEvent::Dropped => ForwardAction::Stop,
    }
}

/// Bytes that arrive on a key.
pub struct Payload {
    pub key: Seq<char>,
    pub bytes: Seq<u8>,
}

/// A subscription that is kept and read: what its task does next, what is still
/// to arrive, and what the consumer has taken.
pub struct Subscription {
    pub action: ForwardOutput,
    pub arriving: Seq<Payload>,
    pub taken: Seq<Result<MeshEvent, TransportFault>>,
}

/// One action of the forwarding task is performed. It waits where nothing more
/// has arrived.
pub open spec fn forward_tick(
    s: Subscription,
    decode: spec_fn(Seq<u8>) -> Result<MeshEvent, Seq<char>>,
) -> Subscription {
    match s.action {
        ForwardOutput::Receive => if s.arriving.len() == 0 {
            s
        } else {
            let p = s.arriving[0];
            Subscription {
                action: forward_next(
                    ForwardInput::Sample { key: p.key, decoded: decode(p.bytes) },
                ),
                arriving: s.arriving.skip(1),
                ..s
            }
        },
        ForwardOutput::Send(item) => Subscription {
            action: forward_next(ForwardInput::Taken),
            taken: s.taken.push(item),
            ..s
        },
        ForwardOutput::Stop => s,
    }
}

/// The subscription after `n` actions.
pub open spec fn forward_after(
    s: Subscription,
    decode: spec_fn(Seq<u8>) -> Result<MeshEvent, Seq<char>>,
    n: nat,
) -> Subscription
    decreases n,
{
    if n == 0 {
        s
    } else {
        forward_after(forward_tick(s, decode), decode, (n - 1) as nat)
    }
}

/// A new subscription, on which `payloads` will arrive.
pub open spec fn subscription(payloads: Seq<Payload>) -> Subscription {
    Subscription { action: ForwardOutput::Receive, arriving: payloads, taken: Seq::empty() }
}

/// The items for `payloads`, one for each, in order.
pub open spec fn items_of(
    payloads: Seq<Payload>,
    decode: spec_fn(Seq<u8>) -> Result<MeshEvent, Seq<char>>,
) -> Seq<Result<MeshEvent, TransportFault>> {
    payloads.map_values(|p: Payload| item_of(p.key, decode(p.bytes)))
}

/// Law: a subscription yields one item for each payload, in the order in which
/// they arrive: the event, where the payload decodes to one, and an error where it
/// does not. However many payloads fail to decode, the task then waits for the
/// next one.
pub proof fn law_one_item_for_each_payload(
    payloads: Seq<Payload>,
    decode: spec_fn(Seq<u8>) -> Result<MeshEvent, Seq<char>>,
)
    ensures
        ({
            let s = forward_after(subscription(payloads), decode, 2 * payloads.len());
            &&& s.taken == items_of(payloads, decode)
            &&& s.arriving.len() == 0
            &&& s.action is Receive
        }),
{
    lemma_forwarded(subscription(payloads), decode);
    assert(Seq::<Result<MeshEvent, TransportFault>>::empty() + items_of(payloads, decode)
        =~= items_of(payloads, decode));
}

proof fn lemma_forwarded(
    s: Subscription,
    decode: spec_fn(Seq<u8>) -> Result<MeshEvent, Seq<char>>,
)
    requires
        s.action is Receive,
    ensures
        ({
            let end = forward_after(s, decode, 2 * s.arriving.len());
            &&& end.taken == s.taken + items_of(s.arriving, decode)
            &&& end.arriving.len() == 0
            &&& end.action is Receive
        }),
    decreases s.arriving.len(),
{
    let n = s.arriving.len();
    if n == 0 {
        assert(s.taken + items_of(s.arriving, decode) =~= s.taken);
    } else {
        let next = forward_tick(forward_tick(s, decode), decode);
        reveal_with_fuel(forward_after, 3);
        assert(forward_after(s, decode, 2 * n) == forward_after(next, decode, (2 * n - 2) as nat));
        lemma_forwarded(next, decode);
        let p = s.arriving[0];
        assert(next.taken =~= s.taken.push(item_of(p.key, decode(p.bytes))));
        assert(s.taken + items_of(s.arriving, decode) =~= next.taken + items_of(
            next.arriving,
            decode,
        ));
    }
}

/// Law: what the forwarding task does with each thing that happens. A payload that
/// decodes is handed on as the event it is; one that does not becomes an error that
/// names its key and the cause in full; and neither ends the subscription, only the
/// end of the samples or of the consumer does.
pub proof fn law_what_forwarding_does(event: ForwardEvent, r: ForwardAction)
    requires
        call_ensures(forward_step, (event,), r),
    ensures
        match event {
            ForwardEvent::Sample { decoded: Ok(e), .. } => r matches ForwardAction::Send(Ok(out))
                && out == e,
            ForwardEvent::Sample { key, decoded: Err(cause) } => r matches ForwardAction::Send(
                Err(TransportError::Encoding(t)),
            ) && t@.len() == 20 + key@.len() + cause@.len() && stands_at(
                t@,
                0,
                "decoding event on "@,
            ) && stands_at(t@, 18, key@) && stands_at(t@, 18 + key@.len(), ": "@ + cause@),
            ForwardEvent::Taken => r is Receive,
            ForwardEvent::Closed => r is Stop,
            ForwardEvent::Dropped => r is Stop,
        },
{
    reveal_strlit("decoding event on ");
    reveal_strlit(": ");
    if let ForwardEvent::Sample { key, decoded: Err(cause) } = event {
        let head = "decoding event on "@;
        lemma_stands_between(head, key@, ": "@ + cause@);
        assert(r->Send_0->Err_0->Encoding_0@ =~= head + key@ + (": "@ + cause@));
    }
}

/// Law: an event comes out of a subscription as it went in. Where the decoder
/// reads back what the encoder writes of an event, and those bytes are among the
/// payloads, the item in their place is that event, whatever the other payloads
/// are.
pub proof fn law_published_event_comes_out(
    event: MeshEvent,
    encode: spec_fn(MeshEvent) -> Seq<u8>,
    decode: spec_fn(Seq<u8>) -> Result<MeshEvent, Seq<char>>,
    payloads: Seq<Payload>,
    i: int,
)
    requires
        decode(encode(event)) == Ok::<MeshEvent, Seq<char>>(event),
        0 <= i < payloads.len(),
        payloads[i] == (Payload { key: event_key(event), bytes: encode(event) }),
    ensures
        forward_after(subscription(payloads), decode, 2 * payloads.len()).taken[i] == Ok::<
            MeshEvent,
            TransportFault,
        >(event),
{
    law_one_item_for_each_payload(payloads, decode);
}

} // verus!
