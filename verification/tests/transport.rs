use furcate_mesh::clock::HybridLogicalClock;
use furcate_mesh::event::{Load, MeshEvent};
use furcate_mesh::peer::PeerId;
use furcate_mesh::transport::{
    forward_step, key_for, key_work_offer, key_work_result, listen_url, session_settings,
    ForwardAction, ForwardEvent, TransportConfig, TransportError, ROOT, SUB_ALL_AGENT_STATE,
    SUB_ALL_HEARTBEATS, SUB_ALL_MODELS,
};
use zenoh::key_expr::KeyExpr;

fn pid(b: u8) -> PeerId {
    PeerId::from_bytes([b; 32])
}

fn beat() -> MeshEvent {
    MeshEvent::Heartbeat { peer: pid(0x01), clock: HybridLogicalClock::now(), load: Load::idle() }
}

#[test]
fn heartbeat_key_uses_peer_hex() {
    let ev = MeshEvent::Heartbeat {
        peer: pid(0xaa),
        clock: HybridLogicalClock::now(),
        load: Load::idle(),
    };
    let key = key_for(&ev);
    assert!(key.starts_with("furcate/mesh/"));
    assert!(key.ends_with("/heartbeat"));
    assert_eq!(key, format!("furcate/mesh/{}/heartbeat", "aa".repeat(32)));
}

#[test]
fn model_announce_key_includes_model_name() {
    let ev = MeshEvent::ModelAnnounce {
        peer: pid(0xbb),
        clock: HybridLogicalClock::now(),
        model_name: "llama-3-8b-q4".into(),
        digest_blake3: "0".repeat(64),
        format: "gguf".into(),
    };
    let key = key_for(&ev);
    assert!(key.ends_with("/model/llama-3-8b-q4"));
}

#[test]
fn work_offer_key_with_request_id() {
    let key = key_work_offer(&pid(0xcc), "req-123");
    assert!(key.ends_with("/work-offer/req-123"));
}

#[test]
fn keys_of_work_and_agents() {
    let offer = MeshEvent::WorkOffer { from: pid(1), to: pid(2), request: vec![], hops: 0 };
    let two = "02".repeat(32);
    assert_eq!(key_for(&offer), format!("furcate/mesh/{two}/work-offer"));
    let result = MeshEvent::WorkResult { from: pid(1), to: pid(2), response: vec![] };
    assert_eq!(key_for(&result), format!("furcate/mesh/{two}/work-result"));
    assert_eq!(
        key_work_result(&pid(2), "r9"),
        format!("furcate/mesh/{two}/work-result/r9")
    );
    let agent = MeshEvent::AgentState {
        peer: pid(2),
        clock: HybridLogicalClock::now(),
        agent_id: "scout".into(),
        state: vec![1],
    };
    assert_eq!(key_for(&agent), format!("furcate/mesh/{two}/agent/scout"));
}

#[test]
fn settings_follow_the_configuration() {
    let all = |cfg: &TransportConfig| -> Vec<(String, String)> {
        session_settings(cfg).expect("settings").into_iter().map(|s| (s.name, s.value)).collect()
    };
    let pair = |a: &str, b: &str| (a.to_owned(), b.to_owned());
    assert_eq!(
        all(&TransportConfig::default()),
        vec![
            pair("mode", "\"peer\""),
            pair("listen/endpoints", "[\"tcp/0.0.0.0:7447\"]"),
        ]
    );
    assert_eq!(
        all(&TransportConfig { listen: None, connect: vec![] }),
        vec![pair("mode", "\"peer\"")]
    );
    let cfg = TransportConfig {
        listen: Some("tcp/\"x\\\n\u{1}\u{e9}".to_owned()),
        connect: vec!["a".to_owned(), "b/c".to_owned()],
    };
    assert_eq!(
        all(&cfg),
        vec![
            pair("mode", "\"peer\""),
            pair("listen/endpoints", "[\"tcp/\\\"x\\\\\\n\\u0001\u{e9}\"]"),
            pair("connect/endpoints", "[\"a\",\"b/c\"]"),
        ]
    );
}

#[test]
fn listening_on_a_port() {
    assert_eq!(listen_url(7447), "tcp/0.0.0.0:7447");
    let cfg = TransportConfig::listening(80);
    assert_eq!(cfg.listen, Some("tcp/0.0.0.0:80".to_owned()));
    assert!(cfg.connect.is_empty());
}

#[test]
fn a_malformed_sample_leaves_the_subscription_open() {
    let bad = forward_step(ForwardEvent::Sample {
        key: "furcate/mesh/x".to_owned(),
        decoded: Err("expected value".to_owned()),
    });
    match bad {
        ForwardAction::Send(Err(TransportError::Encoding(t))) => {
            assert_eq!(t, "decoding event on furcate/mesh/x: expected value");
        }
        _ => panic!("not an error item"),
    }
    assert!(matches!(forward_step(ForwardEvent::Taken), ForwardAction::Receive));
    let good = forward_step(ForwardEvent::Sample { key: "k".to_owned(), decoded: Ok(beat()) });
    assert!(matches!(good, ForwardAction::Send(Ok(MeshEvent::Heartbeat { .. }))));
    assert!(matches!(forward_step(ForwardEvent::Closed), ForwardAction::Stop));
    assert!(matches!(forward_step(ForwardEvent::Dropped), ForwardAction::Stop));
}

#[test]
fn transport_errors_in_words() {
    assert_eq!(TransportError::setting("mode", "no").to_text(), "zenoh: mode: no");
    assert_eq!(TransportError::open("busy").to_text(), "zenoh: open: busy");
    assert_eq!(TransportError::encode("eof").to_text(), "encoding: encoding event: eof");
    assert_eq!(TransportError::put("k", "shut").to_text(), "zenoh: put k: shut");
    assert_eq!(
        TransportError::subscribe("k/**", "bad").to_text(),
        "zenoh: declare_subscriber k/**: bad"
    );
}

fn announcement(name: &str) -> MeshEvent {
    MeshEvent::ModelAnnounce {
        peer: pid(0xbb),
        clock: HybridLogicalClock::now(),
        model_name: name.to_owned(),
        digest_blake3: String::new(),
        format: String::new(),
    }
}

fn agent(id: &str) -> MeshEvent {
    MeshEvent::AgentState {
        peer: pid(7),
        clock: HybridLogicalClock::now(),
        agent_id: id.to_owned(),
        state: vec![],
    }
}

#[test]
fn subscriptions_hear_their_events_and_no_others() {
    let hears = |pattern: &str, event: &MeshEvent| {
        let pattern = KeyExpr::try_from(pattern.to_owned()).expect("pattern");
        let key = KeyExpr::try_from(key_for(event)).expect("key");
        pattern.includes(&key)
    };
    let events = [beat(), announcement("llama"), announcement("a/b"), agent("scout")];
    for event in &events {
        assert!(key_for(event).starts_with(ROOT));
        let heartbeat = matches!(event, MeshEvent::Heartbeat { .. });
        assert_eq!(hears(SUB_ALL_HEARTBEATS, event), heartbeat);
        let model = matches!(event, MeshEvent::ModelAnnounce { .. });
        assert_eq!(hears(SUB_ALL_MODELS, event), model);
        let state = matches!(event, MeshEvent::AgentState { .. });
        assert_eq!(hears(SUB_ALL_AGENT_STATE, event), state);
    }
}

#[test]
fn keys_tell_events_apart() {
    let keys = [
        key_for(&beat()),
        key_for(&announcement("llama")),
        key_for(&announcement("llama2")),
        key_for(&agent("llama")),
        key_for(&MeshEvent::WorkOffer { from: pid(1), to: pid(2), request: vec![], hops: 0 }),
        key_for(&MeshEvent::WorkResult { from: pid(1), to: pid(2), response: vec![] }),
    ];
    for (i, a) in keys.iter().enumerate() {
        for (j, b) in keys.iter().enumerate() {
            assert_eq!(a == b, i == j);
        }
    }
}

#[test]
fn request_ids_complete_the_keys() {
    let offer = MeshEvent::WorkOffer { from: pid(1), to: pid(2), request: vec![], hops: 0 };
    assert_eq!(key_work_offer(&pid(2), "r1"), format!("{}/r1", key_for(&offer)));
    let result = MeshEvent::WorkResult { from: pid(1), to: pid(2), response: vec![] };
    assert_eq!(key_work_result(&pid(2), "r1"), format!("{}/r1", key_for(&result)));
}

/// A payload as text: an announcement names its model, anything else is no event.
fn read_payload(text: &str) -> Result<MeshEvent, String> {
    match text.strip_prefix("model ") {
        Some(name) => Ok(announcement(name)),
        None => Err(format!("no event: {text}")),
    }
}

#[test]
fn a_subscription_yields_one_item_for_each_payload() {
    let payloads = ["model a", "junk", "model b", "", "noise", "model c"];
    let mut arriving = payloads.iter();
    let mut items: Vec<String> = Vec::new();
    let mut action = ForwardAction::Receive;
    loop {
        let event = match action {
            ForwardAction::Receive => match arriving.next() {
                Some(text) => ForwardEvent::Sample {
                    key: "k".to_owned(),
                    decoded: read_payload(text),
                },
                None => ForwardEvent::Closed,
            },
            ForwardAction::Send(Ok(MeshEvent::ModelAnnounce { model_name, .. })) => {
                items.push(model_name);
                ForwardEvent::Taken
            }
            ForwardAction::Send(Ok(_)) => panic!("another event"),
            ForwardAction::Send(Err(e)) => {
                items.push(e.to_text());
                ForwardEvent::Taken
            }
            ForwardAction::Stop => break,
        };
        action = forward_step(event);
    }
    assert_eq!(
        items,
        [
            "a",
            "encoding: decoding event on k: no event: junk",
            "b",
            "encoding: decoding event on k: no event: ",
            "encoding: decoding event on k: no event: noise",
            "c",
        ]
    );
}

#[test]
fn request_keys_tell_apart() {
    let keys = [
        key_work_offer(&pid(1), "r1"),
        key_work_offer(&pid(1), "r2"),
        key_work_offer(&pid(2), "r1"),
        key_work_result(&pid(1), "r1"),
        key_work_result(&pid(1), "r2"),
        key_work_result(&pid(2), "r1"),
    ];
    for (i, a) in keys.iter().enumerate() {
        for (j, b) in keys.iter().enumerate() {
            assert_eq!(a == b, i == j);
        }
    }
    assert_eq!(keys[0], format!("furcate/mesh/{}/work-offer/r1", "01".repeat(32)));
    assert_eq!(keys[5], format!("furcate/mesh/{}/work-result/r1", "02".repeat(32)));
}
