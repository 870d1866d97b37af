use furcate_mesh::clock::HybridLogicalClock;
use furcate_mesh::event::{Load, MeshEvent};
use furcate_mesh::observe::{
    heartbeat, model_announcement, pulled_message, pushed_message, ModelsSeen, Observed,
    PeersReport, PeersSeen, PEERS_HEADER,
};
use furcate_mesh::peer::PeerId;
use furcate_mesh::transport::TransportError;

fn pid(b: u8) -> PeerId {
    PeerId::from_bytes([b; 32])
}

fn clock() -> HybridLogicalClock {
    HybridLogicalClock { wall_ms: 1, counter: 0 }
}

fn beat(b: u8, load: f64) -> Observed {
    Observed::Item(Ok(MeshEvent::Heartbeat {
        peer: pid(b),
        clock: clock(),
        load: Load::from_bits(load.to_bits()),
    }))
}

fn model(b: u8, name: &str, digest: &str) -> Observed {
    Observed::Item(Ok(model_announcement(pid(b), clock(), name, digest, "gguf")))
}

#[test]
fn peers_are_listed_in_order() {
    let mut seen = PeersSeen::new();
    assert!(seen.observe(beat(3, 0.5), 10));
    assert!(seen.observe(beat(1, 0.25), 11));
    assert!(seen.observe(beat(2, 1.0), 12));
    assert!(seen.observe(beat(3, 0.75), 13));
    assert!(seen.observe(Observed::Item(Err(TransportError::Encoding("x".to_owned()))), 14));
    assert!(seen.observe(model(9, "m", "d"), 15));
    match seen.report(5) {
        PeersReport::Rows(rows) => {
            let rows: Vec<(PeerId, f64, u64)> = rows
                .iter()
                .map(|(p, s)| (*p, f64::from_bits(s.load.bits), s.last_seen))
                .collect();
            assert_eq!(
                rows,
                vec![(pid(1), 0.25, 11), (pid(2), 1.0, 12), (pid(3), 0.75, 13)]
            );
        }
        PeersReport::Nobody(_) => panic!("peers were seen"),
    }
    assert!(PEERS_HEADER.starts_with("PEER "));
    assert_eq!(PEERS_HEADER.find("LOAD"), Some(65));
}

#[test]
fn nobody_was_seen() {
    let seen = PeersSeen::new();
    match seen.report(7) {
        PeersReport::Nobody(line) => assert_eq!(line, "(no peers seen in 7s)"),
        PeersReport::Rows(_) => panic!("nobody was there"),
    }
    assert_eq!(ModelsSeen::new().report(60), vec!["(no model announcements in 60s)".to_owned()]);
}

#[test]
fn listening_ends() {
    let mut peers = PeersSeen::new();
    assert!(!peers.observe(Observed::Ended, 0));
    assert!(!peers.observe(Observed::TimedOut, 0));
    assert!(!peers.observe(Observed::Expired, 0));
    let mut models = ModelsSeen::new();
    assert!(!models.observe(Observed::Ended));
    assert!(!models.observe(Observed::TimedOut));
    assert!(!models.observe(Observed::Expired));
}

#[test]
fn models_are_listed_by_peer_and_name() {
    let mut seen = ModelsSeen::new();
    assert!(seen.observe(model(2, "b", "d1")));
    assert!(seen.observe(model(1, "z", "d2")));
    assert!(seen.observe(model(2, "a", "d3")));
    assert!(seen.observe(model(2, "b", "d4")));
    assert!(seen.observe(model(2, "ba", "d5")));
    assert!(seen.observe(beat(5, 0.0)));
    assert!(seen.observe(Observed::Item(Err(TransportError::Zenoh("x".to_owned())))));
    let (one, two) = ("01".repeat(32), "02".repeat(32));
    assert_eq!(
        seen.report(5),
        vec![
            "PEER  MODEL  FORMAT  DIGEST".to_owned(),
            format!("{one}  z  gguf  d2"),
            format!("{two}  a  gguf  d3"),
            format!("{two}  b  gguf  d4"),
            format!("{two}  ba  gguf  d5"),
        ]
    );
}

#[test]
fn what_is_published() {
    match heartbeat(pid(4), clock()) {
        MeshEvent::Heartbeat { peer, load, clock: c } => {
            assert_eq!(peer, pid(4));
            assert_eq!(f64::from_bits(load.bits), 0.0);
            assert_eq!(c.wall_ms, 1);
        }
        other => panic!("{other:?}"),
    }
    match model_announcement(pid(4), clock(), "n", "d", "f") {
        MeshEvent::ModelAnnounce { peer, model_name, digest_blake3, format, .. } => {
            assert_eq!(peer, pid(4));
            assert_eq!((model_name.as_str(), digest_blake3.as_str(), format.as_str()), ("n", "d", "f"));
        }
        other => panic!("{other:?}"),
    }
    assert_eq!(
        pushed_message("llama", "gguf", "abc"),
        "pushed llama (gguf) digest=abc\nlistening for pulls \u{2014} Ctrl-C to stop"
    );
    assert_eq!(pulled_message(4096, "/tmp/x"), "pulled 4096 bytes into /tmp/x");
}
