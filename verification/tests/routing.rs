use furcate_mesh::config::MeshConfig;
use furcate_mesh::event::Load;
use furcate_mesh::peer::PeerId;
use furcate_mesh::routing::{Decision, Router, RoutingError};

const SECOND: u128 = 1_000_000_000;

fn pid(b: u8) -> PeerId {
    PeerId::from_bytes([b; 32])
}

fn load(v: f64) -> Load {
    Load::from_bits(v.to_bits())
}

#[test]
fn local_has_short_circuits() {
    let r = Router::new(pid(0), MeshConfig::default());
    let d = r.route("any", true, 0, 0).expect("ok");
    assert_eq!(d, Decision::Local);
}

#[test]
fn no_peers_yields_no_such_model() {
    let r = Router::new(pid(0), MeshConfig::default());
    let err = r.route("llama", false, 0, 0).expect_err("no model");
    assert!(matches!(err, RoutingError::NoSuchModel { .. }));
}

#[test]
fn picks_least_loaded_peer() {
    let mut r = Router::new(pid(0), MeshConfig::default());
    r.record_announce(pid(1), "llama".into(), 0);
    r.record_announce(pid(2), "llama".into(), 0);
    r.record_heartbeat(pid(1), load(0.9), 0);
    r.record_heartbeat(pid(2), load(0.1), 0);
    let d = r.route("llama", false, 0, 0).expect("ok");
    assert_eq!(d, Decision::Forward { to: pid(2) });
}

#[test]
fn hop_budget_blocks_further_forwards() {
    let cfg = MeshConfig { max_hops: 1, ..MeshConfig::default() };
    let mut r = Router::new(pid(0), cfg);
    r.record_announce(pid(1), "llama".into(), 0);
    let err = r.route("llama", false, 1, 0).expect_err("budget");
    assert!(matches!(err, RoutingError::HopBudget { .. }));
}

#[test]
fn self_announcements_are_ignored() {
    let mut r = Router::new(pid(0), MeshConfig::default());
    r.record_announce(pid(0), "llama".into(), 0);
    let err = r.route("llama", false, 0, 0).expect_err("ignored");
    assert!(matches!(err, RoutingError::NoSuchModel { .. }));
}

#[test]
fn ties_go_to_the_smaller_address() {
    let mut r = Router::new(pid(9), MeshConfig::default());
    for b in [7, 3, 5] {
        r.record_announce(pid(b), "llama".into(), 0);
        r.record_heartbeat(pid(b), load(0.5), 0);
    }
    assert_eq!(r.route("llama", false, 0, 0).expect("ok"), Decision::Forward { to: pid(3) });
    r.record_heartbeat(pid(5), load(-0.0), 0);
    r.record_heartbeat(pid(7), load(0.0), 0);
    assert_eq!(r.route("llama", false, 0, 0).expect("ok"), Decision::Forward { to: pid(5) });
}

#[test]
fn unknown_load_comes_last() {
    let mut r = Router::new(pid(9), MeshConfig::default());
    r.record_announce(pid(1), "llama".into(), 0);
    r.record_announce(pid(2), "llama".into(), 0);
    r.record_heartbeat(pid(2), load(1.0), 0);
    assert_eq!(r.route("llama", false, 0, 0).expect("ok"), Decision::Forward { to: pid(2) });
}

#[test]
fn dead_peers_are_no_targets() {
    let mut r = Router::new(pid(9), MeshConfig::default());
    r.record_announce(pid(1), "llama".into(), 5 * SECOND);
    assert!(r.route("llama", false, 0, 35 * SECOND - 1).is_ok());
    assert!(r.route("llama", false, 0, 35 * SECOND).is_err());
    r.record_heartbeat(pid(1), load(0.2), 34 * SECOND);
    assert!(r.route("llama", false, 0, 35 * SECOND).is_ok());
    assert!(r.route("llama", false, 0, 0).is_ok());
}

#[test]
fn announcing_twice_changes_nothing_else() {
    let mut r = Router::new(pid(9), MeshConfig::default());
    r.record_heartbeat(pid(1), load(0.2), 0);
    assert!(r.route("llama", false, 0, 0).is_err());
    r.record_announce(pid(1), "llama".into(), 0);
    r.record_announce(pid(1), "llama".into(), 0);
    r.record_announce(pid(1), "mistral".into(), 0);
    r.record_announce(pid(2), "llama".into(), 0);
    r.record_heartbeat(pid(2), load(0.3), 0);
    assert_eq!(r.route("llama", false, 0, 0).expect("ok"), Decision::Forward { to: pid(1) });
    assert_eq!(r.route("mistral", false, 0, 0).expect("ok"), Decision::Forward { to: pid(1) });
}

#[test]
fn loads_that_are_no_numbers_still_route() {
    let mut r = Router::new(pid(9), MeshConfig::default());
    r.record_announce(pid(1), "llama".into(), 0);
    r.record_heartbeat(pid(1), load(f64::NAN), 0);
    assert_eq!(r.route("llama", false, 0, 0).expect("ok"), Decision::Forward { to: pid(1) });
}

#[test]
fn routing_errors_in_words() {
    let r = Router::new(pid(0), MeshConfig::default());
    let missing = r.route("llama", false, 0, 0).unwrap_err();
    assert_eq!(missing.to_text(), "no peer advertises model llama");
    let spent = r.route("llama", false, 1, 0).unwrap_err();
    assert_eq!(spent.to_text(), "hop budget exhausted (max_hops=1)");
}
