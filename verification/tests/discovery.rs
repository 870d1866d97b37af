use furcate_mesh::discovery::run::{Discovery, DiscoveryAction, DiscoveryEvent};
use furcate_mesh::discovery::seed::{self, Seed};
use furcate_mesh::discovery::service::{register_local, resolve_to_peer};
use furcate_mesh::discovery::types::{
    DiscoveredPeer, DiscoveryConfig, DiscoveryError, CHANNEL_CAPACITY, SERVICE_TYPE,
};
use furcate_mesh::peer::PeerId;

/// A socket address as the tests hold it: the host and the port.
#[derive(Clone, Debug, PartialEq)]
struct Addr {
    host: String,
    port: u16,
}

impl Addr {
    fn to_string(&self) -> String {
        format!("{}:{}", self.host, self.port)
    }
}

fn parse_addr(text: &str) -> Result<Addr, String> {
    let (host, port) = text.rsplit_once(':').ok_or("invalid socket address syntax")?;
    let port = port.parse::<u16>().map_err(|e| e.to_string())?;
    Ok(Addr { host: host.to_owned(), port })
}

fn parse_seed(entry: &str) -> Result<DiscoveredPeer<Addr>, DiscoveryError> {
    seed::parse_seed(entry, parse_addr)
}

fn pid(b: u8) -> PeerId {
    PeerId::from_bytes([b; 32])
}

#[test]
fn parse_seed_with_explicit_zenoh_url() {
    let hex = "ab".repeat(32);
    let seed = format!("{hex}@10.0.0.5:7447/tcp/10.0.0.5:7447");
    let peer = parse_seed(&seed).expect("parse ok");
    assert_eq!(peer.zenoh_url, "tcp/10.0.0.5:7447");
    assert_eq!(peer.addr.to_string(), "10.0.0.5:7447");
    assert!(!peer.via_mdns);
}

#[test]
fn parse_seed_defaults_zenoh_url_when_missing() {
    let hex = "cd".repeat(32);
    let seed = format!("{hex}@192.168.1.10:7447");
    let peer = parse_seed(&seed).expect("parse ok");
    assert_eq!(peer.zenoh_url, "tcp/192.168.1.10:7447");
}

#[test]
fn parse_seed_rejects_bad_peer_hex() {
    let seed = "not-hex@10.0.0.1:7447";
    assert!(matches!(parse_seed(seed), Err(DiscoveryError::BadSeed { .. })));
}

#[test]
fn parse_seed_rejects_missing_at_sign() {
    assert!(matches!(
        parse_seed("10.0.0.1:7447"),
        Err(DiscoveryError::BadSeed { .. })
    ));
}

#[test]
fn seeds_only_flushes_then_idles_until_receiver_drops() {
    let hex_a = "ab".repeat(32);
    let hex_b = "cd".repeat(32);
    let (mut svc, mut action) = Discovery::new::<Addr>(DiscoveryConfig {
        seeds: vec![format!("{hex_a}@10.0.0.5:7447"), format!("{hex_b}@10.0.0.6:7447")],
        seeds_only: true,
        ..DiscoveryConfig::default()
    });
    let mut found: Vec<DiscoveredPeer<Addr>> = Vec::new();
    let result = loop {
        let event = match action {
            DiscoveryAction::ParseAddr(text) => DiscoveryEvent::Addr(parse_addr(&text)),
            DiscoveryAction::Send(peer) => {
                found.push(peer);
                DiscoveryEvent::Sent
            }
            DiscoveryAction::AwaitDropped => DiscoveryEvent::Dropped,
            DiscoveryAction::Done(r) => break r,
            _ => panic!("mDNS work in seeds-only mode"),
        };
        action = svc.step(event);
    };
    assert_eq!(found.len(), 2);
    assert_eq!(found[0].addr.to_string(), "10.0.0.5:7447");
    assert_eq!(found[1].addr.to_string(), "10.0.0.6:7447");
    assert!(result.is_ok());
}

#[test]
fn seeds_only_with_bad_seed_returns_bad_seed_error() {
    let (_svc, action) = Discovery::new::<Addr>(DiscoveryConfig {
        seeds: vec!["this-is-not-a-seed".into()],
        seeds_only: true,
        ..DiscoveryConfig::default()
    });
    match action {
        DiscoveryAction::Done(Err(err)) => {
            assert!(matches!(err, DiscoveryError::BadSeed { .. }));
        }
        _ => panic!("must reject"),
    }
}

#[test]
fn seed_errors_say_why() {
    let why = |entry: &str| match parse_seed(entry) {
        Err(DiscoveryError::BadSeed { entry: e, reason }) => {
            assert_eq!(e, entry);
            reason
        }
        _ => panic!("accepted {entry}"),
    };
    assert_eq!(why("x"), "expected '<peer-hex>@<host:port>[/<zenoh-url>]'");
    assert_eq!(why("zz@h:1"), "peer id is not valid hex");
    assert_eq!(why("ab@h:1"), "peer id must be 32 bytes (64 hex chars)");
    let hex = "ab".repeat(32);
    assert_eq!(
        why(&format!("{hex}@nowhere")),
        "not a socket addr: invalid socket address syntax"
    );
    let err = parse_seed("a\"b").unwrap_err();
    assert_eq!(
        err.to_text(),
        "bad seed entry \"a\\\"b\": expected '<peer-hex>@<host:port>[/<zenoh-url>]'"
    );
    assert_eq!(DiscoveryError::Mdns("down".to_owned()).to_text(), "mdns: down");
    let io = std::io::Error::new(std::io::ErrorKind::Other, "no route");
    assert_eq!(DiscoveryError::Io(io).to_text(), "io: no route");
}

#[test]
fn seed_parts_are_read_back() {
    let seed = Seed::split(&format!("{}@[::1]:7447/udp/a@b/c", "0f".repeat(32))).expect("seed");
    assert_eq!(seed.peer, pid(0x0f));
    assert_eq!(seed.host_port, "[::1]:7447");
    assert_eq!(seed.zenoh_url, "udp/a@b/c");
    let empty = Seed::split(&format!("{}@h:1/", "0f".repeat(32))).expect("seed");
    assert_eq!(empty.zenoh_url, "");
    assert!(matches!(
        empty.resolve::<Addr>(Err("nope".to_owned())),
        Err(DiscoveryError::BadSeed { .. })
    ));
}

fn pair(key: &str, value: &str) -> (String, String) {
    (key.to_owned(), value.to_owned())
}

#[test]
fn services_become_peers() {
    let hex = "0a".repeat(32);
    let good = vec![pair("Peer", &hex), pair("v", "1"), pair("ZENOH", "tcp/h:1")];
    let found = resolve_to_peer(&good, Some(7u8)).expect("a peer");
    assert_eq!(found.peer, pid(0x0a));
    assert_eq!(found.zenoh_url, "tcp/h:1");
    assert_eq!(found.addr, 7);
    assert!(found.via_mdns);
    assert!(resolve_to_peer::<u8>(&good, None).is_none());
    assert!(resolve_to_peer(&vec![pair("peer", &hex)], Some(7u8)).is_none());
    assert!(resolve_to_peer(&vec![pair("zenoh", "u")], Some(7u8)).is_none());
    assert!(resolve_to_peer(&vec![pair("peer", "xx"), pair("zenoh", "u")], Some(7u8)).is_none());
    let twice = vec![pair("peer", "xx"), pair("zenoh", "a"), pair("PEER", &hex), pair("zenoh", "b")];
    assert_eq!(resolve_to_peer(&twice, Some(7u8)).expect("last wins").zenoh_url, "b");
}

#[test]
fn the_local_peer_is_described() {
    assert_eq!(SERVICE_TYPE, "_furcate-mesh._tcp.local.");
    assert_eq!(CHANNEL_CAPACITY, 32);
    let info = register_local(pid(0xab), "tcp/0.0.0.0:7447", 7447).expect("service");
    assert_eq!(info.get_fullname(), "furcate-ababab._furcate-mesh._tcp.local.");
    assert_eq!(info.get_hostname(), "furcate-ababab.local.");
    assert_eq!(info.get_port(), 7447);
    assert!(info.is_addr_auto());
    let txt: Vec<(String, String)> = info
        .get_properties()
        .iter()
        .map(|p| (p.key().to_owned(), p.val_str().to_owned()))
        .collect();
    assert_eq!(txt, vec![pair("peer", &"ab".repeat(32)), pair("zenoh", "tcp/0.0.0.0:7447")]);
    let found = resolve_to_peer(&txt, Some(1u8)).expect("resolved");
    assert_eq!(found.peer, pid(0xab));
    assert_eq!(found.zenoh_url, "tcp/0.0.0.0:7447");
}

#[test]
fn a_url_that_does_not_fit_is_refused() {
    assert!(register_local(pid(1), &"u".repeat(249), 1).is_ok());
    match register_local(pid(1), &"u".repeat(250), 1) {
        Err(DiscoveryError::Mdns(text)) => assert_eq!(
            text,
            "ServiceInfo: TXT property 'zenoh' has length 256 bytes, exceeding the 255-byte limit"
        ),
        _ => panic!("accepted"),
    }
}

fn full(local: u8) -> DiscoveryConfig {
    DiscoveryConfig::advertising(
        pid(local),
        7447,
        vec![format!("{}@10.0.0.5:7447", "cd".repeat(32))],
        false,
    )
}

/// A service that has opened its daemon.
fn opened(cfg: DiscoveryConfig) -> Discovery {
    let (mut d, mut action) = Discovery::new::<Addr>(cfg);
    loop {
        let event = match action {
            DiscoveryAction::ParseAddr(text) => DiscoveryEvent::Addr(parse_addr(&text)),
            DiscoveryAction::Send(_) => DiscoveryEvent::Sent,
            DiscoveryAction::OpenDaemon => return d,
            _ => panic!("unexpected"),
        };
        action = d.step(event);
    }
}

#[test]
fn mdns_starts_after_the_seeds() {
    let mut d = opened(full(1));
    let info = match d.step::<Addr>(DiscoveryEvent::Ready) {
        DiscoveryAction::Register(info) => info,
        _ => panic!("no registration"),
    };
    assert_eq!(info.get_port(), 7447);
    assert!(matches!(d.step::<Addr>(DiscoveryEvent::Ready), DiscoveryAction::Browse));
    assert!(matches!(d.step::<Addr>(DiscoveryEvent::Ready), DiscoveryAction::Receive));
    assert!(matches!(d.step::<Addr>(DiscoveryEvent::Other), DiscoveryAction::Receive));
    let own = DiscoveryEvent::Resolved {
        txt: vec![pair("peer", &"01".repeat(32)), pair("zenoh", "u")],
        addr: Some(Addr { host: "h".to_owned(), port: 1 }),
    };
    assert!(matches!(d.step(own), DiscoveryAction::Receive));
    let other = DiscoveryEvent::Resolved {
        txt: vec![pair("peer", &"02".repeat(32)), pair("zenoh", "u")],
        addr: Some(Addr { host: "h".to_owned(), port: 1 }),
    };
    match d.step(other) {
        DiscoveryAction::Send(find) => {
            assert_eq!(find.peer, pid(2));
            assert!(find.via_mdns);
        }
        _ => panic!("not surfaced"),
    }
    assert!(matches!(d.step::<Addr>(DiscoveryEvent::Sent), DiscoveryAction::Receive));
    assert!(matches!(d.step::<Addr>(DiscoveryEvent::BrowseClosed), DiscoveryAction::Shutdown));
    assert!(matches!(d.step::<Addr>(DiscoveryEvent::Ready), DiscoveryAction::Done(Ok(()))));
}

#[test]
fn finds_come_in_order_with_their_addresses() {
    let seed = |b: u8, port: u16| format!("{}@10.0.0.{b}:{port}", pid(b).to_hex());
    let service = |b: u8, port: u16| DiscoveryEvent::Resolved {
        txt: vec![pair("peer", &pid(b).to_hex()), pair("zenoh", &format!("url{b}"))],
        addr: Some(Addr { host: "h".to_owned(), port }),
    };
    let mut seen = vec![
        service(4, 40),
        service(1, 10),
        DiscoveryEvent::Resolved { txt: vec![pair("peer", "zz")], addr: None },
        DiscoveryEvent::Other,
        service(5, 50),
        service(4, 41),
        DiscoveryEvent::BrowseClosed,
    ]
    .into_iter();
    let mut cfg = full(1);
    cfg.seeds = vec![seed(3, 30), seed(2, 20)];
    let (mut d, mut action) = Discovery::new::<Addr>(cfg);
    let mut finds = Vec::new();
    loop {
        let event = match action {
            DiscoveryAction::ParseAddr(text) => DiscoveryEvent::Addr(parse_addr(&text)),
            DiscoveryAction::Send(find) => {
                finds.push((find.peer, find.addr.port, find.via_mdns));
                DiscoveryEvent::Sent
            }
            DiscoveryAction::Receive => seen.next().expect("closed before"),
            DiscoveryAction::Done(r) => {
                r.expect("ends well");
                break;
            }
            _ => DiscoveryEvent::Ready,
        };
        action = d.step(event);
    }
    assert_eq!(
        finds,
        [
            (pid(3), 30, false),
            (pid(2), 20, false),
            (pid(4), 40, true),
            (pid(5), 50, true),
            (pid(4), 41, true),
        ]
    );
}

#[test]
fn browsing_only_registers_nothing() {
    let mut d = opened(DiscoveryConfig::browsing(7447, vec![], false));
    assert!(matches!(d.step::<Addr>(DiscoveryEvent::Ready), DiscoveryAction::Browse));
}

#[test]
fn mdns_failures_end_discovery() {
    let text = |action: DiscoveryAction<Addr>| match action {
        DiscoveryAction::Done(Err(e)) => e.to_text(),
        _ => panic!("not ended"),
    };
    let mut d = opened(full(1));
    assert_eq!(text(d.step(DiscoveryEvent::Failed("e1".to_owned()))), "mdns: daemon: e1");
    let mut d = opened(full(1));
    d.step::<Addr>(DiscoveryEvent::Ready);
    assert_eq!(text(d.step(DiscoveryEvent::Failed("e2".to_owned()))), "mdns: register: e2");
    let mut d = opened(full(1));
    d.step::<Addr>(DiscoveryEvent::Ready);
    d.step::<Addr>(DiscoveryEvent::Ready);
    assert_eq!(text(d.step(DiscoveryEvent::Failed("e3".to_owned()))), "mdns: browse: e3");
    let mut cfg = full(1);
    cfg.local_zenoh_url = Some("u".repeat(300));
    let mut d = opened(cfg);
    assert!(text(d.step(DiscoveryEvent::Ready)).starts_with("mdns: ServiceInfo: "));
}

#[test]
fn a_dropped_consumer_ends_discovery() {
    let (mut d, _) = Discovery::new::<Addr>(full(1));
    let found = d.step(DiscoveryEvent::Addr(parse_addr("10.0.0.5:7447")));
    assert!(matches!(found, DiscoveryAction::Send(_)));
    assert!(matches!(d.step::<Addr>(DiscoveryEvent::Dropped), DiscoveryAction::Done(Ok(()))));
}

#[test]
fn configurations() {
    let cfg = full(3);
    assert_eq!(cfg.local_peer, Some(pid(3)));
    assert_eq!(cfg.local_zenoh_url, Some("tcp/0.0.0.0:7447".to_owned()));
    let quiet = DiscoveryConfig::browsing(1, vec!["s".to_owned()], true);
    assert_eq!(quiet.local_peer, None);
    assert_eq!(quiet.local_zenoh_url, None);
    assert!(quiet.seeds_only);
    let none = DiscoveryConfig::default();
    assert_eq!((none.port, none.seeds.len(), none.seeds_only), (0, 0, false));
}
