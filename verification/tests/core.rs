use furcate_mesh::clock::HybridLogicalClock;
use furcate_mesh::config::{MeshConfig, MeshError};
use furcate_mesh::event::{Load, INFINITY_BITS, MAX_BITS};
use furcate_mesh::extensions::{DiscoveryError, WorkBrokerError};
use furcate_mesh::peer::{PeerId, PeerIdError};
use furcate_mesh::text;
use furcate_mesh::wire::hex_array;

#[test]
fn peer_id_hex_roundtrip() {
    let id = PeerId::from_bytes([7u8; 32]);
    let parsed = PeerId::from_hex(&id.to_hex()).expect("parse");
    assert_eq!(id, parsed);
}

#[test]
fn peer_id_short_is_six_chars() {
    let id = PeerId::from_bytes([0xab; 32]);
    assert_eq!(id.short().len(), 6);
}

#[test]
fn peer_id_rejects_wrong_length() {
    assert!(matches!(
        PeerId::from_hex("deadbeef"),
        Err(PeerIdError::WrongLength)
    ));
}

#[test]
fn peer_id_rejects_bad_hex() {
    assert!(matches!(
        PeerId::from_hex("zz".repeat(32).as_str()),
        Err(PeerIdError::Malformed)
    ));
}

#[test]
fn hlc_bump_past_advances() {
    let mut a = HybridLogicalClock { wall_ms: 100, counter: 0 };
    let b = HybridLogicalClock { wall_ms: 200, counter: 0 };
    a.bump_past(b);
    assert_eq!(a.wall_ms, 200);
    assert_eq!(a.counter, 1);
}

#[test]
fn peer_id_wire_form_is_lowercase_hex_string() {
    let id = PeerId::from_bytes([0xab; 32]);
    let s = serde_json::to_string(&hex_array::serialize(id.as_bytes())).expect("encode");
    assert_eq!(s, format!("\"{}\"", "ab".repeat(32)));
}

#[test]
fn peer_id_texts() {
    let mut bytes = [0u8; 32];
    bytes[0] = 0x01;
    bytes[1] = 0xfe;
    bytes[2] = 0x9a;
    bytes[31] = 0x7b;
    let id = PeerId::from_bytes(bytes);
    assert_eq!(id.to_hex(), format!("01fe9a{}7b", "00".repeat(28)));
    assert_eq!(id.short(), "01fe9a");
    assert_eq!(id.debug_text(), "PeerId(01fe9a)");
    assert_eq!(PeerId::from_hex(&id.to_hex().to_uppercase()).expect("capitals"), id);
}

#[test]
fn peer_id_errors_in_words() {
    assert!(matches!(PeerId::from_hex("abc"), Err(PeerIdError::Malformed)));
    assert!(matches!(PeerId::from_hex(""), Err(PeerIdError::WrongLength)));
    assert_eq!(
        PeerIdError::WrongLength.to_text(),
        "peer id must be 32 bytes (64 hex chars)"
    );
    assert_eq!(PeerIdError::Malformed.to_text(), "peer id is not valid hex");
}

#[test]
fn peer_ids_are_ordered_by_their_bytes() {
    let mut low = [0xffu8; 32];
    low[0] = 1;
    let mut high = [0u8; 32];
    high[0] = 2;
    let (a, b) = (PeerId::from_bytes(low), PeerId::from_bytes(high));
    assert!(a < b);
    assert!(!(b < a));
    assert!(!(a < a));
    let mut tail = low;
    tail[31] = 0xfe;
    assert!(PeerId::from_bytes(tail) < a);
    let mut all = vec![b, a, PeerId::from_bytes(tail)];
    all.sort();
    assert_eq!(all, vec![PeerId::from_bytes(tail), a, b]);
}

#[test]
fn bump_keeps_the_larger_clock() {
    let mut a = HybridLogicalClock { wall_ms: 300, counter: 4 };
    a.bump_past(HybridLogicalClock { wall_ms: 200, counter: 9 });
    assert_eq!((a.wall_ms, a.counter), (300, 5));
    a.bump_past(HybridLogicalClock { wall_ms: 300, counter: 8 });
    assert_eq!((a.wall_ms, a.counter), (300, 9));
}

#[test]
fn bump_sorts_after_both_clocks() {
    let before = HybridLogicalClock { wall_ms: 10, counter: 3 };
    let seen = HybridLogicalClock { wall_ms: 10, counter: 7 };
    let mut a = before;
    a.bump_past(seen);
    assert!(before < a);
    assert!(seen < a);
}

#[test]
fn bump_carries_a_full_counter() {
    let mut a = HybridLogicalClock { wall_ms: 1, counter: u32::MAX };
    let before = a;
    a.bump_past(HybridLogicalClock { wall_ms: 0, counter: 0 });
    assert_eq!((a.wall_ms, a.counter), (2, 0));
    assert!(a > before);

    let seen = HybridLogicalClock { wall_ms: 7, counter: u32::MAX };
    a.bump_past(seen);
    assert_eq!((a.wall_ms, a.counter), (8, 0));
    assert!(a > seen);
}

#[test]
fn bump_stays_at_the_last_clock() {
    let last = HybridLogicalClock { wall_ms: u64::MAX, counter: u32::MAX };
    let mut a = HybridLogicalClock { wall_ms: 3, counter: 4 };
    a.bump_past(last);
    assert_eq!(a, last);
    a.bump_past(HybridLogicalClock { wall_ms: 3, counter: 4 });
    assert_eq!(a, last);

    let mut b = HybridLogicalClock { wall_ms: u64::MAX, counter: 0 };
    b.bump_past(HybridLogicalClock { wall_ms: 0, counter: 0 });
    assert_eq!((b.wall_ms, b.counter), (u64::MAX, 1));
}

#[test]
fn conflicts_have_one_winner() {
    let a = HybridLogicalClock { wall_ms: 5, counter: 9 };
    let b = HybridLogicalClock { wall_ms: 6, counter: 0 };
    let c = HybridLogicalClock { wall_ms: 6, counter: 1 };
    assert!(a < b && b < c && a < c);
    assert!(!(b < a) && !(c < b) && !(a < a));
    assert_eq!(std::cmp::max(a, c), c);
}

#[test]
fn clock_readings() {
    let a = HybridLogicalClock::from_reading(Some(1_700_000_000_123));
    assert_eq!((a.wall_ms, a.counter), (1_700_000_000_123, 0));
    let before_epoch = HybridLogicalClock::from_reading(None);
    assert_eq!((before_epoch.wall_ms, before_epoch.counter), (0, 0));
    let far = HybridLogicalClock::from_reading(Some(u128::from(u64::MAX) + 1));
    assert_eq!((far.wall_ms, far.counter), (u64::MAX, 0));
}

#[test]
fn clock_of_now_is_after_its_making() {
    let now = HybridLogicalClock::now();
    assert!(now.wall_ms > 1_600_000_000_000);
    assert_eq!(now.counter, 0);
}

#[test]
fn mesh_config_defaults() {
    let cfg = MeshConfig::default();
    assert_eq!(cfg.heartbeat_interval_secs, 5);
    assert_eq!(cfg.peer_dead_after_secs, 30);
    assert_eq!(cfg.max_hops, 1);
    assert_eq!(cfg.mdns_domain, "local.");
}

#[test]
fn mesh_errors_in_words() {
    assert_eq!(MeshError::Identity("a".to_owned()).to_text(), "identity: a");
    assert_eq!(MeshError::Discovery("b".to_owned()).to_text(), "discovery: b");
    assert_eq!(MeshError::Transport("c".to_owned()).to_text(), "transport: c");
    assert_eq!(MeshError::Transfer("d".to_owned()).to_text(), "transfer: d");
    assert_eq!(MeshError::Config("e".to_owned()).to_text(), "config: e");
    assert_eq!(MeshError::Encoding("f".to_owned()).to_text(), "encoding: f");
    let io = std::io::Error::new(std::io::ErrorKind::Other, "disk on fire");
    assert_eq!(MeshError::Io(io).to_text(), "io: disk on fire");
}

#[test]
fn extension_errors_in_words() {
    assert_eq!(DiscoveryError::Setup("bind".to_owned()).to_text(), "setup: bind");
    assert_eq!(DiscoveryError::Terminated("eof".to_owned()).to_text(), "terminated: eof");
    assert_eq!(WorkBrokerError::Unreachable("x".to_owned()).to_text(), "unreachable: x");
    assert_eq!(WorkBrokerError::Transient("y".to_owned()).to_text(), "transient: y");
    assert_eq!(WorkBrokerError::Failed("z".to_owned()).to_text(), "broker failed: z");
}

#[test]
fn loads_compare_as_doubles_do() {
    let values = [
        f64::NEG_INFINITY,
        -1.5,
        -0.0,
        0.0,
        f64::MIN_POSITIVE,
        0.1,
        0.9,
        1.0,
        f64::MAX,
        f64::INFINITY,
        f64::NAN,
    ];
    for a in values {
        for b in values {
            let x = Load::from_bits(a.to_bits());
            let y = Load::from_bits(b.to_bits());
            assert_eq!(x.is_below(&y), a < b, "{a} {b}");
        }
    }
    assert_eq!(Load::unknown().bits, f64::MAX.to_bits());
    assert_eq!(MAX_BITS, f64::MAX.to_bits());
    assert_eq!(INFINITY_BITS, f64::INFINITY.to_bits());
    assert_eq!(Load::idle().bits, 0.0f64.to_bits());
}

#[test]
fn text_helpers() {
    assert_eq!(text::split_once("a@b@c", '@'), Some(("a", "b@c")));
    assert_eq!(text::split_once("abc", '@'), None);
    assert_eq!(text::split_once("@", '@'), Some(("", "")));
    assert_eq!(text::strip_prefix("furcate/x", "furcate/"), Some("x"));
    assert_eq!(text::strip_prefix("furcate", "furcate/"), None);
    assert!(text::lowercase_is("ZeNoh", "zenoh"));
    assert!(!text::lowercase_is("zeno", "zenoh"));
    assert_eq!(text::to_decimal(0), "0");
    assert_eq!(text::to_decimal(u64::MAX), u64::MAX.to_string());
    assert!(text::text_less("a", "ab"));
    assert!(text::text_less("Z", "a"));
    assert!(!text::text_less("b", "ab"));
    assert!(text::text_less("z", "\u{e9}"));
    assert!(text::same_text("gr\u{fc}n", "gr\u{fc}n"));
    assert!(!text::same_text("gr\u{fc}n", "grun"));
    assert_eq!(text::characters("x\u{2014}y"), vec!['x', '\u{2014}', 'y']);
    assert!(text::same_bytes(&[1, 2], &[1, 2]));
    assert!(!text::same_bytes(&[1, 2], &[1, 2, 3]));
}
