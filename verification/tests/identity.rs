use ed25519_dalek::pkcs8::spki::der::pem::LineEnding;
use ed25519_dalek::pkcs8::EncodePrivateKey;
use furcate_mesh::identity::{unix_uid_zero, IdentityError, PeerIdentity, KEY_FILE, KEY_FILE_MODE};
use furcate_mesh::peer::PeerId;
use furcate_mesh::tls::{
    certified_key_from, peer_id_to_spki, ClientTlsConfig, RpkClientCertVerifier,
    RpkServerCertVerifier, ServerTlsConfig, VerifyError,
};

fn bytes32(hex: &str) -> [u8; 32] {
    *PeerId::from_hex(hex).expect("64 digits").as_bytes()
}

/// Some 32 bytes that are no point on the curve.
fn no_key() -> PeerId {
    for b in 0..=255u8 {
        if ed25519_dalek::VerifyingKey::from_bytes(&[b; 32]).is_err() {
            return PeerId::from_bytes([b; 32]);
        }
    }
    panic!("every candidate is a key")
}

#[test]
fn generate_yields_a_32_byte_peer_id() {
    let id = PeerIdentity::generate();
    assert_eq!(id.peer_id().as_bytes().len(), 32);
    assert_ne!(id.peer_id(), PeerIdentity::generate().peer_id());
}

#[test]
fn save_then_load_roundtrips_the_keypair() {
    let id = PeerIdentity::generate();
    let pid = id.peer_id();
    let pem = id.save().expect("save ok");
    let loaded = PeerIdentity::load("identity.pem", &pem).expect("load ok");
    assert_eq!(loaded.peer_id(), pid);
}

#[test]
fn load_or_generate_is_idempotent() {
    let (a, written) = PeerIdentity::load_or_generate("identity.pem", None).expect("first call");
    let written = written.expect("something to write");
    let (b, again) =
        PeerIdentity::load_or_generate("identity.pem", Some(&written)).expect("second call");
    assert_eq!(a.peer_id(), b.peer_id());
    assert!(again.is_none());
}

#[test]
fn server_tls_build_open_mode_succeeds() {
    let cfg = ServerTlsConfig { identity: PeerIdentity::generate(), allowed: vec![] };
    assert!(cfg.build().is_ok(), "open-mode server config builds");
}

#[test]
fn server_tls_build_with_allowlist_succeeds() {
    let allowed = PeerIdentity::generate().peer_id();
    let cfg = ServerTlsConfig { identity: PeerIdentity::generate(), allowed: vec![allowed] };
    assert!(cfg.build().is_ok(), "allow-listed server config builds");
}

#[test]
fn client_tls_build_succeeds() {
    let server_id = PeerIdentity::generate().peer_id();
    let cfg = ClientTlsConfig { identity: PeerIdentity::generate(), expected_server: server_id };
    assert!(cfg.build().is_ok(), "client config builds");
}

#[test]
fn the_address_is_the_public_key() {
    let secret = bytes32("9d61b19deffd5a60ba844af492ec2cc44449c5697b326919703bac031cae7f60");
    let id = PeerIdentity::from_secret(secret);
    assert_eq!(
        id.peer_id().to_hex(),
        "d75a980182b10ab7d54bfed3c964073a0ee172f3daa62325af021a68f707511a"
    );
}

#[test]
fn the_key_file_holds_the_private_key_alone() {
    let secret = bytes32("d4ee72dbf913584ad5b6d8f1f769f8ad3afe7c28cbf1d4fbe097a88f44755842");
    let id = PeerIdentity::from_secret(secret);
    let body = "MC4CAQAwBQYDK2VwBCIEINTuctv5E1hK1bbY8fdp+K06/nwoy/HU++CXqI9EdVhC";
    let label = "PRIVATE KEY";
    let expected = format!("-----BEGIN {label}-----\n{body}\n-----END {label}-----\n");
    assert_eq!(id.save().expect("save"), expected);
    assert_eq!(
        id.peer_id().to_hex(),
        "19bf44096984cdfe8541bac167dc3b96c85086aa30b6b6cb0c5c38ad703166e1"
    );
    assert_eq!(KEY_FILE, "identity.pem");
    assert_eq!(KEY_FILE_MODE, 0o600);
}

#[test]
fn files_that_hold_the_public_key_too_are_loaded() {
    let key = ed25519_dalek::SigningKey::from_bytes(&[5u8; 32]);
    let pem = key.to_pkcs8_pem(LineEnding::LF).expect("encode");
    let id = PeerIdentity::load("x", &pem).expect("load");
    assert_eq!(id.peer_id().as_bytes(), &key.verifying_key().to_bytes());
}

#[test]
fn broken_key_files_are_refused() {
    match PeerIdentity::load("/etc/identity.pem", "not a key") {
        Err(IdentityError::Pkcs8(text)) => {
            assert!(text.starts_with("decoding /etc/identity.pem: "), "{text}");
        }
        _ => panic!("accepted"),
    }
    assert!(PeerIdentity::load_or_generate("p", Some("")).is_err());
    assert_eq!(IdentityError::Pkcs8("x".to_owned()).to_text(), "pkcs8: x");
    assert_eq!(IdentityError::Tls("y".to_owned()).to_text(), "tls: y");
    let io = std::io::Error::new(std::io::ErrorKind::NotFound, "gone");
    assert_eq!(IdentityError::Io(io).to_text(), "io: gone");
}

#[test]
fn default_directories() {
    let root = PeerIdentity::default_config_dir(true, true, true);
    assert_eq!((root.under_home, root.segments), (false, vec!["/var/lib/furcate-mesh"]));
    let user = PeerIdentity::default_config_dir(true, false, true);
    assert_eq!((user.under_home, user.segments), (true, vec![".config", "furcate-mesh"]));
    let windows = PeerIdentity::default_config_dir(false, true, true);
    assert!(windows.under_home);
    let lost = PeerIdentity::default_config_dir(true, false, false);
    assert_eq!((lost.under_home, lost.segments), (false, vec![".furcate-mesh"]));
    assert!(unix_uid_zero(true, None));
    assert!(unix_uid_zero(false, Some("root")));
    assert!(!unix_uid_zero(false, Some("rooty")));
    assert!(!unix_uid_zero(false, None));
}

#[test]
fn public_keys_in_der() {
    let key = PeerIdentity::from_secret([7u8; 32]).peer_id();
    let der = peer_id_to_spki(key).expect("a key");
    assert_eq!(der.len(), 44);
    assert_eq!(
        der[..12],
        [0x30, 0x2a, 0x30, 0x05, 0x06, 0x03, 0x2b, 0x65, 0x70, 0x03, 0x21, 0x00]
    );
    assert_eq!(&der[12..], &key.as_bytes()[..]);
    match peer_id_to_spki(no_key()) {
        Err(IdentityError::Tls(text)) => {
            assert!(text.starts_with("invalid peer pubkey: "), "{text}");
        }
        _ => panic!("accepted"),
    }
}

#[test]
fn the_certified_key_presents_the_address() {
    let id = PeerIdentity::from_secret([9u8; 32]);
    let key = certified_key_from(&id).expect("a key");
    assert_eq!(key.public_spki, peer_id_to_spki(id.peer_id()).expect("spki"));
    assert_eq!(key.key_der.len(), 83);
    assert_eq!(key.key_der[..5], [0x30, 0x51, 0x02, 0x01, 0x01]);
    assert_eq!(key.key_der[16..48], [9u8; 32]);
    assert_eq!(key.key_der[48..51], [0x81, 0x21, 0x00]);
    assert_eq!(&key.key_der[51..], &id.peer_id().as_bytes()[..]);
}

#[test]
fn malformed_keys_fail_the_build() {
    let bad = no_key();
    let good = PeerIdentity::generate().peer_id();
    let server = ServerTlsConfig { identity: PeerIdentity::generate(), allowed: vec![good, bad] };
    assert!(matches!(server.build(), Err(IdentityError::Tls(_))));
    let client = ClientTlsConfig { identity: PeerIdentity::generate(), expected_server: bad };
    assert!(matches!(client.build(), Err(IdentityError::Tls(_))));
}

#[test]
fn verifiers_go_by_their_lists() {
    let server = RpkServerCertVerifier::new(vec![vec![1, 2], vec![3]]);
    assert_eq!(server.verify_server_cert(&[3]), Ok(()));
    assert_eq!(server.verify_server_cert(&[2]), Err(VerifyError::UnknownIssuer));
    assert_eq!(server.verify_tls12_signature(), Err(VerifyError::Tls12NotOffered));
    assert!(server.requires_raw_public_keys());
    assert_eq!(
        RpkServerCertVerifier::new(vec![]).verify_server_cert(&[3]),
        Err(VerifyError::UnknownIssuer)
    );
    let client = RpkClientCertVerifier::new(vec![vec![1]]);
    assert_eq!(client.verify_client_cert(&[1]), Ok(()));
    assert_eq!(client.verify_client_cert(&[]), Err(VerifyError::UnknownIssuer));
    assert_eq!(client.verify_tls12_signature(), Err(VerifyError::Tls12NotOffered));
    assert!(client.requires_raw_public_keys());
    assert_eq!(RpkClientCertVerifier::new(vec![]).verify_client_cert(&[9]), Ok(()));
}
