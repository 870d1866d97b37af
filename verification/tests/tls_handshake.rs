//! Handshakes in memory between `rustls` endpoints that decide by the library.
use std::sync::Arc;

use furcate_mesh::identity::PeerIdentity;
use furcate_mesh::tls::{
    CertifiedKey, ClientTlsConfig, RpkClientCertVerifier, RpkServerCertVerifier, ServerTlsConfig,
    VerifyError,
};
use rustls::client::danger::{HandshakeSignatureValid, ServerCertVerified, ServerCertVerifier};
use rustls::client::AlwaysResolvesClientRawPublicKeys;
use rustls::crypto::verify_tls13_signature_with_raw_key;
use rustls::pki_types::{
    CertificateDer, PrivateKeyDer, ServerName, SubjectPublicKeyInfoDer, UnixTime,
};
use rustls::server::danger::{ClientCertVerified, ClientCertVerifier};
use rustls::server::AlwaysResolvesServerRawPublicKeys;
use rustls::{
    CertificateError, ClientConnection, DigitallySignedStruct, DistinguishedName, Error,
    PeerIncompatible, ServerConnection, SignatureScheme,
};

fn refusal(e: VerifyError) -> Error {
    match e {
        VerifyError::UnknownIssuer => Error::InvalidCertificate(CertificateError::UnknownIssuer),
        VerifyError::Tls12NotOffered => Error::PeerIncompatible(PeerIncompatible::Tls12NotOffered),
    }
}

fn tls13(
    message: &[u8],
    cert: &CertificateDer<'_>,
    dss: &DigitallySignedStruct,
) -> Result<HandshakeSignatureValid, Error> {
    verify_tls13_signature_with_raw_key(
        message,
        &SubjectPublicKeyInfoDer::from(cert.as_ref()),
        dss,
        &rustls::crypto::aws_lc_rs::default_provider().signature_verification_algorithms,
    )
}

fn schemes() -> Vec<SignatureScheme> {
    rustls::crypto::aws_lc_rs::default_provider()
        .signature_verification_algorithms
        .supported_schemes()
}

#[derive(Debug)]
struct Servers(RpkServerCertVerifier);

impl ServerCertVerifier for Servers {
    fn verify_server_cert(
        &self,
        end_entity: &CertificateDer<'_>,
        _intermediates: &[CertificateDer<'_>],
        _server_name: &ServerName<'_>,
        _ocsp_response: &[u8],
        _now: UnixTime,
    ) -> Result<ServerCertVerified, Error> {
        self.0
            .verify_server_cert(end_entity.as_ref())
            .map(|()| ServerCertVerified::assertion())
            .map_err(refusal)
    }

    fn verify_tls12_signature(
        &self,
        _message: &[u8],
        _cert: &CertificateDer<'_>,
        _dss: &DigitallySignedStruct,
    ) -> Result<HandshakeSignatureValid, Error> {
        self.0
            .verify_tls12_signature()
            .map(|()| HandshakeSignatureValid::assertion())
            .map_err(refusal)
    }

    fn verify_tls13_signature(
        &self,
        message: &[u8],
        cert: &CertificateDer<'_>,
        dss: &DigitallySignedStruct,
    ) -> Result<HandshakeSignatureValid, Error> {
        tls13(message, cert, dss)
    }

    fn supported_verify_schemes(&self) -> Vec<SignatureScheme> {
        schemes()
    }

    fn requires_raw_public_keys(&self) -> bool {
        self.0.requires_raw_public_keys()
    }
}

#[derive(Debug)]
struct Clients(RpkClientCertVerifier);

impl ClientCertVerifier for Clients {
    fn root_hint_subjects(&self) -> &[DistinguishedName] {
        &[]
    }

    fn verify_client_cert(
        &self,
        end_entity: &CertificateDer<'_>,
        _intermediates: &[CertificateDer<'_>],
        _now: UnixTime,
    ) -> Result<ClientCertVerified, Error> {
        self.0
            .verify_client_cert(end_entity.as_ref())
            .map(|()| ClientCertVerified::assertion())
            .map_err(refusal)
    }

    fn verify_tls12_signature(
        &self,
        _message: &[u8],
        _cert: &CertificateDer<'_>,
        _dss: &DigitallySignedStruct,
    ) -> Result<HandshakeSignatureValid, Error> {
        self.0
            .verify_tls12_signature()
            .map(|()| HandshakeSignatureValid::assertion())
            .map_err(refusal)
    }

    fn verify_tls13_signature(
        &self,
        message: &[u8],
        cert: &CertificateDer<'_>,
        dss: &DigitallySignedStruct,
    ) -> Result<HandshakeSignatureValid, Error> {
        tls13(message, cert, dss)
    }

    fn supported_verify_schemes(&self) -> Vec<SignatureScheme> {
        schemes()
    }

    fn requires_raw_public_keys(&self) -> bool {
        self.0.requires_raw_public_keys()
    }
}

fn certified(key: CertifiedKey) -> Arc<rustls::sign::CertifiedKey> {
    let der = PrivateKeyDer::try_from(key.key_der).expect("private key");
    let signer = rustls::crypto::aws_lc_rs::default_provider()
        .key_provider
        .load_private_key(der)
        .expect("load");
    Arc::new(rustls::sign::CertifiedKey::new(
        vec![CertificateDer::from(key.public_spki)],
        signer,
    ))
}

fn endpoints(server: ServerTlsConfig, client: ClientTlsConfig) -> (ServerConnection, ClientConnection) {
    let provider = Arc::new(rustls::crypto::aws_lc_rs::default_provider());
    let server = server.build().ok().expect("server config builds");
    let client = client.build().ok().expect("client config builds");
    let server_cfg = rustls::ServerConfig::builder_with_provider(provider.clone())
        .with_protocol_versions(&[&rustls::version::TLS13])
        .expect("versions")
        .with_client_cert_verifier(Arc::new(Clients(server.verifier)))
        .with_cert_resolver(Arc::new(AlwaysResolvesServerRawPublicKeys::new(certified(server.key))));
    let client_cfg = rustls::ClientConfig::builder_with_provider(provider)
        .with_protocol_versions(&[&rustls::version::TLS13])
        .expect("versions")
        .dangerous()
        .with_custom_certificate_verifier(Arc::new(Servers(client.verifier)))
        .with_client_cert_resolver(Arc::new(AlwaysResolvesClientRawPublicKeys::new(certified(client.key))));
    let name = ServerName::try_from("peer.local").expect("dummy server name");
    (
        ServerConnection::new(Arc::new(server_cfg)).expect("server"),
        ClientConnection::new(Arc::new(client_cfg), name).expect("client"),
    )
}

#[derive(Debug, PartialEq)]
enum Side {
    Server,
    Client,
}

/// A handshake that one side broke off: which one, why, and what the other side
/// made of the alert.
#[derive(Debug)]
struct Refused {
    by: Side,
    cause: Error,
    told: Result<(), Error>,
}

fn to_server(server: &mut ServerConnection, client: &mut ClientConnection) -> Result<(), Error> {
    let mut wire: Vec<u8> = Vec::new();
    while client.wants_write() {
        client.write_tls(&mut wire).expect("client writes");
    }
    let mut rest: &[u8] = &wire;
    while !rest.is_empty() {
        server.read_tls(&mut rest).expect("server reads");
        server.process_new_packets()?;
    }
    Ok(())
}

fn to_client(server: &mut ServerConnection, client: &mut ClientConnection) -> Result<(), Error> {
    let mut wire: Vec<u8> = Vec::new();
    while server.wants_write() {
        server.write_tls(&mut wire).expect("server writes");
    }
    let mut rest: &[u8] = &wire;
    while !rest.is_empty() {
        client.read_tls(&mut rest).expect("client reads");
        client.process_new_packets()?;
    }
    Ok(())
}

/// Carries bytes to and fro until both sides are done, or one refuses.
fn shake(server: &mut ServerConnection, client: &mut ClientConnection) -> Result<(), Refused> {
    for _ in 0..10 {
        if let Err(cause) = to_server(server, client) {
            let told = to_client(server, client);
            return Err(Refused { by: Side::Server, cause, told });
        }
        if let Err(cause) = to_client(server, client) {
            let told = to_server(server, client);
            return Err(Refused { by: Side::Client, cause, told });
        }
        if !client.is_handshaking() && !server.is_handshaking() {
            return Ok(());
        }
    }
    panic!("the handshake does not end")
}

#[test]
fn raw_pk_loopback_roundtrip() {
    let server_id = PeerIdentity::generate();
    let client_id = PeerIdentity::generate();
    let server_peer = server_id.peer_id();
    let client_peer = client_id.peer_id();
    let (mut server, mut client) = endpoints(
        ServerTlsConfig { identity: server_id, allowed: vec![client_peer] },
        ClientTlsConfig { identity: client_id, expected_server: server_peer },
    );
    shake(&mut server, &mut client).expect("handshake");
    std::io::Write::write_all(&mut client.writer(), b"hello").expect("client write");
    to_server(&mut server, &mut client).expect("server takes");
    let mut buf = [0u8; 5];
    std::io::Read::read_exact(&mut server.reader(), &mut buf).expect("server read");
    assert_eq!(&buf, b"hello");
    std::io::Write::write_all(&mut server.writer(), b"world").expect("server write");
    to_client(&mut server, &mut client).expect("client takes");
    let mut buf = [0u8; 5];
    std::io::Read::read_exact(&mut client.reader(), &mut buf).expect("client read");
    assert_eq!(&buf, b"world");
}

#[test]
fn rejects_unknown_client_when_allowlist_set() {
    let server_id = PeerIdentity::generate();
    let allowed_client = PeerIdentity::generate().peer_id();
    let actual_client = PeerIdentity::generate();
    let server_peer = server_id.peer_id();
    let (mut server, mut client) = endpoints(
        ServerTlsConfig { identity: server_id, allowed: vec![allowed_client] },
        ClientTlsConfig { identity: actual_client, expected_server: server_peer },
    );
    let refused = shake(&mut server, &mut client).expect_err("server should reject unknown client");
    assert_eq!(refused.by, Side::Server);
    assert_eq!(refused.cause, Error::InvalidCertificate(CertificateError::UnknownIssuer));
    assert!(
        refused.told.is_err(),
        "client should observe handshake failure once the server's reject reaches it"
    );
}

#[test]
fn rejects_wrong_server_pubkey() {
    let server_id = PeerIdentity::generate();
    let client_id = PeerIdentity::generate();
    let wrong_expected = PeerIdentity::generate().peer_id();
    let (mut server, mut client) = endpoints(
        ServerTlsConfig { identity: server_id, allowed: vec![] },
        ClientTlsConfig { identity: client_id, expected_server: wrong_expected },
    );
    let refused = shake(&mut server, &mut client)
        .expect_err("client should reject server presenting unexpected pubkey");
    assert_eq!(refused.by, Side::Client);
    assert_eq!(refused.cause, Error::InvalidCertificate(CertificateError::UnknownIssuer));
}

#[test]
fn open_server_takes_any_client() {
    let server_id = PeerIdentity::generate();
    let server_peer = server_id.peer_id();
    let (mut server, mut client) = endpoints(
        ServerTlsConfig { identity: server_id, allowed: vec![] },
        ClientTlsConfig { identity: PeerIdentity::generate(), expected_server: server_peer },
    );
    assert!(shake(&mut server, &mut client).is_ok());
}
