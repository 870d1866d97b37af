//! Raw-public-key TLS: who may connect to whom.
//!
//! There is no CA, no chain and no name verification. The peer's public key
//! *is* its identity, and the peer either presents the key that was expected or
//! the handshake fails. Only TLS 1.3 is spoken.
use vstd::prelude::*;

use crate::config::prefixed;
use crate::ed25519::{self, ed25519_public_key, keypair_der, lemma_spki_injective, public_key_error, spki_of};
use crate::identity::{IdentityError, IdentityFault, PeerIdentity};
use crate::peer::PeerId;
use crate::text::{lemma_stands_between, same_bytes, stands_at};

verus! {

// ---------------------------------------------------------------------------
// Keys
// ---------------------------------------------------------------------------

/// What comes of writing the address `peer` as a public key in DER.
pub open spec fn spki_outcome(peer: Seq<u8>) -> Result<Seq<u8>, IdentityFault> {
    match public_key_error(peer) {
        None => Ok(spki_of(peer)),
        Some(e) => Err(IdentityFault::Tls("invalid peer pubkey: "@ + e)),
    }
}

/// Convert a [`PeerId`] (raw 32-byte Ed25519 public key) to a DER-encoded
/// `SubjectPublicKeyInfo`, which is what a peer presents.
pub fn peer_id_to_spki(peer: PeerId) -> (r: Result<Vec<u8>, IdentityError>)
    ensures
        match r {
            Ok(der) => spki_outcome(peer@) == Ok::<Seq<u8>, IdentityFault>(der@),
            Err(e) => spki_outcome(peer@) == Err::<Seq<u8>, IdentityFault>(e@),
        },
{
    match ed25519::encode_public_key(peer.as_bytes()) {
        Err(e) => Err(IdentityError::Tls(prefixed("invalid peer pubkey: ", e.as_str()))),
        Ok(Err(e)) => Err(IdentityError::Tls(prefixed("encoding peer SPKI: ", e.as_str()))),
        Ok(Ok(der)) => Ok(der),
    }
}

/// What a peer proves its identity with: its private key, and the public key
/// that it presents.
pub struct CertifiedKey {
    /// The private key, in PKCS#8 DER.
    pub key_der: Vec<u8>,
    /// The public key, as a DER-encoded `SubjectPublicKeyInfo`.
    pub public_spki: Vec<u8>,
}

/// `key` is made for the private key `secret`.
pub open spec fn certifies(key: CertifiedKey, secret: Seq<u8>) -> bool {
    &&& key.key_der@ == keypair_der(secret)
    &&& key.public_spki@ == spki_of(ed25519_public_key(secret))
}

/// Build a [`CertifiedKey`] from a local identity.
pub fn certified_key_from(identity: &PeerIdentity) -> (r: Result<CertifiedKey, IdentityError>)
    ensures
        r is Ok,
        certifies(r->Ok_0, identity@),
{
    match ed25519::encode_keypair(identity.secret()) {
        Err(e) => Err(IdentityError::Tls(prefixed("encoding private PKCS#8: ", e.as_str()))),
        Ok(key_der) => match ed25519::classify_private_key(key_der.as_slice()) {
            Err(e) => Err(IdentityError::Tls(prefixed("rustls private key parse: ", e.as_str()))),
            Ok(format) => match ed25519::load_private_key(format, key_der.as_slice()) {
                Err(e) => Err(
                    IdentityError::Tls(prefixed("rustls load_private_key: ", e.as_str())),
                ),
                Ok(None) => Err(IdentityError::Tls("signing key has no public key".to_owned())),
                Ok(Some(public_spki)) => Ok(CertifiedKey { key_der, public_spki }),
            },
        },
    }
}

// ---------------------------------------------------------------------------
// Verifiers
// ---------------------------------------------------------------------------

/// Why a peer is turned away.
#[derive(Clone, Copy, Debug, PartialEq, Eq, Structural)]
pub enum VerifyError {
    /// The key it presents is not one that is trusted.
    UnknownIssuer,
    /// It speaks a version of TLS that raw public keys are not specified for.
    Tls12NotOffered,
}

/// The keys of a list, as they stand in contracts.
pub open spec fn keys_of(trusted: Seq<Vec<u8>>) -> Seq<Seq<u8>> {
    trusted.map_values(|k: Vec<u8>| k@)
}

fn lists(trusted: &Vec<Vec<u8>>, presented: &[u8]) -> (r: bool)
    ensures
        r == keys_of(trusted@).contains(presented@),
{
    let mut i: usize = 0;
    while i < trusted.len()
        invariant
            i <= trusted@.len(),
            forall|j: int| 0 <= j < i ==> #[trigger] trusted@[j]@ != presented@,
        decreases trusted@.len() - i,
    {
        if same_bytes(trusted[i].as_slice(), presented) {
            assert(keys_of(trusted@)[i as int] == presented@);
            return true;
        }
        i = i + 1;
    }
    proof {
        assert forall|j: int| 0 <= j < keys_of(trusted@).len() implies keys_of(trusted@)[j]
            != presented@ by {
            assert(trusted@[j]@ != presented@);
        }
    }
    false
}

/// Used on the client's side: accepts only servers whose public key is in the
/// trust list.
#[derive(Debug)]
pub struct RpkServerCertVerifier {
    trusted: Vec<Vec<u8>>,
}

impl RpkServerCertVerifier {
    /// The public keys that are trusted, in DER.
    pub closed spec fn trusted(self) -> Seq<Seq<u8>> {
        keys_of(self.trusted@)
    }

    /// A verifier that trusts the public keys `trusted`, in DER.
    #[must_use]
    pub fn new(trusted: Vec<Vec<u8>>) -> (r: Self)
        ensures
            r.trusted() == keys_of(trusted@),
    {
        RpkServerCertVerifier { trusted }
    }

    /// Whether a server that presents this public key is accepted.
    pub fn verify_server_cert(&self, presented: &[u8]) -> (r: Result<(), VerifyError>)
        ensures
            r == if self.trusted().contains(presented@) {
                Ok::<(), VerifyError>(())
            } else {
                Err::<(), VerifyError>(VerifyError::UnknownIssuer)
            },
    {
        if lists(&self.trusted, presented) {
            Ok(())
        } else {
            Err(VerifyError::UnknownIssuer)
        }
    }

    /// TLS 1.2 signatures are refused.
    pub fn verify_tls12_signature(&self) -> (r: Result<(), VerifyError>)
        ensures
            r == Err::<(), VerifyError>(VerifyError::Tls12NotOffered),
    {
        Err(VerifyError::Tls12NotOffered)
    }

    /// Whether raw public keys are asked for: always.
    #[must_use]
    pub fn requires_raw_public_keys(&self) -> (r: bool)
        ensures
            r,
    {
        true
    }
}

/// Used on the server's side: accepts any client when the trust list is empty,
/// and otherwise asks for the client's public key to be in it.
#[derive(Debug)]
pub struct RpkClientCertVerifier {
    trusted: Vec<Vec<u8>>,
    open: bool,
}

impl RpkClientCertVerifier {
    /// The public keys that are trusted, in DER.
    pub closed spec fn trusted(self) -> Seq<Seq<u8>> {
        keys_of(self.trusted@)
    }

    /// Anyone is accepted exactly where the trust list is empty.
    pub closed spec fn wf(self) -> bool {
        self.open == (self.trusted@.len() == 0)
    }

    /// A verifier that trusts the public keys `trusted`, in DER, or anyone if
    /// there are none.
    #[must_use]
    pub fn new(trusted: Vec<Vec<u8>>) -> (r: Self)
        ensures
            r.wf(),
            r.trusted() == keys_of(trusted@),
    {
        let open: bool = trusted.len() == 0;
        RpkClientCertVerifier { trusted, open }
    }

    /// Whether a client that presents this public key is accepted.
    pub fn verify_client_cert(&self, presented: &[u8]) -> (r: Result<(), VerifyError>)
        requires
            self.wf(),
        ensures
            r == if self.trusted().len() == 0 || self.trusted().contains(presented@) {
                Ok::<(), VerifyError>(())
            } else {
                Err::<(), VerifyError>(VerifyError::UnknownIssuer)
            },
    {
        if self.open || lists(&self.trusted, presented) {
            Ok(())
        } else {
            Err(VerifyError::UnknownIssuer)
        }
    }

    /// TLS 1.2 signatures are refused.
    pub fn verify_tls12_signature(&self) -> (r: Result<(), VerifyError>)
        ensures
            r == Err::<(), VerifyError>(VerifyError::Tls12NotOffered),
    {
        Err(VerifyError::Tls12NotOffered)
    }

    /// Whether raw public keys are asked for: always.
    #[must_use]
    pub fn requires_raw_public_keys(&self) -> (r: bool)
        ensures
            r,
    {
        true
    }
}

// ---------------------------------------------------------------------------
// Configurations
// ---------------------------------------------------------------------------

/// The addresses of a list, as they stand in contracts.
pub open spec fn addresses_of(peers: Seq<PeerId>) -> Seq<Seq<u8>> {
    peers.map_values(|p: PeerId| p@)
}

/// `peers` in DER.
pub open spec fn spkis_of(peers: Seq<Seq<u8>>) -> Seq<Seq<u8>> {
    peers.map_values(|p: Seq<u8>| spki_of(p))
}

/// The first of `peers` that is no public key is at `i`.
pub open spec fn first_bad(peers: Seq<Seq<u8>>, i: int) -> bool {
    &&& 0 <= i < peers.len()
    &&& public_key_error(peers[i]) is Some
    &&& forall|j: int| 0 <= j < i ==> public_key_error(#[trigger] peers[j]) is None
}

/// TLS configuration of a server with raw public keys.
pub struct ServerTlsConfig {
    /// The local peer's keypair, used to present the raw public key during the
    /// handshake.
    pub identity: PeerIdentity,
    /// Allow-list of peers to accept connections from. If empty, any peer that
    /// proves possession of its private key is accepted.
    pub allowed: Vec<PeerId>,
}

/// What a server's handshake is made of.
pub struct ServerTls {
    pub verifier: RpkClientCertVerifier,
    pub key: CertifiedKey,
}

impl ServerTlsConfig {
    /// Build what the handshake is made of. It fails exactly where a peer in
    /// `allowed` has a malformed public key, with the error of the first such.
    pub fn build(self) -> (r: Result<ServerTls, IdentityError>)
        ensures
            match r {
                Ok(tls) => {
                    &&& forall|i: int|
                        0 <= i < self.allowed@.len() ==> public_key_error(
                            (#[trigger] self.allowed@[i])@,
                        ) is None
                    &&& tls.verifier.wf()
                    &&& tls.verifier.trusted() == spkis_of(addresses_of(self.allowed@))
                    &&& certifies(tls.key, self.identity@)
                },
                Err(e) => exists|i: int|
                    {
                        &&& #[trigger] first_bad(addresses_of(self.allowed@), i)
                        &&& spki_outcome(self.allowed@[i]@) == Err::<Seq<u8>, IdentityFault>(e@)
                    },
            },
    {
        let ghost peers = addresses_of(self.allowed@);
        let mut allowed_spki: Vec<Vec<u8>> = Vec::new();
        let mut i: usize = 0;
        while i < self.allowed.len()
            invariant
                i <= self.allowed@.len(),
                peers == addresses_of(self.allowed@),
                allowed_spki@.len() == i,
                forall|j: int| 0 <= j < i ==> public_key_error(#[trigger] peers[j]) is None,
                forall|j: int| 0 <= j < i ==> (#[trigger] allowed_spki@[j])@ == spki_of(peers[j]),
            decreases self.allowed@.len() - i,
        {
            match peer_id_to_spki(self.allowed[i]) {
                Ok(der) => {
                    allowed_spki.push(der);
                },
                Err(e) => {
                    assert(peers[i as int] == self.allowed@[i as int]@);
                    assert(first_bad(peers, i as int));
                    return Err(e);
                },
            }
            i = i + 1;
        }
        let key = match certified_key_from(&self.identity) {
            Ok(key) => key,
            Err(e) => {
                return Err(e);
            },
        };
        proof {
            assert forall|j: int| 0 <= j < self.allowed@.len() implies public_key_error(
                (#[trigger] self.allowed@[j])@,
            ) is None by {
                assert(peers[j] == self.allowed@[j]@);
            }
            assert(keys_of(allowed_spki@) =~= spkis_of(peers));
        }
        Ok(ServerTls { verifier: RpkClientCertVerifier::new(allowed_spki), key })
    }
}

/// TLS configuration of a client with raw public keys.
pub struct ClientTlsConfig {
    /// Local keypair.
    pub identity: PeerIdentity,
    /// The peer expected on the other side of the connection. The handshake
    /// fails if the server presents a different public key.
    pub expected_server: PeerId,
}

/// What a client's handshake is made of.
pub struct ClientTls {
    pub verifier: RpkServerCertVerifier,
    pub key: CertifiedKey,
}

impl ClientTlsConfig {
    /// Build what the handshake is made of. It fails exactly where the expected
    /// server's public key is malformed.
    pub fn build(self) -> (r: Result<ClientTls, IdentityError>)
        ensures
            match r {
                Ok(tls) => {
                    &&& spki_outcome(self.expected_server@) is Ok
                    &&& tls.verifier.trusted() == seq![spki_of(self.expected_server@)]
                    &&& certifies(tls.key, self.identity@)
                },
                Err(e) => spki_outcome(self.expected_server@) == Err::<Seq<u8>, IdentityFault>(e@),
            },
    {
        let server_spki = match peer_id_to_spki(self.expected_server) {
            Ok(der) => der,
            Err(e) => {
                return Err(e);
            },
        };
        let key = match certified_key_from(&self.identity) {
            Ok(key) => key,
            Err(e) => {
                return Err(e);
            },
        };
        let mut trusted: Vec<Vec<u8>> = Vec::new();
        trusted.push(server_spki);
        assert(keys_of(trusted@) =~= seq![spki_of(self.expected_server@)]);
        Ok(ClientTls { verifier: RpkServerCertVerifier::new(trusted), key })
    }
}

/// Law: a verifier trusts the keys that it was made with, first to last, and no other; one
/// for clients that was made with none trusts every key.
pub proof fn law_verifier_goes_by_its_list(
    trusted: Vec<Vec<u8>>,
    server: RpkServerCertVerifier,
    client: RpkClientCertVerifier,
    presented: &[u8],
    on_server: Result<(), VerifyError>,
    on_client: Result<(), VerifyError>,
)
    requires
        call_ensures(RpkServerCertVerifier::new, (trusted,), server),
        call_ensures(RpkClientCertVerifier::new, (trusted,), client),
        call_ensures(
            RpkServerCertVerifier::verify_server_cert,
            (&server, presented),
            on_server,
        ),
        call_ensures(
            RpkClientCertVerifier::verify_client_cert,
            (&client, presented),
            on_client,
        ),
    ensures
        on_server is Ok <==> exists|i: int|
            0 <= i < trusted@.len() && (#[trigger] trusted@[i])@ == presented@,
        on_client is Ok <==> trusted@.len() == 0 || exists|i: int|
            0 <= i < trusted@.len() && (#[trigger] trusted@[i])@ == presented@,
        on_server matches Err(e) ==> e == VerifyError::UnknownIssuer,
        on_client matches Err(e) ==> e == VerifyError::UnknownIssuer,
{
    let keys = keys_of(trusted@);
    assert forall|i: int| 0 <= i < trusted@.len() implies keys[i] == (#[trigger] trusted@[i])@ by {}
    if keys.contains(presented@) {
        let i = choose|i: int| 0 <= i < keys.len() && keys[i] == presented@;
        assert(trusted@[i]@ == presented@);
    }
    if exists|i: int| 0 <= i < trusted@.len() && (#[trigger] trusted@[i])@ == presented@ {
        let i = choose|i: int| 0 <= i < trusted@.len() && (#[trigger] trusted@[i])@ == presented@;
        assert(keys[i] == presented@);
    }
}

/// Law: what an identity proves itself with. The public key that it presents ends in its
/// address, and its private key holds the secret it was made from and ends in its
/// address too.
pub proof fn law_certified_key_is_of_its_identity(
    identity: PeerIdentity,
    r: Result<CertifiedKey, IdentityError>,
    address: PeerId,
)
    requires
        call_ensures(certified_key_from, (&identity,), r),
        call_ensures(PeerIdentity::peer_id, (&identity,), address),
        identity@.len() == 32,
    ensures
        r matches Ok(key) && {
            &&& key.public_spki@.len() == 44
            &&& key.public_spki@.skip(12) == address@
            &&& key.key_der@.len() == 83
            &&& key.key_der@.subrange(16, 48) == identity@
            &&& key.key_der@.skip(51) == address@
        },
{
    let secret = identity@;
    assert(spki_of(address@).skip(12) =~= address@);
    assert(keypair_der(secret).subrange(16, 48) =~= secret);
    assert(keypair_der(secret).skip(51) =~= address@);
}

/// Law: what a client's verifier, built for an expected server, accepts: the public
/// key of that server and nothing else. What it presents itself is the public key of
/// its own address.
pub proof fn law_client_is_built_for_its_server(
    cfg: ClientTlsConfig,
    r: Result<ClientTls, IdentityError>,
    presented: &[u8],
    verdict: Result<(), VerifyError>,
    address: PeerId,
)
    requires
        call_ensures(ClientTlsConfig::build, (cfg,), r),
        r matches Ok(tls) ==> call_ensures(
            RpkServerCertVerifier::verify_server_cert,
            (&tls.verifier, presented),
            verdict,
        ),
        call_ensures(PeerIdentity::peer_id, (&cfg.identity,), address),
    ensures
        r is Ok <==> public_key_error(cfg.expected_server@) is None,
        r is Ok ==> (verdict is Ok <==> presented@ == spki_of(cfg.expected_server@)),
        r is Ok && verdict is Err ==> verdict->Err_0 == VerifyError::UnknownIssuer,
        r matches Ok(tls) ==> tls.key.public_spki@ == spki_of(address@) && tls.key.key_der@
            == keypair_der(cfg.identity@),
        r matches Err(e) ==> (e matches IdentityError::Tls(t) && {
            let cause = public_key_error(cfg.expected_server@)->0;
            t@.len() == 21 + cause.len() && stands_at(t@, 0, "invalid peer pubkey: "@) && stands_at(
                t@,
                21,
                cause,
            )
        }),
{
    reveal_strlit("invalid peer pubkey: ");
    let trusted = seq![spki_of(cfg.expected_server@)];
    assert(trusted[0] == spki_of(cfg.expected_server@));
    if let Err(e) = r {
        let cause = public_key_error(cfg.expected_server@)->0;
        lemma_stands_between("invalid peer pubkey: "@, cause, Seq::empty());
        assert(e@ is Tls);
    }
}

/// Law: what a server's verifier accepts: any key where the allow-list is empty, and
/// otherwise exactly the public keys of the peers on the list, first to last. What it
/// presents itself is the public key of its own address.
pub proof fn law_server_is_built_for_its_list(
    cfg: ServerTlsConfig,
    r: Result<ServerTls, IdentityError>,
    presented: &[u8],
    verdict: Result<(), VerifyError>,
    address: PeerId,
)
    requires
        call_ensures(ServerTlsConfig::build, (cfg,), r),
        r matches Ok(tls) ==> call_ensures(
            RpkClientCertVerifier::verify_client_cert,
            (&tls.verifier, presented),
            verdict,
        ),
        call_ensures(PeerIdentity::peer_id, (&cfg.identity,), address),
    ensures
        r is Ok <==> forall|i: int|
            0 <= i < cfg.allowed@.len() ==> public_key_error((#[trigger] cfg.allowed@[i])@) is None,
        r is Ok ==> (verdict is Ok <==> cfg.allowed@.len() == 0 || exists|i: int|
            0 <= i < cfg.allowed@.len() && presented@ == spki_of((#[trigger] cfg.allowed@[i])@)),
        r is Ok && verdict is Err ==> verdict->Err_0 == VerifyError::UnknownIssuer,
        r matches Ok(tls) ==> tls.key.public_spki@ == spki_of(address@) && tls.key.key_der@
            == keypair_der(cfg.identity@),
        r matches Err(e) ==> exists|i: int|
            {
                &&& 0 <= i < cfg.allowed@.len()
                &&& public_key_error((#[trigger] cfg.allowed@[i])@) matches Some(cause)
                    && e matches IdentityError::Tls(t) && t@.len() == 21 + cause.len()
                    && stands_at(t@, 0, "invalid peer pubkey: "@) && stands_at(t@, 21, cause)
                &&& forall|j: int|
                    0 <= j < i ==> public_key_error((#[trigger] cfg.allowed@[j])@) is None
            },
{
    reveal_strlit("invalid peer pubkey: ");
    let peers = addresses_of(cfg.allowed@);
    assert forall|i: int| 0 <= i < cfg.allowed@.len() implies peers[i] == (
    #[trigger] cfg.allowed@[i])@ && spkis_of(peers)[i] == spki_of(peers[i]) by {}
    if r is Ok {
        if spkis_of(peers).contains(presented@) {
            let i = choose|i: int|
                0 <= i < spkis_of(peers).len() && spkis_of(peers)[i] == presented@;
            assert(presented@ == spki_of(cfg.allowed@[i]@));
        }
        if exists|i: int|
            0 <= i < cfg.allowed@.len() && presented@ == spki_of((#[trigger] cfg.allowed@[i])@) {
            let i = choose|i: int|
                0 <= i < cfg.allowed@.len() && presented@ == spki_of((#[trigger] cfg.allowed@[i])@);
            assert(spkis_of(peers)[i] == presented@);
        }
    } else {
        let i = choose|i: int|
            {
                &&& #[trigger] first_bad(peers, i)
                &&& spki_outcome(cfg.allowed@[i]@) == Err::<Seq<u8>, IdentityFault>(r->Err_0@)
            };
        assert(public_key_error(cfg.allowed@[i]@) is Some);
        let cause = public_key_error(cfg.allowed@[i]@)->0;
        lemma_stands_between("invalid peer pubkey: "@, cause, Seq::empty());
        assert(r->Err_0@ is Tls);
        assert forall|j: int| 0 <= j < i implies public_key_error(
            (#[trigger] cfg.allowed@[j])@,
        ) is None by {
            assert(peers[j] == cfg.allowed@[j]@);
        }
    }
}

/// Law: verifiers ask for raw public keys and refuse TLS 1.2; the key of an address is
/// its DER form where it is a public key at all.
pub proof fn law_only_raw_keys_of_peers(
    server: RpkServerCertVerifier,
    client: RpkClientCertVerifier,
    old_server: Result<(), VerifyError>,
    old_client: Result<(), VerifyError>,
    raw_server: bool,
    raw_client: bool,
    peer: PeerId,
    r: Result<Vec<u8>, IdentityError>,
)
    requires
        call_ensures(RpkServerCertVerifier::verify_tls12_signature, (&server,), old_server),
        call_ensures(RpkClientCertVerifier::verify_tls12_signature, (&client,), old_client),
        call_ensures(RpkServerCertVerifier::requires_raw_public_keys, (&server,), raw_server),
        call_ensures(RpkClientCertVerifier::requires_raw_public_keys, (&client,), raw_client),
        call_ensures(peer_id_to_spki, (peer,), r),
    ensures
        old_server == Err::<(), VerifyError>(VerifyError::Tls12NotOffered),
        old_client == Err::<(), VerifyError>(VerifyError::Tls12NotOffered),
        raw_server && raw_client,
        r is Ok <==> public_key_error(peer@) is None,
        r matches Ok(der) ==> der@.len() == 44 && der@.skip(12) == peer@ && der@ == spki_of(peer@),
{
    if let Ok(der) = r {
        assert(spki_of(peer@).skip(12) =~= peer@);
    }
}

/// Law: two peers complete a handshake exactly where the client expects the server's
/// address and the server lists the client's, or nobody's. `trusts` and `admits` are
/// the verdicts of the two sides on the keys that the other presents.
pub proof fn law_handshake_needs_both_sides(
    client: ClientTlsConfig,
    c: ClientTls,
    server: ServerTlsConfig,
    s: ServerTls,
    client_address: PeerId,
    server_address: PeerId,
    server_key: &[u8],
    client_key: &[u8],
    trusts: Result<(), VerifyError>,
    admits: Result<(), VerifyError>,
)
    requires
        call_ensures(ClientTlsConfig::build, (client,), Ok(c)),
        call_ensures(ServerTlsConfig::build, (server,), Ok(s)),
        call_ensures(PeerIdentity::peer_id, (&client.identity,), client_address),
        call_ensures(PeerIdentity::peer_id, (&server.identity,), server_address),
        call_ensures(
            RpkServerCertVerifier::verify_server_cert,
            (&c.verifier, server_key),
            trusts,
        ),
        call_ensures(
            RpkClientCertVerifier::verify_client_cert,
            (&s.verifier, client_key),
            admits,
        ),
        server_key@ == s.key.public_spki@,
        client_key@ == c.key.public_spki@,
    ensures
        trusts is Ok <==> client.expected_server@ == server_address@,
        admits is Ok <==> server.allowed@.len() == 0 || exists|i: int|
            0 <= i < server.allowed@.len() && (#[trigger] server.allowed@[i])@ == client_address@,
{
    law_client_is_built_for_its_server(client, Ok(c), server_key, trusts, client_address);
    law_server_is_built_for_its_list(server, Ok(s), client_key, admits, server_address);
    if spki_of(server_address@) == spki_of(client.expected_server@) {
        lemma_spki_injective(server_address@, client.expected_server@);
    }
    assert forall|i: int|
        0 <= i < server.allowed@.len() && client_key@ == spki_of(
            (#[trigger] server.allowed@[i])@,
        ) implies server.allowed@[i]@ == client_address@ by {
        lemma_spki_injective(server.allowed@[i]@, client_address@);
    }
}

/// Law: a client accepts the server that it expects, and no other: the public
/// key that a server presents is trusted exactly if the server's address is the
/// expected one.
pub proof fn law_client_accepts_expected_server_only(expected: Seq<u8>, server: Seq<u8>)
    ensures
        seq![spki_of(expected)].contains(spki_of(server)) <==> server == expected,
{
    let list = seq![spki_of(expected)];
    assert(list[0] == spki_of(expected));
    if list.contains(spki_of(server)) {
        lemma_spki_injective(server, expected);
    }
}

/// Law: a server with an allow-list accepts exactly the clients whose address
/// is on it.
pub proof fn law_server_accepts_listed_clients_only(allowed: Seq<Seq<u8>>, client: Seq<u8>)
    ensures
        spkis_of(allowed).contains(spki_of(client)) <==> allowed.contains(client),
        spkis_of(allowed).len() == allowed.len(),
{
    if allowed.contains(client) {
        let i = choose|i: int| 0 <= i < allowed.len() && allowed[i] == client;
        assert(spkis_of(allowed)[i] == spki_of(client));
    }
    if spkis_of(allowed).contains(spki_of(client)) {
        let i = choose|i: int| 0 <= i < allowed.len() && spkis_of(allowed)[i] == spki_of(client);
        lemma_spki_injective(allowed[i], client);
    }
}

/// Law: a peer presents the key of its own address. With the laws above, two
/// peers complete a handshake where the client expects the server's address and
/// the server lists the client's, or nobody's.
pub proof fn law_peer_presents_its_address(key: CertifiedKey, secret: Seq<u8>)
    requires
        certifies(key, secret),
    ensures
        key.public_spki@ == spki_of(ed25519_public_key(secret)),
        forall|other: Seq<u8>|
            key.public_spki@ == #[trigger] spki_of(other) ==> other == ed25519_public_key(secret),
{
    assert forall|other: Seq<u8>| key.public_spki@ == #[trigger] spki_of(other) implies other
        == ed25519_public_key(secret) by {
        lemma_spki_injective(other, ed25519_public_key(secret));
    }
}

} // verus!
