//! Peer identity: an Ed25519 keypair whose public key *is* the peer's address.
//!
//! The private key is stored as a PKCS#8 v1 PEM file at
//! `<config_dir>/identity.pem`, readable to the user that runs the daemon
//! alone. The public key is derived on load and never stored separately.
use vstd::prelude::*;
use vstd::string::StringExecFns;

use crate::config::{io_message, io_text, io_to_text, prefixed};
use crate::ed25519::{self, drawn, ed25519_public_key, pem_secret, public_key_error, secret_pem};
use crate::peer::PeerId;
use crate::text::{lemma_stands_between, same_text, stands_at};

verus! {

/// The name of the key file in the configuration directory.
pub const KEY_FILE: &'static str = "identity.pem";

/// The permissions of the key file on Unix: read and write for its owner.
pub const KEY_FILE_MODE: u32 = 0o600;

/// Identity errors.
#[derive(Debug)]
pub enum IdentityError {
    /// IO failure reading or writing the on-disk key file.
    Io(std::io::Error),
    /// PKCS#8 PEM decode/encode failure.
    Pkcs8(String),
    /// TLS config build failure: malformed key material, a bad key in the
    /// allow-list, or a provider error loading the private key.
    Tls(String),
}

/// An identity error in mathematical terms.
pub enum IdentityFault {
    Io(std::io::Error),
    Pkcs8(Seq<char>),
    Tls(Seq<char>),
}

impl View for IdentityError {
    type V = IdentityFault;

    open spec fn view(&self) -> IdentityFault {
        match self {
            IdentityError::Io(e) => IdentityFault::Io(*e),
            IdentityError::Pkcs8(s) => IdentityFault::Pkcs8(s@),
            IdentityError::Tls(s) => IdentityFault::Tls(s@),
        }
    }
}

impl IdentityError {
    /// The message for people.
    pub fn to_text(&self) -> (r: String)
        ensures
            match self@ {
                IdentityFault::Io(e) => io_message("io: "@, e, r@),
                IdentityFault::Pkcs8(s) => r@ == "pkcs8: "@ + s,
                IdentityFault::Tls(s) => r@ == "tls: "@ + s,
            },
    {
        match self {
            IdentityError::Io(e) => io_to_text("io: ", e),
            IdentityError::Pkcs8(s) => prefixed("pkcs8: ", s.as_str()),
            IdentityError::Tls(s) => prefixed("tls: ", s.as_str()),
        }
    }
}

/// What comes of reading the key file at `path` with the contents `pem`.
pub open spec fn identity_loaded(path: Seq<char>, pem: Seq<char>) -> Result<Seq<u8>, IdentityFault> {
    match pem_secret(pem) {
        Ok(secret) => Ok(secret),
        Err(e) => Err(IdentityFault::Pkcs8("decoding "@ + path + ": "@ + e)),
    }
}

/// Where the configuration lives: the path made of `segments`, under the home
/// directory or as it stands.
#[derive(Clone, Debug)]
pub struct ConfigDir {
    pub under_home: bool,
    pub segments: Vec<&'static str>,
}

/// The local peer's Ed25519 keypair. Hold one of these for the process's
/// lifetime.
#[derive(Clone)]
pub struct PeerIdentity {
    secret: [u8; 32],
}

impl View for PeerIdentity {
    type V = Seq<u8>;

    /// The 32 bytes of the private key.
    closed spec fn view(&self) -> Seq<u8> {
        self.secret@
    }
}

impl PeerIdentity {
    /// Generate a brand new Ed25519 keypair from the operating system's random
    /// numbers.
    #[must_use]
    pub fn generate() -> (r: Self)
        ensures
            r@.len() == 32,
            drawn(r@),
    {
        let secret = ed25519::generate_secret();
        proof {
            ed25519::lemma_drawn(secret);
        }
        PeerIdentity { secret }
    }

    /// The keypair of a private key.
    #[must_use]
    pub fn from_secret(secret: [u8; 32]) -> (r: Self)
        ensures
            r@ == secret@,
    {
        PeerIdentity { secret }
    }

    /// Load a keypair from the contents `pem` of the key file at `path`.
    pub fn load(path: &str, pem: &str) -> (r: Result<Self, IdentityError>)
        ensures
            match r {
                Ok(id) => identity_loaded(path@, pem@) == Ok::<Seq<u8>, IdentityFault>(id@),
                Err(e) => identity_loaded(path@, pem@) == Err::<Seq<u8>, IdentityFault>(e@),
            },
    {
        match ed25519::decode_secret_pem(pem) {
            Ok(secret) => Ok(PeerIdentity { secret }),
            Err(e) => {
                let mut text = prefixed("decoding ", path);
                text.append(": ");
                text.append(e.as_str());
                Err(IdentityError::Pkcs8(text))
            },
        }
    }

    /// The contents of the key file for this keypair.
    pub fn save(&self) -> (r: Result<String, IdentityError>)
        ensures
            r is Ok,
            r->Ok_0@ == secret_pem(self@),
            pem_secret(r->Ok_0@) == Ok::<Seq<u8>, Seq<char>>(self@),
    {
        match ed25519::encode_secret_pem(&self.secret) {
            Ok(pem) => Ok(pem),
            Err(e) => Err(IdentityError::Pkcs8(prefixed("encoding: ", e.as_str()))),
        }
    }

    /// Load the identity from the key file at `path`, if it is there with the
    /// contents `existing`; otherwise generate one. The second part of the
    /// result is what to write to the key file, if anything.
    pub fn load_or_generate(path: &str, existing: Option<&str>) -> (r: Result<
        (Self, Option<String>),
        IdentityError,
    >)
        ensures
            match existing {
                Some(pem) => match r {
                    Ok((id, write)) => identity_loaded(path@, pem@) == Ok::<
                        Seq<u8>,
                        IdentityFault,
                    >(id@) && write is None,
                    Err(e) => identity_loaded(path@, pem@) == Err::<Seq<u8>, IdentityFault>(e@),
                },
                None => {
                    &&& r is Ok
                    &&& r->Ok_0.0@.len() == 32
                    &&& drawn(r->Ok_0.0@)
                    &&& r->Ok_0.1 is Some
                    &&& r->Ok_0.1->0@ == secret_pem(r->Ok_0.0@)
                    &&& identity_loaded(path@, r->Ok_0.1->0@) == Ok::<Seq<u8>, IdentityFault>(
                        r->Ok_0.0@,
                    )
                },
            },
    {
        match existing {
            Some(pem) => match Self::load(path, pem) {
                Ok(id) => Ok((id, None)),
                Err(e) => Err(e),
            },
            None => {
                let id = Self::generate();
                match id.save() {
                    Ok(pem) => Ok((id, Some(pem))),
                    Err(e) => Err(e),
                }
            },
        }
    }

    /// The 32-byte public key: this peer's stable address.
    #[must_use]
    pub fn peer_id(&self) -> (r: PeerId)
        ensures
            r@ == ed25519_public_key(self@),
            public_key_error(r@) is None,
    {
        PeerId::from_bytes(ed25519::public_key(&self.secret))
    }

    /// The private key itself, for the use of the TLS layer.
    pub(crate) fn secret(&self) -> (r: &[u8; 32])
        ensures
            r@ == self@,
    {
        &self.secret
    }

    /// Default config directory: `/var/lib/furcate-mesh` when root on Unix,
    /// `~/.config/furcate-mesh` otherwise, and `.furcate-mesh` where no home
    /// directory is known.
    #[must_use]
    pub fn default_config_dir(unix: bool, uid_zero: bool, home_known: bool) -> (r: ConfigDir)
        ensures
            unix && uid_zero ==> {
                &&& !r.under_home
                &&& r.segments@.len() == 1
                &&& r.segments@[0]@ == "/var/lib/furcate-mesh"@
            },
            !(unix && uid_zero) && home_known ==> {
                &&& r.under_home
                &&& r.segments@.len() == 2
                &&& r.segments@[0]@ == ".config"@
                &&& r.segments@[1]@ == "furcate-mesh"@
            },
            !(unix && uid_zero) && !home_known ==> {
                &&& !r.under_home
                &&& r.segments@.len() == 1
                &&& r.segments@[0]@ == ".furcate-mesh"@
            },
    {
        let mut segments: Vec<&'static str> = Vec::new();
        if unix && uid_zero {
            segments.push("/var/lib/furcate-mesh");
            ConfigDir { under_home: false, segments }
        } else if home_known {
            segments.push(".config");
            segments.push("furcate-mesh");
            ConfigDir { under_home: true, segments }
        } else {
            segments.push(".furcate-mesh");
            ConfigDir { under_home: false, segments }
        }
    }
}

/// Whether the process counts as run by root: it was started through `sudo`, or
/// the user is called so. Best effort; getting it wrong only changes the default
/// directory.
#[must_use]
pub fn unix_uid_zero(sudo_uid_set: bool, user: Option<&str>) -> (r: bool)
    ensures
        r == (sudo_uid_set || (user matches Some(u) && u@ == "root"@)),
{
    sudo_uid_set || match user {
        Some(u) => same_text(u, "root"),
        None => false,
    }
}

/// Law: a new identity is the private key that was drawn for it, all 32 bytes of it
/// and unchanged; an identity made from a private key is that key.
pub proof fn law_identity_is_its_key(new: PeerIdentity, secret: [u8; 32], made: PeerIdentity)
    requires
        call_ensures(PeerIdentity::generate, (), new),
        call_ensures(PeerIdentity::from_secret, (secret,), made),
    ensures
        new@.len() == 32,
        drawn(new@),
        made@ == secret@,
{
}

/// Law: an identity that is saved is loaded again as the same identity, with the same
/// address, whatever the file is called; and what is loaded does not depend on that.
pub proof fn law_saved_identity_is_loaded(
    id: PeerIdentity,
    saved: Result<String, IdentityError>,
    path: &str,
    pem: &str,
    loaded: Result<PeerIdentity, IdentityError>,
    address: PeerId,
    again: PeerId,
)
    requires
        call_ensures(PeerIdentity::save, (&id,), saved),
        call_ensures(PeerIdentity::load, (path, pem), loaded),
        saved is Ok,
        saved->Ok_0@ == pem@,
        call_ensures(PeerIdentity::peer_id, (&id,), address),
        loaded matches Ok(other) ==> call_ensures(PeerIdentity::peer_id, (&other,), again),
    ensures
        loaded is Ok,
        loaded->Ok_0@ == id@,
        again@ == address@,
        address@ == ed25519_public_key(id@),
{
}

/// Law: saving never fails.
pub proof fn law_saving_succeeds(id: PeerIdentity, saved: Result<String, IdentityError>)
    requires
        call_ensures(PeerIdentity::save, (&id,), saved),
    ensures
        saved is Ok,
{
}

/// Law: a key file that is there is read as it is, never replaced: nothing is to be
/// written, and what comes of it is what comes of loading it. Where there is none, a
/// new key is drawn, and what is to be written is what loads as that key.
pub proof fn law_key_file_is_kept(
    path: &str,
    existing: Option<&str>,
    r: Result<(PeerIdentity, Option<String>), IdentityError>,
    pem: &str,
    loaded: Result<PeerIdentity, IdentityError>,
)
    requires
        call_ensures(PeerIdentity::load_or_generate, (path, existing), r),
        call_ensures(PeerIdentity::load, (path, pem), loaded),
        existing matches Some(p) ==> p@ == pem@,
        existing is None ==> (r matches Ok((_, Some(text))) ==> text@ == pem@),
    ensures
        existing is Some ==> (r is Ok <==> loaded is Ok),
        existing is Some && r is Ok ==> r->Ok_0.1 is None && r->Ok_0.0@ == loaded->Ok_0@,
        existing is Some && r is Err ==> r->Err_0@ == loaded->Err_0@,
        existing is None ==> r is Ok && r->Ok_0.1 is Some && drawn(r->Ok_0.0@),
        existing is None ==> loaded is Ok && loaded->Ok_0@ == r->Ok_0.0@,
{
}

/// Law: a key file that cannot be read is told with its whole path and the whole cause,
/// and the words for an error end in what the error holds.
pub proof fn law_error_words(
    path: &str,
    pem: &str,
    loaded: Result<PeerIdentity, IdentityError>,
    e: IdentityError,
    words: String,
)
    requires
        call_ensures(PeerIdentity::load, (path, pem), loaded),
        call_ensures(IdentityError::to_text, (&e,), words),
    ensures
        loaded is Err <==> pem_secret(pem@) is Err,
        loaded is Err ==> {
            let cause = pem_secret(pem@)->Err_0;
            &&& loaded->Err_0 matches IdentityError::Pkcs8(t) && t@.len() == 11 + path@.len()
                + cause.len() && stands_at(t@, 0, "decoding "@) && stands_at(t@, 9, path@)
                && stands_at(t@, 9 + path@.len(), ": "@ + cause)
        },
        e matches IdentityError::Pkcs8(s) ==> words@.len() == 7 + s@.len() && stands_at(
            words@,
            7,
            s@,
        ) && stands_at(words@, 0, "pkcs8: "@),
        e matches IdentityError::Tls(s) ==> words@.len() == 5 + s@.len() && stands_at(
            words@,
            5,
            s@,
        ) && stands_at(words@, 0, "tls: "@),
        e matches IdentityError::Io(x) ==> exists|t: Seq<char>|
            #[trigger] io_text(x, t) && words@ == "io: "@ + t,
{
    reveal_strlit("decoding ");
    reveal_strlit(": ");
    reveal_strlit("pkcs8: ");
    reveal_strlit("tls: ");
    if let Err(f) = loaded {
        let cause = pem_secret(pem@)->Err_0;
        assert(f@ is Pkcs8);
        let head = "decoding "@;
        lemma_stands_between(head, path@, ": "@ + cause);
        assert(f@->Pkcs8_0 =~= head + path@ + (": "@ + cause));
    }
    match e {
        IdentityError::Pkcs8(s) => lemma_stands_between("pkcs8: "@, s@, Seq::empty()),
        IdentityError::Tls(s) => lemma_stands_between("tls: "@, s@, Seq::empty()),
        _ => {},
    }
}

/// Law: the key file is for its owner alone: nobody else may read or write it, and
/// nobody may run it.
pub proof fn law_key_file_is_private()
    ensures
        KEY_FILE_MODE % 64 == 0,
        KEY_FILE_MODE / 64 == 6,
        KEY_FILE@ == "identity.pem"@,
{
}

/// Law: the default directory is the system's for root on Unix, and otherwise lies
/// under the home directory if there is one; nobody but root on Unix is sent to the
/// system's.
pub proof fn law_default_directory(
    unix: bool,
    root: bool,
    home: bool,
    dir: ConfigDir,
    sudo: bool,
    user: Option<&str>,
    counts: bool,
)
    requires
        call_ensures(PeerIdentity::default_config_dir, (unix, root, home), dir),
        call_ensures(unix_uid_zero, (sudo, user), counts),
    ensures
        dir.under_home <==> home && !(unix && root),
        dir.segments@.len() > 0,
        dir.segments@[0]@ == "/var/lib/furcate-mesh"@ <==> unix && root,
        dir.under_home ==> dir.segments@.len() == 2 && dir.segments@[0]@ == ".config"@
            && dir.segments@[1]@ == "furcate-mesh"@,
        !dir.under_home ==> dir.segments@.len() == 1,
        !dir.under_home && !(unix && root) ==> dir.segments@[0]@ == ".furcate-mesh"@,
        counts <==> sudo || (user is Some && user->0@ == "root"@),
{
    reveal_strlit("/var/lib/furcate-mesh");
    reveal_strlit(".config");
    reveal_strlit(".furcate-mesh");
    assert("/var/lib/furcate-mesh"@[0] != ".config"@[0]);
    assert("/var/lib/furcate-mesh"@[0] != ".furcate-mesh"@[0]);
}

/// Law: an identity that was saved is loaded as the same identity, with the same
/// address, from whatever place: `saved` is what `save` gives for it.
pub proof fn law_save_then_load(secret: Seq<u8>, saved: Seq<char>, path: Seq<char>)
    requires
        saved == secret_pem(secret),
        pem_secret(saved) == Ok::<Seq<u8>, Seq<char>>(secret),
    ensures
        identity_loaded(path, saved) == Ok::<Seq<u8>, IdentityFault>(secret),
        ed25519_public_key(identity_loaded(path, saved)->Ok_0) == ed25519_public_key(secret),
{
}

} // verus!
