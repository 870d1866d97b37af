//! The static seed list.
use vstd::prelude::*;

use crate::config::prefixed;
use crate::discovery::types::{DiscoveredPeer, DiscoveryError, DiscoveryFault, PeerFind};
use crate::hexcode::{hex_encode, lemma_hex_encode_ascii, lemma_hex_roundtrip};
use crate::peer::{parse_peer, PeerId, PeerIdError};
use crate::text::{cut_once, first_index, lemma_cut_once_at, lemma_cut_once_none, lemma_first_index, lemma_stands_between, split_once, stands_at};

verus! {

/// A seed-list entry taken apart.
pub struct SeedParts {
    pub peer: Seq<u8>,
    /// The socket address, as written.
    pub host_port: Seq<char>,
    pub url: Seq<char>,
}

/// What a seed-list entry means, or why it means nothing. Its form is
/// `<peer-hex>@<host>:<port>[/<zenoh-url>]`; the URL is `tcp/<host>:<port>`
/// where it is omitted.
pub open spec fn seed_parts(entry: Seq<char>) -> Result<SeedParts, Seq<char>> {
    match cut_once(entry, '@') {
        None => Err("expected '<peer-hex>@<host:port>[/<zenoh-url>]'"@),
        Some((peer_part, rest)) => match parse_peer(peer_part) {
            Err(e) => Err(e.message()),
            Ok(peer) => Ok(
                match cut_once(rest, '/') {
                    Some((host_port, url)) => SeedParts { peer, host_port, url },
                    None => SeedParts { peer, host_port: rest, url: "tcp/"@ + rest },
                },
            ),
        },
    }
}

/// The error for `entry`.
pub open spec fn bad_seed(entry: Seq<char>, reason: Seq<char>) -> DiscoveryFault {
    DiscoveryFault::BadSeed { entry, reason }
}

/// The outcome for `entry` once its socket address was read, or could not be.
pub open spec fn seed_found<A>(
    entry: Seq<char>,
    parts: SeedParts,
    addr: Result<A, Seq<char>>,
) -> Result<PeerFind<A>, DiscoveryFault> {
    match addr {
        Ok(addr) => Ok(
            PeerFind { peer: parts.peer, addr, url: parts.url, via_mdns: false },
        ),
        Err(e) => Err(bad_seed(entry, "not a socket addr: "@ + e)),
    }
}

/// A seed-list entry whose socket address is still to be read.
#[derive(Clone, Debug)]
pub struct Seed {
    /// The entry as the operator wrote it.
    pub entry: String,
    /// The peer it names.
    pub peer: PeerId,
    /// The socket address, as written.
    pub host_port: String,
    /// Where the peer listens.
    pub zenoh_url: String,
}

impl View for Seed {
    type V = SeedParts;

    open spec fn view(&self) -> SeedParts {
        SeedParts { peer: self.peer@, host_port: self.host_port@, url: self.zenoh_url@ }
    }
}

/// `addr` as it stands in contracts.
pub open spec fn addr_view<A>(addr: Result<A, String>) -> Result<A, Seq<char>> {
    match addr {
        Ok(a) => Ok(a),
        Err(e) => Err(e@),
    }
}

/// A result of discovery as it stands in contracts.
pub open spec fn found_view<A>(r: Result<DiscoveredPeer<A>, DiscoveryError>) -> Result<
    PeerFind<A>,
    DiscoveryFault,
> {
    match r {
        Ok(p) => Ok(p@),
        Err(e) => Err(e@),
    }
}

impl Seed {
    /// Take an entry apart.
    pub fn split(entry: &str) -> (r: Result<Seed, DiscoveryError>)
        ensures
            match r {
                Ok(seed) => seed_parts(entry@) == Ok::<SeedParts, Seq<char>>(seed@) && seed.entry@
                    == entry@,
                Err(e) => seed_parts(entry@) is Err && e@ == bad_seed(
                    entry@,
                    seed_parts(entry@)->Err_0,
                ),
            },
    {
        match split_once(entry, '@') {
            None => Err(
                DiscoveryError::BadSeed {
                    entry: entry.to_owned(),
                    reason: "expected '<peer-hex>@<host:port>[/<zenoh-url>]'".to_owned(),
                },
            ),
            Some((peer_part, rest)) => match PeerId::from_hex(peer_part) {
                Err(e) => Err(
                    DiscoveryError::BadSeed { entry: entry.to_owned(), reason: e.to_text() },
                ),
                Ok(peer) => {
                    let (host_port, zenoh_url) = match split_once(rest, '/') {
                        Some((host_port, url)) => (host_port.to_owned(), url.to_owned()),
                        None => (rest.to_owned(), prefixed("tcp/", rest)),
                    };
                    Ok(Seed { entry: entry.to_owned(), peer, host_port, zenoh_url })
                },
            },
        }
    }

    /// The peer that this entry names, with its socket address, or why there
    /// is none.
    pub fn resolve<A>(self, addr: Result<A, String>) -> (r: Result<
        DiscoveredPeer<A>,
        DiscoveryError,
    >)
        ensures
            found_view(r) == seed_found(self.entry@, self@, addr_view(addr)),
    {
        match addr {
            Ok(addr) => Ok(
                DiscoveredPeer {
                    peer: self.peer,
                    addr,
                    zenoh_url: self.zenoh_url,
                    via_mdns: false,
                },
            ),
            Err(e) => Err(
                DiscoveryError::BadSeed {
                    entry: self.entry,
                    reason: prefixed("not a socket addr: ", e.as_str()),
                },
            ),
        }
    }
}

/// `found` comes of reading the socket address of `entry` with `parse_addr`.
pub open spec fn read_with<A, F: Fn(&str) -> Result<A, String>>(
    parse_addr: F,
    entry: Seq<char>,
    parts: SeedParts,
    found: Result<PeerFind<A>, DiscoveryFault>,
) -> bool {
    exists|s: &str, addr: Result<A, String>|
        {
            &&& s@ == parts.host_port
            &&& #[trigger] call_ensures(parse_addr, (s,), addr)
            &&& found == seed_found(entry, parts, addr_view(addr))
        }
}

/// Parse a single seed-list entry. Format:
/// `<peer-hex>@<host>:<port>[/<zenoh-url>]`.
///
/// `zenoh-url` defaults to `tcp/<host>:<port>` if omitted. `parse_addr` reads a
/// socket address.
pub fn parse_seed<A, F: Fn(&str) -> Result<A, String>>(entry: &str, parse_addr: F) -> (r: Result<
    DiscoveredPeer<A>,
    DiscoveryError,
>)
    requires
        forall|s: &str| #[trigger] call_requires(parse_addr, (s,)),
    ensures
        match seed_parts(entry@) {
            Err(reason) => found_view(r) == Err::<PeerFind<A>, DiscoveryFault>(
                bad_seed(entry@, reason),
            ),
            Ok(parts) => read_with(parse_addr, entry@, parts, found_view(r)),
        },
{
    match Seed::split(entry) {
        Err(e) => Err(e),
        Ok(seed) => {
            let addr = parse_addr(seed.host_port.as_str());
            seed.resolve(addr)
        },
    }
}

/// Law: what an entry is taken apart into. The peer is what stands before the first
/// `@`, the socket address what follows it up to the first slash, and the URL all
/// that follows that slash, or, without a slash, `tcp/` and the socket address. An
/// entry is refused, and named in full, exactly where there is no `@` or what stands
/// before it is no address.
pub proof fn law_how_an_entry_is_read(entry: &str, r: Result<Seed, DiscoveryError>)
    requires
        call_ensures(Seed::split, (entry,), r),
    ensures
        r matches Ok(seed) ==> {
            &&& seed.entry@ == entry@
            &&& !seed.host_port@.contains('/')
            &&& exists|text: Seq<char>|
                {
                    &&& !text.contains('@')
                    &&& #[trigger] parse_peer(text) == Ok::<Seq<u8>, PeerIdError>(seed.peer@)
                    &&& entry@ == text + seq!['@'] + seed.host_port@ + seq!['/'] + seed.zenoh_url@
                        || (entry@ == text + seq!['@'] + seed.host_port@ && seed.zenoh_url@
                        == "tcp/"@ + seed.host_port@)
                }
        },
        r matches Err(e) ==> {
            &&& e matches DiscoveryError::BadSeed { entry: named, .. } && named@ == entry@
            &&& !entry@.contains('@') ==> (e matches DiscoveryError::BadSeed { reason, .. }
                && reason@ == "expected '<peer-hex>@<host:port>[/<zenoh-url>]'"@)
            &&& entry@.contains('@') ==> exists|i: int|
                0 <= i < entry@.len() && entry@[i] == '@' && !entry@.take(i).contains('@') && (
                parse_peer(#[trigger] entry@.take(i)) matches Err(why) && e
                    matches DiscoveryError::BadSeed { reason, .. } && reason@ == why.message())
        },
        !entry@.contains('@') ==> r is Err,
{
    lemma_first_index(entry@, '@');
    let i = first_index(entry@, '@');
    if i < entry@.len() {
        let text = entry@.take(i);
        let rest = entry@.skip(i + 1);
        assert(entry@ =~= text + seq!['@'] + rest);
        assert(!text.contains('@')) by {
            if text.contains('@') {
                let k = choose|k: int| 0 <= k < text.len() && text[k] == '@';
                assert(entry@[k] == '@');
            }
        }
        lemma_first_index(rest, '/');
        let j = first_index(rest, '/');
        assert(!rest.take(j).contains('/')) by {
            if rest.take(j).contains('/') {
                let k = choose|k: int| 0 <= k < j && rest.take(j)[k] == '/';
                assert(rest[k] == '/');
            }
        }
        if j < rest.len() {
            assert(entry@ =~= text + seq!['@'] + rest.take(j) + seq!['/'] + rest.skip(j + 1));
        } else {
            assert(rest.take(j) =~= rest);
        }
        assert(parse_peer(text) is Ok || parse_peer(text) is Err);
    }
}

/// Law: a seed becomes the peer it names, with the socket address that was read, the
/// URL it was written with, and the mark that it was not found on mDNS; or, where no
/// socket address could be read, an error that names the entry and ends in the
/// cause.
pub proof fn law_what_a_seed_becomes<A>(
    seed: Seed,
    addr: Result<A, String>,
    r: Result<DiscoveredPeer<A>, DiscoveryError>,
)
    requires
        call_ensures(Seed::resolve::<A>, (seed, addr), r),
    ensures
        addr matches Ok(a) ==> (r matches Ok(p) && p.peer@ == seed.peer@ && p.addr == a
            && p.zenoh_url@ == seed.zenoh_url@ && !p.via_mdns),
        addr matches Err(cause) ==> (r matches Err(DiscoveryError::BadSeed { entry, reason })
            && entry@ == seed.entry@ && reason@.len() == 19 + cause@.len() && stands_at(
            reason@,
            19,
            cause@,
        ) && stands_at(reason@, 0, "not a socket addr: "@)),
{
    reveal_strlit("not a socket addr: ");
    if let Err(cause) = addr {
        lemma_stands_between("not a socket addr: "@, cause@, Seq::empty());
    }
}

/// Law: what an entry becomes. The peer that it names is found at the socket address
/// that was read from what stands between the first `@` and the slash after it, under
/// the URL that follows, or `tcp/` and the socket address as written. An entry from
/// which no peer comes is named in full, and either it has no `@`, or what stands
/// before the first is no address, or no socket address could be read.
pub proof fn law_what_an_entry_becomes<A, F: Fn(&str) -> Result<A, String>>(
    entry: &str,
    parse_addr: F,
    r: Result<DiscoveredPeer<A>, DiscoveryError>,
)
    requires
        call_ensures(parse_seed::<A, F>, (entry, parse_addr), r),
    ensures
        r matches Ok(p) ==> !p.via_mdns && exists|text: Seq<char>, host_port: &str|
            {
                &&& !text.contains('@')
                &&& !host_port@.contains('/')
                &&& #[trigger] parse_peer(text) == Ok::<Seq<u8>, PeerIdError>(p.peer@)
                &&& #[trigger] call_ensures(parse_addr, (host_port,), Ok(p.addr))
                &&& entry@ == text + seq!['@'] + host_port@ + seq!['/'] + p.zenoh_url@ || (entry@
                    == text + seq!['@'] + host_port@ && p.zenoh_url@ == "tcp/"@ + host_port@)
            },
        r matches Err(e) ==> {
            &&& e matches DiscoveryError::BadSeed { entry: named, .. } && named@ == entry@
            &&& {
                ||| !entry@.contains('@')
                ||| exists|i: int|
                    0 <= i < entry@.len() && entry@[i] == '@' && !entry@.take(i).contains('@')
                        && parse_peer(#[trigger] entry@.take(i)) is Err
                ||| exists|host_port: &str, cause: String| #[trigger]
                    call_ensures(parse_addr, (host_port,), Err(cause))
            }
        },
{
    lemma_first_index(entry@, '@');
    let i = first_index(entry@, '@');
    if i < entry@.len() {
        let text = entry@.take(i);
        let rest = entry@.skip(i + 1);
        assert(entry@ =~= text + seq!['@'] + rest);
        assert(!text.contains('@')) by {
            if text.contains('@') {
                let k = choose|k: int| 0 <= k < text.len() && text[k] == '@';
                assert(entry@[k] == '@');
            }
        }
        lemma_first_index(rest, '/');
        let j = first_index(rest, '/');
        assert(!rest.take(j).contains('/')) by {
            if rest.take(j).contains('/') {
                let k = choose|k: int| 0 <= k < j && rest.take(j)[k] == '/';
                assert(rest[k] == '/');
            }
        }
        if j < rest.len() {
            assert(entry@ =~= text + seq!['@'] + rest.take(j) + seq!['/'] + rest.skip(j + 1));
        } else {
            assert(rest.take(j) =~= rest);
        }
        if parse_peer(text) is Ok {
            let parts = seed_parts(entry@)->Ok_0;
            let (s, addr) = choose|s: &str, addr: Result<A, String>|
                {
                    &&& s@ == parts.host_port
                    &&& #[trigger] call_ensures(parse_addr, (s,), addr)
                    &&& found_view(r) == seed_found(entry@, parts, addr_view(addr))
                };
            assert(call_ensures(parse_addr, (s,), addr));
            assert(r is Ok ==> addr == Ok::<A, String>(r->Ok_0.addr));
        }
    }
}

/// Law: an entry written in the form is read back part by part: the peer, the
/// socket address and the URL.
pub proof fn law_seed_roundtrip(peer: Seq<u8>, host_port: Seq<char>, url: Seq<char>)
    requires
        peer.len() == 32,
        !host_port.contains('/'),
    ensures
        seed_parts(hex_encode(peer) + "@"@ + host_port + "/"@ + url) == Ok::<SeedParts, Seq<char>>(
            SeedParts { peer, host_port, url },
        ),
        seed_parts(hex_encode(peer) + "@"@ + host_port) == Ok::<SeedParts, Seq<char>>(
            SeedParts { peer, host_port, url: "tcp/"@ + host_port },
        ),
{
    reveal_strlit("@");
    reveal_strlit("/");
    let hex = hex_encode(peer);
    lemma_hex_encode_ascii(peer);
    assert(!hex.contains('@')) by {
        assert forall|i: int| 0 <= i < hex.len() implies hex[i] != '@' by {}
    }
    let rest = host_port + "/"@ + url;
    assert("@"@ =~= seq!['@']);
    assert("/"@ =~= seq!['/']);
    assert(hex + "@"@ + host_port + "/"@ + url =~= hex + seq!['@'] + rest);
    lemma_cut_once_at(hex, '@', rest);
    lemma_cut_once_at(host_port, '/', url);
    lemma_cut_once_at(hex, '@', host_port);
    lemma_cut_once_none(host_port, '/');
    lemma_hex_roundtrip(peer);
}

} // verus!
