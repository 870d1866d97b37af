//! The mDNS service record: what a peer advertises, and what is read from the
//! records of others.
use vstd::prelude::*;
use vstd::string::StringExecFns;
use vstd::utf8::{encode_utf8, is_ascii_chars};

use crate::config::prefixed;
use crate::discovery::types::{DiscoveredPeer, DiscoveryError, DiscoveryFault, PeerFind, SERVICE_TYPE};
use crate::hexcode::{hex_encode, lemma_hex_encode_ascii, lemma_hex_roundtrip};
use crate::peer::{parse_peer, PeerId, PeerIdError};
use crate::text::{ascii_lowercase, decimal, lowercase_is, stands_at};

verus! {

/// The `mdns_sd` crate's description of a service to be registered.
#[verifier::external_type_specification]
#[verifier::external_body]
pub struct ExServiceInfo(mdns_sd::ServiceInfo);

/// The pairs of name and value of a TXT record, in order.
pub type Txt = Seq<(Seq<char>, Seq<char>)>;

/// What a description of a service says.
pub struct ServiceRecord {
    /// The full name of the instance.
    pub fullname: Seq<char>,
    /// The name of the host.
    pub host: Seq<char>,
    pub port: u16,
    pub txt: Txt,
    /// Whether the addresses are those of this machine, and follow it.
    pub addr_auto: bool,
}

/// What a value of the `mdns_sd` crate says.
pub uninterp spec fn service_record(info: mdns_sd::ServiceInfo) -> ServiceRecord;

/// The pairs as they stand in contracts.
pub open spec fn txt_view(txt: Seq<(String, String)>) -> Txt {
    txt.map_values(|p: (String, String)| (p.0@, p.1@))
}

/// Whether the names are ASCII, without `=`, and distinct but for their case.
pub open spec fn txt_names_plain(txt: Txt) -> bool {
    &&& forall|i: int|
        0 <= i < txt.len() ==> is_ascii_chars((#[trigger] txt[i]).0) && !txt[i].0.contains('=')
    &&& forall|i: int, j: int|
        0 <= i < j < txt.len() ==> ascii_lowercase((#[trigger] txt[i]).0) != ascii_lowercase(
            (#[trigger] txt[j]).0,
        )
}

/// Whether each pair fits into the 255 bytes that a TXT record has for it.
pub open spec fn txt_fits(txt: Txt) -> bool {
    forall|i: int|
        0 <= i < txt.len() ==> encode_utf8((#[trigger] txt[i]).0).len() + 1 + encode_utf8(
            txt[i].1,
        ).len() <= 255
}

/// What is wrong with a pair that does not fit.
pub open spec fn too_long(pair: (Seq<char>, Seq<char>)) -> Seq<char> {
    "TXT property '"@ + pair.0 + "' has length "@ + decimal(
        encode_utf8(pair.0).len() + 1 + encode_utf8(pair.1).len(),
    ) + " bytes, exceeding the 255-byte limit"@
}

/// Whether `name` is one label of a domain name that needs no escape.
pub open spec fn plain_label(name: Seq<char>) -> bool {
    !name.contains('.') && !name.contains('\\')
}

/// Whether the service type `ty` has a subtype in it.
pub open spec fn has_subtype(ty: Seq<char>) -> bool {
    exists|i: int| 0 <= i <= ty.len() - 6 && #[trigger] ty.subrange(i, i + 6) == "._sub."@
}

/// Calls `mdns_sd::ServiceInfo::new` without an address, and then
/// `enable_addr_auto` on what it gives. The full name is the instance, a dot and
/// the type; the host, the port and the pairs are kept as they are. It fails
/// exactly where a pair does not fit, and then names the first such pair. Names
/// that it would escape, cut or refuse are left out.
#[verifier::external_body]
fn describe_service(
    ty: &str,
    instance: &str,
    host: &str,
    port: u16,
    txt: &Vec<(String, String)>,
) -> (r: Result<mdns_sd::ServiceInfo, String>)
    requires
        !has_subtype(ty@),
        plain_label(instance@),
        !".local.local."@.is_suffix_of(host@),
        txt_names_plain(txt_view(txt@)),
    ensures
        match r {
            Ok(info) => txt_fits(txt_view(txt@)) && service_record(info) == (ServiceRecord {
                fullname: instance@ + "."@ + ty@,
                host: host@,
                port,
                txt: txt_view(txt@),
                addr_auto: true,
            }),
            Err(e) => exists|i: int|
                0 <= i < txt@.len() && txt_fits(txt_view(txt@).take(i)) && !txt_fits(
                    txt_view(txt@).take(i + 1),
                ) && e@ == #[trigger] too_long(txt_view(txt@)[i]),
        },
{
    mdns_sd::ServiceInfo::new(ty, instance, host, "", port, &txt[..])
        .map(|info| info.enable_addr_auto())
        .map_err(|e| e.to_string())
}

/// The TXT record of a peer.
pub open spec fn local_txt(peer: Seq<u8>, url: Seq<char>) -> Txt {
    seq![("peer"@, hex_encode(peer)), ("zenoh"@, url)]
}

/// The instance name of a peer: its short form, so that it is stable and
/// unique across reboots.
pub open spec fn instance_of(peer: Seq<u8>) -> Seq<char> {
    "furcate-"@ + hex_encode(peer).take(6)
}

/// What comes of describing the local peer: the record, or what is wrong with a
/// URL that is too long for a TXT record.
pub open spec fn local_described(peer: Seq<u8>, url: Seq<char>, port: u16) -> Result<
    ServiceRecord,
    Seq<char>,
> {
    if encode_utf8(url).len() <= 249 {
        Ok(
            ServiceRecord {
                fullname: instance_of(peer) + "."@ + SERVICE_TYPE@,
                host: instance_of(peer) + ".local."@,
                port,
                txt: local_txt(peer, url),
                addr_auto: true,
            },
        )
    } else {
        Err(too_long(("zenoh"@, url)))
    }
}

/// Describe the local peer for registration on mDNS. The instance is named by
/// the peer's short form, and the host by the instance. It fails exactly where
/// the URL is too long for a TXT record.
pub fn register_local(local_peer: PeerId, zenoh_url: &str, port: u16) -> (r: Result<
    mdns_sd::ServiceInfo,
    DiscoveryError,
>)
    ensures
        match local_described(local_peer@, zenoh_url@, port) {
            Ok(record) => r matches Ok(info) && service_record(info) == record,
            Err(cause) => r matches Err(e) && e@ == DiscoveryFault::Mdns(
                "ServiceInfo: "@ + cause,
            ),
        },
{
    let instance = prefixed("furcate-", local_peer.short().as_str());
    let host = prefixed(instance.as_str(), ".local.");
    let mut txt: Vec<(String, String)> = Vec::new();
    txt.push(("peer".to_owned(), local_peer.to_hex()));
    txt.push(("zenoh".to_owned(), zenoh_url.to_owned()));
    let ghost pairs = local_txt(local_peer@, zenoh_url@);
    proof {
        assert(txt_view(txt@) =~= pairs);
        lemma_local_txt(local_peer@, zenoh_url@);
        lemma_local_names(local_peer@);
    }
    match describe_service(SERVICE_TYPE, instance.as_str(), host.as_str(), port, &txt) {
        Ok(info) => Ok(info),
        Err(e) => {
            proof {
                let i = choose|i: int|
                    0 <= i < pairs.len() && txt_fits(pairs.take(i)) && !txt_fits(
                        pairs.take(i + 1),
                    ) && e@ == #[trigger] too_long(pairs[i]);
                assert(pairs.take(2) =~= pairs);
            }
            Err(DiscoveryError::Mdns(prefixed("ServiceInfo: ", e.as_str())))
        },
    }
}

/// The names of the local TXT record are plain, and only its URL can be too
/// long.
proof fn lemma_local_txt(peer: Seq<u8>, url: Seq<char>)
    requires
        peer.len() == 32,
    ensures
        txt_names_plain(local_txt(peer, url)),
        txt_fits(local_txt(peer, url).take(1)),
        txt_fits(local_txt(peer, url)) <==> encode_utf8(url).len() <= 249,
{
    let txt = local_txt(peer, url);
    reveal_strlit("peer");
    reveal_strlit("zenoh");
    lemma_hex_encode_ascii(peer);
    vstd::utf8::is_ascii_chars_encode_utf8("peer"@);
    vstd::utf8::is_ascii_chars_encode_utf8("zenoh"@);
    assert(ascii_lowercase("peer"@).len() != ascii_lowercase("zenoh"@).len());
    assert(encode_utf8(txt[0].0).len() + 1 + encode_utf8(txt[0].1).len() <= 255);
    if txt_fits(txt) {
        assert(encode_utf8(txt[1].0).len() + 1 + encode_utf8(txt[1].1).len() <= 255);
    }
}

/// The names of the local service are plain.
proof fn lemma_local_names(peer: Seq<u8>)
    requires
        peer.len() == 32,
    ensures
        !has_subtype(SERVICE_TYPE@),
        plain_label(instance_of(peer)),
        !".local.local."@.is_suffix_of(instance_of(peer) + ".local."@),
{
    reveal_strlit("_furcate-mesh._tcp.local.");
    reveal_strlit("._sub.");
    reveal_strlit("furcate-");
    reveal_strlit(".local.");
    reveal_strlit(".local.local.");
    lemma_hex_encode_ascii(peer);
    let ty = SERVICE_TYPE@;
    assert forall|i: int| 0 <= i <= ty.len() - 6 implies #[trigger] ty.subrange(i, i + 6)
        != "._sub."@ by {
        let part = ty.subrange(i, i + 6);
        if part == "._sub."@ {
            assert(part[0] == '.' && part[1] == '_' && part[2] == 's');
            assert(ty[i] == '.' && ty[i + 1] == '_' && ty[i + 2] == 's');
        }
    }
    let name = instance_of(peer);
    assert forall|i: int| 0 <= i < name.len() implies name[i] != '.' && name[i] != '\\' by {
        if i >= 8 {
            assert(name[i] == hex_encode(peer)[i - 8]);
        }
    }
    let host = name + ".local."@;
    let suffix = ".local.local."@;
    if suffix.is_suffix_of(host) {
        assert(host.subrange(host.len() - 13, host.len() as int)[0] == suffix[0]);
        assert(host[name.len() - 6] == '.');
    }
}

// ---------------------------------------------------------------------------
// Reading the records of others
// ---------------------------------------------------------------------------

/// The value of the last pair whose name, made small, is `name`.
pub open spec fn txt_value(txt: Txt, name: Seq<char>) -> Option<Seq<char>>
    decreases txt.len(),
{
    if txt.len() == 0 {
        None
    } else if ascii_lowercase(txt.last().0) == name {
        Some(txt.last().1)
    } else {
        txt_value(txt.drop_last(), name)
    }
}

/// The peer that a resolved service stands for: its TXT record has to carry
/// both a peer address and a URL, and it has to have a socket address.
pub open spec fn resolved<A>(txt: Txt, addr: Option<A>) -> Option<PeerFind<A>> {
    match (txt_value(txt, "peer"@), txt_value(txt, "zenoh"@), addr) {
        (Some(hex), Some(url), Some(addr)) => match parse_peer(hex) {
            Ok(peer) => Some(PeerFind { peer, addr, url, via_mdns: true }),
            Err(_) => None,
        },
        _ => None,
    }
}

fn find_value<'a>(txt: &'a Vec<(String, String)>, name: &str) -> (r: Option<&'a str>)
    ensures
        match r {
            Some(v) => txt_value(txt_view(txt@), name@) == Some(v@),
            None => txt_value(txt_view(txt@), name@) is None,
        },
{
    let ghost all = txt_view(txt@);
    let mut i: usize = txt.len();
    assert(all.take(i as int) =~= all);
    while i > 0
        invariant
            i <= txt@.len(),
            all == txt_view(txt@),
            txt_value(all, name@) == txt_value(all.take(i as int), name@),
        decreases i,
    {
        let p = &txt[i - 1];
        assert(all.take(i as int).last() == (p.0@, p.1@));
        assert(all.take(i as int).drop_last() =~= all.take(i - 1));
        if lowercase_is(p.0.as_str(), name) {
            return Some(p.1.as_str());
        }
        i = i - 1;
    }
    None
}

/// Convert a resolved mDNS service into a [`DiscoveredPeer`] if its TXT record
/// carries the expected `peer=<hex>` and `zenoh=<url>` pairs and an address is
/// present.
pub fn resolve_to_peer<A>(txt: &Vec<(String, String)>, addr: Option<A>) -> (r: Option<
    DiscoveredPeer<A>,
>)
    ensures
        match r {
            Some(p) => resolved(txt_view(txt@), addr) == Some(p@),
            None => resolved(txt_view(txt@), addr) is None,
        },
{
    match (find_value(txt, "peer"), find_value(txt, "zenoh"), addr) {
        (Some(hex), Some(url), Some(addr)) => match PeerId::from_hex(hex) {
            Ok(peer) => Some(
                DiscoveredPeer { peer, addr, zenoh_url: url.to_owned(), via_mdns: true },
            ),
            Err(_) => None,
        },
        _ => None,
    }
}

/// Law: the record that is registered for the local peer carries the port it is
/// given, the whole address of the peer and the whole URL, and nothing else, under a
/// name that begins with the first six digits of the address; the addresses follow
/// the machine. It is made exactly where the URL has at most 249 bytes.
pub proof fn law_record_of_the_local_peer(
    peer: PeerId,
    url: &str,
    port: u16,
    r: Result<mdns_sd::ServiceInfo, DiscoveryError>,
)
    requires
        call_ensures(register_local, (peer, url, port), r),
    ensures
        r is Ok <==> encode_utf8(url@).len() <= 249,
        r matches Ok(info) ==> {
            let record = service_record(info);
            &&& record.port == port
            &&& record.txt.len() == 2
            &&& record.txt[0] == ("peer"@, hex_encode(peer@))
            &&& record.txt[1] == ("zenoh"@, url@)
            &&& record.addr_auto
            &&& record.fullname.len() == 40
            &&& stands_at(record.fullname, 0, "furcate-"@)
            &&& record.fullname.subrange(8, 14) == hex_encode(peer@).take(6)
            &&& stands_at(record.fullname, 14, "._furcate-mesh._tcp.local."@)
            &&& record.host.len() == 21
            &&& record.host.take(14) == record.fullname.take(14)
            &&& stands_at(record.host, 14, ".local."@)
        },
        r matches Err(e) ==> {
            &&& e@ is Mdns
            &&& stands_at(e@->Mdns_0, 0, "ServiceInfo: "@)
        },
{
    reveal_strlit("furcate-");
    reveal_strlit(".");
    reveal_strlit(".local.");
    reveal_strlit("_furcate-mesh._tcp.local.");
    reveal_strlit("._furcate-mesh._tcp.local.");
    reveal_strlit("ServiceInfo: ");
    lemma_hex_encode_ascii(peer@);
    match r {
        Ok(info) => {
            let record = service_record(info);
            assert(record.fullname.skip(0).take(8) =~= "furcate-"@);
            assert(record.fullname.subrange(8, 14) =~= hex_encode(peer@).take(6));
            assert(record.fullname.skip(14).take(26) =~= "._furcate-mesh._tcp.local."@);
            assert(record.host.take(14) =~= record.fullname.take(14));
            assert(record.host.skip(14).take(7) =~= ".local."@);
        },
        Err(e) => {
            assert(e@->Mdns_0.skip(0).take(13) =~= "ServiceInfo: "@);
        },
    }
}

/// Whether `i` is the last pair of `txt` whose name is `name` but for the case of
/// its ASCII letters.
pub open spec fn last_pair(txt: Seq<(String, String)>, name: Seq<char>, i: int) -> bool {
    &&& 0 <= i < txt.len()
    &&& ascii_lowercase(txt[i].0@) == name
    &&& forall|k: int| i < k < txt.len() ==> ascii_lowercase((#[trigger] txt[k]).0@) != name
}

proof fn lemma_txt_value(txt: Seq<(String, String)>, name: Seq<char>)
    ensures
        match txt_value(txt_view(txt), name) {
            Some(v) => exists|i: int| #[trigger] last_pair(txt, name, i) && txt[i].1@ == v,
            None => forall|i: int|
                0 <= i < txt.len() ==> ascii_lowercase((#[trigger] txt[i]).0@) != name,
        },
    decreases txt.len(),
{
    let all = txt_view(txt);
    if txt.len() > 0 {
        let n = txt.len() - 1;
        let rest = txt.drop_last();
        assert(txt_view(rest) =~= all.drop_last());
        assert(all.last() == (txt[n].0@, txt[n].1@));
        lemma_txt_value(rest, name);
        if ascii_lowercase(txt[n].0@) == name {
            assert(last_pair(txt, name, n));
        } else if let Some(v) = txt_value(txt_view(rest), name) {
            let i = choose|i: int| #[trigger] last_pair(rest, name, i) && rest[i].1@ == v;
            assert forall|k: int| i < k < txt.len() implies ascii_lowercase(
                (#[trigger] txt[k]).0@,
            ) != name by {
                if k < n {
                    assert(rest[k] == txt[k]);
                }
            }
            assert(last_pair(txt, name, i));
        } else {
            assert forall|i: int| 0 <= i < txt.len() implies ascii_lowercase(
                (#[trigger] txt[i]).0@,
            ) != name by {
                if i < n {
                    assert(rest[i] == txt[i]);
                }
            }
        }
    }
}

/// Law: which peer a resolved service stands for. Its address is read from the last
/// pair named `peer` and its URL is the last one named `zenoh`, in letters of either
/// case; its socket address is the one that was resolved; and it counts as found on
/// mDNS. It stands for none exactly where one of the three is missing or the address
/// is none.
pub proof fn law_which_peer_a_service_is<A>(
    txt: Vec<(String, String)>,
    addr: Option<A>,
    r: Option<DiscoveredPeer<A>>,
)
    requires
        call_ensures(resolve_to_peer::<A>, (&txt, addr), r),
    ensures
        r matches Some(p) ==> {
            &&& p.via_mdns
            &&& addr == Some(p.addr)
            &&& exists|i: int| #[trigger]
                last_pair(txt@, "peer"@, i) && parse_peer(txt@[i].1@) == Ok::<
                    Seq<u8>,
                    PeerIdError,
                >(p.peer@)
            &&& exists|j: int| #[trigger]
                last_pair(txt@, "zenoh"@, j) && txt@[j].1@ == p.zenoh_url@
        },
        r is None ==> {
            ||| addr is None
            ||| forall|i: int|
                0 <= i < txt@.len() ==> ascii_lowercase((#[trigger] txt@[i]).0@) != "peer"@
            ||| forall|i: int|
                0 <= i < txt@.len() ==> ascii_lowercase((#[trigger] txt@[i]).0@) != "zenoh"@
            ||| exists|i: int| #[trigger]
                last_pair(txt@, "peer"@, i) && parse_peer(txt@[i].1@) is Err
        },
{
    lemma_txt_value(txt@, "peer"@);
    lemma_txt_value(txt@, "zenoh"@);
}

/// Law: what a peer advertises is what the others read: its address and where
/// it listens.
pub proof fn law_advertised_peer_is_resolved<A>(peer: Seq<u8>, url: Seq<char>, addr: A)
    requires
        peer.len() == 32,
    ensures
        resolved(local_txt(peer, url), Some(addr)) == Some(
            PeerFind { peer, addr, url, via_mdns: true },
        ),
{
    let txt = local_txt(peer, url);
    reveal_strlit("peer");
    reveal_strlit("zenoh");
    assert(ascii_lowercase("peer"@) =~= "peer"@);
    assert(ascii_lowercase("zenoh"@) =~= "zenoh"@);
    assert("peer"@.len() != "zenoh"@.len());
    assert(txt.drop_last().last() == txt[0]);
    reveal_with_fuel(txt_value, 3);
    lemma_hex_roundtrip(peer);
}

} // verus!
