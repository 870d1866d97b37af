//! What the command line shows: who was seen on the mesh and which models were
//! announced, and what it publishes itself.
use vstd::prelude::*;
use vstd::string::StringExecFns;

use crate::clock::HybridLogicalClock;
use crate::config::prefixed;
use crate::event::{Load, MeshEvent};
use crate::hexcode::hex_encode;
use crate::peer::{peer_less, PeerId};
use crate::table::{ascending, entries_of, law_places_tell_keys_apart, listed, row_at, ModelKey, Ranked, SortedTable};
use crate::text::{decimal, law_decimal_writes_the_number, lemma_stands_between, numeral_value, stands_at, to_decimal};
use crate::transport::TransportError;

verus! {

// ---------------------------------------------------------------------------
// Listening for a while
// ---------------------------------------------------------------------------

/// What happens while listening to a subscription for a fixed time.
pub enum Observed {
    /// An item arrived: an event, or a payload that is none.
    Item(Result<MeshEvent, TransportError>),
    /// The subscription has ended.
    Ended,
    /// The time was up while waiting.
    TimedOut,
    /// The time is up.
    Expired,
}

/// Whether to listen on.
pub open spec fn listens_on(event: Observed) -> bool {
    event is Item
}

/// When a peer was last heard, and its load then.
#[derive(Clone, Copy, Debug, PartialEq, Eq, Structural)]
pub struct PeerSighting {
    pub load: Load,
    /// Seconds since the UNIX epoch.
    pub last_seen: u64,
}

/// What was announced of a model.
#[derive(Clone, Debug)]
pub struct ModelSighting {
    pub digest: String,
    pub format: String,
}

/// The line above a list of peers.
pub const PEERS_HEADER: &'static str =
    "PEER                                                             LOAD  LAST_SEEN";

/// The line above a list of models.
pub const MODELS_HEADER: &'static str = "PEER  MODEL  FORMAT  DIGEST";

/// The peers heard while listening for heartbeats.
pub struct PeersSeen {
    table: SortedTable<PeerId, PeerSighting>,
}

/// What there is to show of the peers.
pub enum PeersReport<'a> {
    /// One line: nobody was heard.
    Nobody(String),
    /// One row for each peer, below [`PEERS_HEADER`].
    Rows(&'a Vec<(PeerId, PeerSighting)>),
}

impl PeersSeen {
    /// The last sighting of each peer, by the place of its address.
    pub closed spec fn entries(self) -> Map<Seq<int>, PeerSighting> {
        self.table.entries()
    }

    /// The rows are in the order of the addresses.
    pub closed spec fn wf(self) -> bool {
        self.table.wf()
    }

    /// Nobody was heard yet.
    #[must_use]
    pub fn new() -> (r: Self)
        ensures
            r.wf(),
            r.entries() == Map::<Seq<int>, PeerSighting>::empty(),
    {
        PeersSeen { table: SortedTable::new() }
    }

    /// Take note of what happened at `now_secs`. A heartbeat replaces what was
    /// known of its peer; other items are passed over. The result tells whether
    /// to listen on.
    pub fn observe(&mut self, event: Observed, now_secs: u64) -> (r: bool)
        requires
            old(self).wf(),
        ensures
            final(self).wf(),
            r == listens_on(event),
            final(self).entries() == match event {
                Observed::Item(Ok(MeshEvent::Heartbeat { peer, load, .. })) => old(
                    self,
                ).entries().insert(peer.rank(), PeerSighting { load, last_seen: now_secs }),
                _ => old(self).entries(),
            },
    {
        match event {
            Observed::Item(Ok(MeshEvent::Heartbeat { peer, load, .. })) => {
                self.table.insert(peer, PeerSighting { load, last_seen: now_secs });
                true
            },
            Observed::Item(_) => true,
            _ => false,
        }
    }

    /// What there is to show after listening for `for_secs` seconds.
    #[must_use]
    pub fn report(&self, for_secs: u64) -> (r: PeersReport<'_>)
        requires
            self.wf(),
        ensures
            match r {
                PeersReport::Nobody(line) => self.entries() == Map::<
                    Seq<int>,
                    PeerSighting,
                >::empty() && line@ == "(no peers seen in "@ + decimal(for_secs as nat) + "s)"@,
                PeersReport::Rows(rows) => rows@.len() > 0 && ascending(rows@) && entries_of(rows@)
                    == self.entries(),
            },
    {
        let rows = self.table.rows();
        if rows.len() == 0 {
            proof {
                assert(entries_of(rows@) =~= Map::<Seq<int>, PeerSighting>::empty());
            }
            let mut line = prefixed("(no peers seen in ", to_decimal(for_secs).as_str());
            line.append("s)");
            PeersReport::Nobody(line)
        } else {
            PeersReport::Rows(rows)
        }
    }
}

/// The models heard of while listening for announcements.
pub struct ModelsSeen {
    table: SortedTable<ModelKey, ModelSighting>,
}

/// The line for a model of a peer.
pub open spec fn model_line(row: (ModelKey, ModelSighting)) -> Seq<char> {
    hex_encode(row.0.peer@) + "  "@ + row.0.name@ + "  "@ + row.1.format@ + "  "@ + row.1.digest@
}

/// `lines` show `rows`, in order, below the header.
pub open spec fn shows(lines: Seq<String>, rows: Seq<(ModelKey, ModelSighting)>) -> bool {
    &&& lines.len() == rows.len() + 1
    &&& lines[0]@ == MODELS_HEADER@
    &&& forall|i: int| 0 <= i < rows.len() ==> lines[i + 1]@ == model_line(#[trigger] rows[i])
}

impl ModelsSeen {
    /// The last announcement of each model, by the place of its peer and name.
    pub closed spec fn entries(self) -> Map<Seq<int>, ModelSighting> {
        self.table.entries()
    }

    /// The rows are in the order of the addresses and names.
    pub closed spec fn wf(self) -> bool {
        self.table.wf()
    }

    /// Nothing was heard yet.
    #[must_use]
    pub fn new() -> (r: Self)
        ensures
            r.wf(),
            r.entries() == Map::<Seq<int>, ModelSighting>::empty(),
    {
        ModelsSeen { table: SortedTable::new() }
    }

    /// Take note of what happened. An announcement replaces what was known of
    /// its model at its peer; other items are passed over. The result tells
    /// whether to listen on.
    pub fn observe(&mut self, event: Observed) -> (r: bool)
        requires
            old(self).wf(),
        ensures
            final(self).wf(),
            r == listens_on(event),
            match event {
                Observed::Item(
                    Ok(MeshEvent::ModelAnnounce { peer, model_name, digest_blake3, format, .. }),
                ) => final(self).entries() == old(self).entries().insert(
                    (ModelKey { peer, name: model_name }).rank(),
                    ModelSighting { digest: digest_blake3, format },
                ),
                _ => final(self).entries() == old(self).entries(),
            },
    {
        match event {
            Observed::Item(
                Ok(MeshEvent::ModelAnnounce { peer, model_name, digest_blake3, format, .. }),
            ) => {
                self.table.insert(
                    ModelKey { peer, name: model_name },
                    ModelSighting { digest: digest_blake3, format },
                );
                true
            },
            Observed::Item(_) => true,
            _ => false,
        }
    }

    /// The lines to show after listening for `for_secs` seconds.
    #[must_use]
    pub fn report(&self, for_secs: u64) -> (r: Vec<String>)
        requires
            self.wf(),
        ensures
            if self.entries() == Map::<Seq<int>, ModelSighting>::empty() {
                r@.len() == 1 && r@[0]@ == "(no model announcements in "@ + decimal(
                    for_secs as nat,
                ) + "s)"@
            } else {
                exists|rows: Seq<(ModelKey, ModelSighting)>| #[trigger]
                    ascending(rows) && entries_of(rows) == self.entries() && shows(r@, rows)
            },
    {
        let rows = self.table.rows();
        let mut lines: Vec<String> = Vec::new();
        if rows.len() == 0 {
            proof {
                assert(entries_of(rows@) =~= Map::<Seq<int>, ModelSighting>::empty());
            }
            let mut line = prefixed("(no model announcements in ", to_decimal(for_secs).as_str());
            line.append("s)");
            lines.push(line);
            return lines;
        }
        proof {
            assert(crate::table::listed(rows@, rows@[0].0.rank()));
            assert(entries_of(rows@).contains_key(rows@[0].0.rank()));
        }
        lines.push(MODELS_HEADER.to_owned());
        let mut i: usize = 0;
        while i < rows.len()
            invariant
                i <= rows@.len(),
                lines@.len() == i + 1,
                lines@[0]@ == MODELS_HEADER@,
                forall|j: int| 0 <= j < i ==> lines@[j + 1]@ == model_line(#[trigger] rows@[j]),
            decreases rows@.len() - i,
        {
            let (key, sighting) = &rows[i];
            let mut line = prefixed(key.peer.to_hex().as_str(), "  ");
            line.append(key.name.as_str());
            line.append("  ");
            line.append(sighting.format.as_str());
            line.append("  ");
            line.append(sighting.digest.as_str());
            assert(line@ == model_line(rows@[i as int]));
            lines.push(line);
            i = i + 1;
        }
        lines
    }
}

// ---------------------------------------------------------------------------
// Publishing
// ---------------------------------------------------------------------------

/// The heartbeat of a peer. Its load is idle until a peer measures it.
#[must_use]
pub fn heartbeat(peer: PeerId, clock: HybridLogicalClock) -> (r: MeshEvent)
    ensures
        r == (MeshEvent::Heartbeat { peer, clock, load: Load { bits: 0 } }),
{
    MeshEvent::Heartbeat { peer, clock, load: Load::idle() }
}

/// The announcement of a model that a peer hosts.
#[must_use]
pub fn model_announcement(
    peer: PeerId,
    clock: HybridLogicalClock,
    name: &str,
    digest: &str,
    format: &str,
) -> (r: MeshEvent)
    ensures
        r matches MeshEvent::ModelAnnounce { peer: p, clock: c, model_name, digest_blake3, format: f }
            && p == peer && c == clock && model_name@ == name@ && digest_blake3@ == digest@ && f@
            == format@,
{
    MeshEvent::ModelAnnounce {
        peer,
        clock,
        model_name: name.to_owned(),
        digest_blake3: digest.to_owned(),
        format: format.to_owned(),
    }
}

/// What to say when a model is hosted.
#[must_use]
pub fn pushed_message(name: &str, format: &str, digest: &str) -> (r: String)
    ensures
        r@ == "pushed "@ + name@ + " ("@ + format@ + ") digest="@ + digest@
            + "\nlistening for pulls \u{2014} Ctrl-C to stop"@,
{
    let mut r = prefixed("pushed ", name);
    r.append(" (");
    r.append(format);
    r.append(") digest=");
    r.append(digest);
    r.append("\nlistening for pulls \u{2014} Ctrl-C to stop");
    r
}

/// What to say when a model of `bytes` bytes has arrived at `path`.
#[must_use]
pub fn pulled_message(bytes: u64, path: &str) -> (r: String)
    ensures
        r@ == "pulled "@ + decimal(bytes as nat) + " bytes into "@ + path@,
{
    let mut r = prefixed("pulled ", to_decimal(bytes).as_str());
    r.append(" bytes into ");
    r.append(path);
    r
}

// ---------------------------------------------------------------------------
// Laws
// ---------------------------------------------------------------------------

/// Law: a heartbeat that is heard is listed, with the load it carries and the time it was
/// heard, whatever was known of its peer before, and nothing changes of any other peer.
/// The list has one row for each peer, in the order of the addresses.
pub proof fn law_heartbeat_is_listed(
    seen: &mut PeersSeen,
    peer: PeerId,
    clock: HybridLogicalClock,
    load: Load,
    now: u64,
    on: bool,
    for_secs: u64,
    report: PeersReport<'_>,
    other: PeerId,
)
    requires
        call_ensures(
            PeersSeen::observe,
            (seen, Observed::Item(Ok(MeshEvent::Heartbeat { peer, clock, load })), now),
            on,
        ),
        call_ensures(PeersSeen::report, (&*final(seen), for_secs), report),
    ensures
        on,
        report is Rows,
        ({
            let rows = report->Rows_0@;
            &&& exists|i: int|
                0 <= i < rows.len() && (#[trigger] rows[i]).0@ == peer@ && rows[i].1.load == load
                    && rows[i].1.last_seen == now
            &&& forall|i: int, j: int|
                0 <= i < j < rows.len() ==> peer_less(
                    (#[trigger] rows[i]).0@,
                    (#[trigger] rows[j]).0@,
                )
        }),
        other@ != peer@ ==> (final(seen).entries().contains_key(other.rank()) <==> old(
            seen,
        ).entries().contains_key(other.rank())),
        other@ != peer@ && old(seen).entries().contains_key(other.rank())
            ==> final(seen).entries()[other.rank()] == old(seen).entries()[other.rank()],
{
    let key = ModelKey { peer, name: arbitrary() };
    law_places_tell_keys_apart(other, peer, key, key);
    let all = final(seen).entries();
    assert(all.contains_key(peer.rank()));
    assert(report is Rows) by {
        if report is Nobody {
            assert(!Map::<Seq<int>, PeerSighting>::empty().contains_key(peer.rank()));
        }
    }
    let rows = report->Rows_0@;
    assert(entries_of(rows).contains_key(peer.rank()));
    assert(listed(rows, peer.rank()));
    let i = row_at(rows, peer.rank());
    assert(rows[i].0.rank() == peer.rank());
    law_places_tell_keys_apart(rows[i].0, peer, key, key);
    assert(entries_of(rows)[peer.rank()] == rows[i].1);
}

/// Law: what is no heartbeat changes nothing of the peers that were heard, and what is no
/// announcement nothing of the models. Listening goes on exactly while items arrive.
pub proof fn law_other_items_are_passed_over(
    peers: &mut PeersSeen,
    models: &mut ModelsSeen,
    event: Observed,
    now: u64,
    first: bool,
    second: bool,
)
    requires
        call_ensures(PeersSeen::observe, (peers, event, now), first),
        call_ensures(ModelsSeen::observe, (models, event), second),
    ensures
        first == second,
        first <==> event matches Observed::Item(_),
        !(event matches Observed::Item(Ok(MeshEvent::Heartbeat { .. })))
            ==> final(peers).entries() == old(peers).entries(),
        !(event matches Observed::Item(Ok(MeshEvent::ModelAnnounce { .. })))
            ==> final(models).entries() == old(models).entries(),
{
}

/// Law: a line of the list of models holds, in full and in this order, the address of the
/// peer, the name of the model, its format and its digest, two spaces apart.
pub proof fn law_what_a_line_shows(row: (ModelKey, ModelSighting))
    ensures
        ({
            let line = model_line(row);
            let name = row.0.name@;
            let format = row.1.format@;
            let digest = row.1.digest@;
            &&& line.len() == 70 + name.len() + format.len() + digest.len()
            &&& stands_at(line, 0, hex_encode(row.0.peer@))
            &&& line[64] == ' ' && line[65] == ' '
            &&& stands_at(line, 66, name)
            &&& line[66 + name.len() as int] == ' ' && line[67 + name.len() as int] == ' '
            &&& line[68 + (name.len() + format.len()) as int] == ' ' && line[69 + (name.len()
                + format.len()) as int] == ' '
            &&& stands_at(line, 68 + name.len(), format)
            &&& stands_at(line, 70 + name.len() + format.len(), digest)
        }),
{
    reveal_strlit("  ");
    let line = model_line(row);
    let hex = hex_encode(row.0.peer@);
    let name = row.0.name@;
    let format = row.1.format@;
    let digest = row.1.digest@;
    lemma_stands_between(Seq::empty(), hex, "  "@ + name + "  "@ + format + "  "@ + digest);
    assert(line =~= Seq::<char>::empty() + hex + ("  "@ + name + "  "@ + format + "  "@ + digest));
    lemma_stands_between(hex + "  "@, name, "  "@ + format + "  "@ + digest);
    assert(line =~= hex + "  "@ + name + ("  "@ + format + "  "@ + digest));
    lemma_stands_between(hex + "  "@ + name + "  "@, format, "  "@ + digest);
    assert(line =~= hex + "  "@ + name + "  "@ + format + ("  "@ + digest));
    lemma_stands_between(hex + "  "@ + name + "  "@ + format + "  "@, digest, Seq::empty());
}

/// Law: a model that is announced is listed below the header, with its peer, name, format
/// and digest, whatever was announced of it before; and nothing changes of any other model
/// of any peer. Each model of each peer has one line.
pub proof fn law_announced_model_is_listed(
    seen: &mut ModelsSeen,
    peer: PeerId,
    clock: HybridLogicalClock,
    name: &str,
    digest: &str,
    format: &str,
    event: MeshEvent,
    on: bool,
    for_secs: u64,
    lines: Vec<String>,
    other: ModelKey,
)
    requires
        call_ensures(model_announcement, (peer, clock, name, digest, format), event),
        call_ensures(ModelsSeen::observe, (seen, Observed::Item(Ok(event))), on),
        call_ensures(ModelsSeen::report, (&*final(seen), for_secs), lines),
    ensures
        on,
        lines@.len() >= 2,
        lines@[0]@ == "PEER  MODEL  FORMAT  DIGEST"@,
        exists|i: int|
            1 <= i < lines@.len() && {
                let line = (#[trigger] lines@[i])@;
                &&& line.len() == 70 + name@.len() + format@.len() + digest@.len()
                &&& stands_at(line, 0, hex_encode(peer@))
                &&& stands_at(line, 66, name@)
                &&& stands_at(line, 68 + name@.len(), format@)
                &&& stands_at(line, 70 + name@.len() + format@.len(), digest@)
            },
        other.peer@ != peer@ || other.name@ != name@ ==> (final(seen).entries().contains_key(
            other.rank(),
        ) <==> old(seen).entries().contains_key(other.rank())),
        (other.peer@ != peer@ || other.name@ != name@) && old(seen).entries().contains_key(
            other.rank(),
        ) ==> final(seen).entries()[other.rank()] == old(seen).entries()[other.rank()],
{
    let key = ModelKey { peer, name: event->model_name };
    let rank = key.rank();
    law_places_tell_keys_apart(peer, peer, other, key);
    let all = final(seen).entries();
    assert(all.contains_key(rank));
    assert(!Map::<Seq<int>, ModelSighting>::empty().contains_key(rank));
    let rows = choose|rows: Seq<(ModelKey, ModelSighting)>| #[trigger]
        ascending(rows) && entries_of(rows) == all && shows(lines@, rows);
    assert(entries_of(rows).contains_key(rank));
    assert(listed(rows, rank));
    let i = row_at(rows, rank);
    assert(rows[i].0.rank() == rank);
    law_places_tell_keys_apart(peer, peer, rows[i].0, key);
    assert(entries_of(rows)[rank] == rows[i].1);
    law_what_a_line_shows(rows[i]);
    assert(lines@[i + 1]@ == model_line(rows[i]));
}

/// Law: where nothing was heard, one line says so and for how long was listened.
pub proof fn law_silence_is_told(
    peers: PeersSeen,
    models: ModelsSeen,
    for_secs: u64,
    first: PeersReport<'_>,
    second: Vec<String>,
)
    requires
        call_ensures(PeersSeen::new, (), peers),
        call_ensures(ModelsSeen::new, (), models),
        call_ensures(PeersSeen::report, (&peers, for_secs), first),
        call_ensures(ModelsSeen::report, (&models, for_secs), second),
    ensures
        first matches PeersReport::Nobody(line) && line@.len() > 20 && numeral_value(
            line@.subrange(18, line@.len() - 2),
        ) == for_secs && stands_at(line@, 0, "(no peers seen in "@) && stands_at(
            line@,
            (line@.len() - 2) as nat,
            "s)"@,
        ),
        second@.len() == 1 && second@[0]@.len() > 29 && numeral_value(
            second@[0]@.subrange(27, second@[0]@.len() - 2),
        ) == for_secs && stands_at(second@[0]@, 0, "(no model announcements in "@) && stands_at(
            second@[0]@,
            (second@[0]@.len() - 2) as nat,
            "s)"@,
        ),
{
    reveal_strlit("(no peers seen in ");
    reveal_strlit("(no model announcements in ");
    reveal_strlit("s)");
    law_decimal_writes_the_number(for_secs as nat);
    let text = decimal(for_secs as nat);
    lemma_stands_between("(no peers seen in "@, text, "s)"@);
    lemma_stands_between("(no model announcements in "@, text, "s)"@);
    if let PeersReport::Rows(rows) = first {
        assert(listed(rows@, rows@[0].0.rank()));
        assert(entries_of(rows@).contains_key(rows@[0].0.rank()));
    }
    if let PeersReport::Nobody(line) = first {
        assert(line@.subrange(18, line@.len() - 2) =~= text);
    }
    assert(second@[0]@.subrange(27, second@[0]@.len() - 2) =~= text);
}

/// Law: a peer publishes its own address and clock, with no load until it measures one; a
/// model is announced with exactly the name, digest and format it was pushed with.
pub proof fn law_what_is_published(
    peer: PeerId,
    clock: HybridLogicalClock,
    beat: MeshEvent,
    name: &str,
    digest: &str,
    format: &str,
    model: MeshEvent,
)
    requires
        call_ensures(heartbeat, (peer, clock), beat),
        call_ensures(model_announcement, (peer, clock, name, digest, format), model),
    ensures
        beat matches MeshEvent::Heartbeat { peer: p, clock: c, load } && p == peer && c == clock
            && load.bits == 0,
        model matches MeshEvent::ModelAnnounce { peer: p, clock: c, model_name, digest_blake3, format: f }
            && p == peer && c == clock && model_name@ == name@ && digest_blake3@ == digest@ && f@
            == format@,
{
}

/// Law: what is said of a model that was pushed holds its whole name, format and digest,
/// and of one that was pulled its size and its whole path.
pub proof fn law_messages_hold_everything(
    name: &str,
    format: &str,
    digest: &str,
    pushed: String,
    bytes: u64,
    path: &str,
    pulled: String,
)
    requires
        call_ensures(pushed_message, (name, format, digest), pushed),
        call_ensures(pulled_message, (bytes, path), pulled),
    ensures
        stands_at(pushed@, 0, "pushed "@),
        stands_at(pushed@, 7, name@),
        stands_at(pushed@, 7 + name@.len(), " ("@ + format@ + ") digest="@ + digest@),
        stands_at(
            pushed@,
            18 + name@.len() + format@.len() + digest@.len(),
            "\nlistening for pulls \u{2014} Ctrl-C to stop"@,
        ),
        stands_at(pulled@, 0, "pulled "@),
        pulled@.len() > 12 + path@.len() && stands_at(
            pulled@,
            (pulled@.len() - path@.len() - 12) as nat,
            " bytes into "@,
        ),
        pulled@.len() > 19 + path@.len(),
        numeral_value(pulled@.subrange(7, pulled@.len() - 12 - path@.len())) == bytes,
        stands_at(pulled@, (pulled@.len() - path@.len()) as nat, path@),
{
    reveal_strlit("pushed ");
    reveal_strlit(" (");
    reveal_strlit(") digest=");
    reveal_strlit("pulled ");
    reveal_strlit(" bytes into ");
    let rest = "\nlistening for pulls \u{2014} Ctrl-C to stop"@;
    let head = "pushed "@;
    let middle = " ("@ + format@ + ") digest="@ + digest@;
    lemma_stands_between(head, name@, middle + rest);
    assert(pushed@ =~= head + name@ + (middle + rest));
    lemma_stands_between(head + name@, middle, rest);
    assert(pushed@ =~= head + name@ + middle + rest);
    law_decimal_writes_the_number(bytes as nat);
    let text = decimal(bytes as nat);
    assert(pulled@.subrange(7, pulled@.len() - 12 - path@.len()) =~= text);
    lemma_stands_between("pulled "@ + text + " bytes into "@, path@, Seq::empty());
    lemma_stands_between("pulled "@ + text, " bytes into "@, path@);
    lemma_stands_between("pulled "@, text, " bytes into "@ + path@);
    assert(pulled@ =~= "pulled "@ + text + (" bytes into "@ + path@));
}

} // verus!
