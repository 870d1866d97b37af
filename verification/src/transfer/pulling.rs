//! What holds of every pull, whatever the replies and the disk do.
use vstd::prelude::*;

use crate::hexcode::{hex_encode, lemma_hex_encode_ascii};
use crate::transfer::chunk::{chunk_count, chunk_end, chunk_of, chunks_of, lemma_chunk_bounds, lemma_chunk_cover, CHUNK_SIZE};
use crate::transfer::digest::{blake3_digest, digest_text};
use crate::transfer::error::TransferFault;
use crate::transfer::receiver::{complete, partial_of, pull_expects, pull_grows, pull_next, pull_start, PullInput, PullOutput, PullPhase, PullState, ReplyView};

verus! {

// ---------------------------------------------------------------------------
// A pull and the disk it works on
// ---------------------------------------------------------------------------

/// `file` after `bytes` were written at `offset`. A gap is filled with zeros.
pub open spec fn overlay(file: Seq<u8>, offset: int, bytes: Seq<u8>) -> Seq<u8> {
    if bytes.len() == 0 {
        file
    } else {
        let end = offset + bytes.len();
        Seq::new(
            if end > file.len() {
                end as nat
            } else {
                file.len()
            },
            |i: int|
                if offset <= i < end {
                    bytes[i - offset]
                } else if i < file.len() {
                    file[i]
                } else {
                    0u8
                },
        )
    }
}

/// A cache directory and the replies that are still to come.
#[verifier::ext_equal]
pub struct Disk {
    /// The finished file, if it is there.
    pub cache: Option<Seq<u8>>,
    /// The temporary file, if it is there.
    pub temp: Option<Seq<u8>>,
    /// How much of the temporary file was read back.
    pub read: int,
    pub replies: Seq<ReplyView>,
}

/// What an action does on a disk that does as it is told.
pub open spec fn pull_performed(d: Disk, action: PullOutput) -> (Disk, PullInput) {
    match action {
        PullOutput::Prepare => (d, PullInput::Prepared { cached: d.cache is Some }),
        PullOutput::OpenTemp => (
            Disk { temp: Some(Seq::empty()), ..d },
            PullInput::Opened,
        ),
        PullOutput::Query => (d, PullInput::Queried),
        PullOutput::Receive => if d.replies.len() == 0 {
            (d, PullInput::RepliesEnded)
        } else {
            (Disk { replies: d.replies.skip(1), ..d }, PullInput::Reply(d.replies[0]))
        },
        PullOutput::Write { offset, bytes } => (
            Disk { temp: Some(overlay(d.temp->0, offset as int, bytes)), ..d },
            PullInput::Wrote,
        ),
        PullOutput::Flush => (Disk { read: 0, ..d }, PullInput::Flushed),
        PullOutput::ReadTemp => {
            let file = d.temp->0;
            let end = if d.read + CHUNK_SIZE < file.len() {
                d.read + CHUNK_SIZE
            } else {
                file.len() as int
            };
            (Disk { read: end, ..d }, PullInput::Read(file.subrange(d.read, end)))
        },
        PullOutput::RemoveTemp => (Disk { temp: None, ..d }, PullInput::Removed),
        PullOutput::Rename => (Disk { cache: d.temp, temp: None, ..d }, PullInput::Renamed),
        PullOutput::Done(_) => (d, PullInput::Renamed),
    }
}

/// A pull together with its disk.
#[verifier::ext_equal]
pub struct PullWorld {
    pub state: PullState,
    pub action: PullOutput,
    pub disk: Disk,
}

/// One action is performed and the pull steps on.
pub open spec fn pull_tick(w: PullWorld) -> PullWorld {
    if w.action is Done {
        w
    } else {
        let (disk, event) = pull_performed(w.disk, w.action);
        let (state, action) = pull_next(w.state, event);
        PullWorld { state, action, disk }
    }
}

/// The pull after `n` actions.
pub open spec fn pull_after(w: PullWorld, n: nat) -> PullWorld
    decreases n,
{
    if n == 0 {
        w
    } else {
        pull_after(pull_tick(w), (n - 1) as nat)
    }
}

/// A pull that is about to start, with `cache` and `temp` on disk and `replies`
/// to come.
pub open spec fn pull_world(
    peer: Seq<u8>,
    digest: Seq<char>,
    cache: Option<Seq<u8>>,
    temp: Option<Seq<u8>>,
    replies: Seq<ReplyView>,
) -> PullWorld {
    PullWorld {
        state: pull_start(peer, digest),
        action: PullOutput::Prepare,
        disk: Disk { cache, temp, read: 0, replies },
    }
}

// ---------------------------------------------------------------------------
// A pull on a disk and a network that may fail
// ---------------------------------------------------------------------------

/// What goes wrong with an action.
pub enum Mishap {
    /// Nothing does.
    Nothing,
    /// The disk fails with `error`, and leaves `temp` of the temporary file. Where
    /// the temporary file is being removed, it stays.
    Disk { error: std::io::Error, temp: Option<Seq<u8>> },
    /// The query cannot be sent.
    Query(Seq<char>),
}

/// Whether the disk can fail at an action, so that the pull is told.
pub open spec fn on_disk(action: PullOutput) -> bool {
    action is Prepare || action is OpenTemp || action is Write || action is Flush
        || action is ReadTemp || action is Rename
}

/// What an action does where `mishap` goes wrong with it.
pub open spec fn pull_attempted(d: Disk, action: PullOutput, mishap: Mishap) -> (Disk, PullInput) {
    match mishap {
        Mishap::Disk { error, temp } => if on_disk(action) {
            (Disk { temp, ..d }, PullInput::IoFailed(error))
        } else if action is RemoveTemp {
            (d, PullInput::Removed)
        } else {
            pull_performed(d, action)
        },
        Mishap::Query(cause) => if action is Query {
            (d, PullInput::QueryFailed(cause))
        } else {
            pull_performed(d, action)
        },
        Mishap::Nothing => pull_performed(d, action),
    }
}

/// One action is attempted and the pull steps on.
pub open spec fn pull_try(w: PullWorld, mishap: Mishap) -> PullWorld {
    if w.action is Done {
        w
    } else {
        let (disk, event) = pull_attempted(w.disk, w.action, mishap);
        let (state, action) = pull_next(w.state, event);
        PullWorld { state, action, disk }
    }
}

/// The pull after one action for each of `mishaps`, with which that goes wrong.
pub open spec fn pull_under(w: PullWorld, mishaps: Seq<Mishap>) -> PullWorld
    decreases mishaps.len(),
{
    if mishaps.len() == 0 {
        w
    } else {
        pull_under(pull_try(w, mishaps[0]), mishaps.skip(1))
    }
}

// ---------------------------------------------------------------------------
// Nothing unverified enters the cache
// ---------------------------------------------------------------------------

spec fn guarded(w: PullWorld, digest: Seq<char>) -> bool {
    &&& w.state.digest == digest
    &&& w.state.phase !is Finished ==> w.disk.cache is None
    &&& match w.state.phase {
        PullPhase::Preparing => w.action is Prepare && w.state.hashed.len() == 0,
        PullPhase::Opening => w.action is OpenTemp && w.state.hashed.len() == 0,
        PullPhase::Querying => w.action is Query && w.disk.temp is Some && w.state.hashed.len()
            == 0,
        PullPhase::Receiving => w.action is Receive && w.disk.temp is Some && w.state.hashed.len()
            == 0,
        PullPhase::Writing { .. } => w.action is Write && w.disk.temp is Some
            && w.state.hashed.len() == 0,
        PullPhase::Flushing => w.action is Flush && w.disk.temp is Some && w.state.hashed.len()
            == 0,
        PullPhase::Hashing => {
            &&& w.action is ReadTemp
            &&& w.disk.temp is Some
            &&& 0 <= w.disk.read <= w.disk.temp->0.len()
            &&& w.state.hashed == w.disk.temp->0.take(w.disk.read)
        },
        PullPhase::Removing(_) => w.action is RemoveTemp,
        PullPhase::Renaming => {
            &&& w.action is Rename
            &&& w.disk.temp == Some(w.state.hashed)
            &&& digest_text(w.state.hashed) == digest
        },
        PullPhase::Finished => {
            &&& w.action is Done
            &&& w.action->Done_0 is Ok <==> w.disk.cache is Some
            &&& w.disk.cache matches Some(file) ==> digest_text(file) == digest
        },
    }
}

proof fn lemma_guarded_try(w: PullWorld, digest: Seq<char>, mishap: Mishap)
    requires
        guarded(w, digest),
    ensures
        guarded(pull_try(w, mishap), digest),
{
    let next = pull_try(w, mishap);
    match w.state.phase {
        PullPhase::Hashing => {
            if mishap !is Disk {
                let file = w.disk.temp->0;
                let end = next.disk.read;
                assert(file.take(w.disk.read) + file.subrange(w.disk.read, end) =~= file.take(end));
                assert(file.take(file.len() as int) =~= file);
            }
        },
        PullPhase::Flushing => {
            assert(w.state.hashed =~= w.disk.temp->0.take(0));
        },
        _ => {},
    }
}

proof fn lemma_guarded(w: PullWorld, digest: Seq<char>, mishaps: Seq<Mishap>)
    requires
        guarded(w, digest),
    ensures
        guarded(pull_under(w, mishaps), digest),
    decreases mishaps.len(),
{
    if mishaps.len() > 0 {
        lemma_guarded_try(w, digest, mishaps[0]);
        lemma_guarded(pull_try(w, mishaps[0]), digest, mishaps.skip(1));
    }
}

/// Law: whatever replies come and whatever fails, a file is in the cache only if
/// its BLAKE3 hash is the digest that was asked for, and a pull reports success
/// only if such a file is there.
pub proof fn law_only_the_digest_enters_the_cache(
    peer: Seq<u8>,
    digest: Seq<char>,
    temp: Option<Seq<u8>>,
    replies: Seq<ReplyView>,
    mishaps: Seq<Mishap>,
)
    ensures
        ({
            let w = pull_under(pull_world(peer, digest, None, temp, replies), mishaps);
            &&& w.disk.cache matches Some(file) ==> digest_text(file) == digest
            &&& w.action == PullOutput::Done(Ok::<(), TransferFault>(())) ==> w.disk.cache is Some
        }),
{
    lemma_guarded(pull_world(peer, digest, None, temp, replies), digest, mishaps);
}

/// Law: a pull that reports an error, of whatever kind, has put nothing into the
/// cache: bad or missing replies, a query that could not be sent, and a disk that
/// failed all leave it without an entry.
pub proof fn law_failed_pull_caches_nothing(
    peer: Seq<u8>,
    digest: Seq<char>,
    temp: Option<Seq<u8>>,
    replies: Seq<ReplyView>,
    mishaps: Seq<Mishap>,
)
    ensures
        ({
            let w = pull_under(pull_world(peer, digest, None, temp, replies), mishaps);
            w.action matches PullOutput::Done(Err(_)) ==> w.disk.cache is None
        }),
{
    lemma_guarded(pull_world(peer, digest, None, temp, replies), digest, mishaps);
}

/// Whether the pull ended in a way that leaves nothing behind: nobody replied,
/// the last chunk is missing, or what came is not what was asked for.
pub open spec fn cleans_up(action: PullOutput) -> bool {
    match action {
        PullOutput::Done(Err(TransferFault::PeerMissing { .. })) => true,
        PullOutput::Done(Err(TransferFault::MalformedReply(cause))) => cause
            == "stream ended without a final chunk"@,
        PullOutput::Done(Err(TransferFault::RootVerify { .. })) => true,
        _ => false,
    }
}

spec fn tidy(w: PullWorld) -> bool {
    &&& w.action is Done ==> w.state.phase is Finished
    &&& w.state.phase is Removing ==> w.action is RemoveTemp
    &&& w.state.phase is Finished ==> w.action is Done
    &&& cleans_up(w.action) ==> w.disk.temp is None
}

/// Law: whatever replies come, a pull that nobody replied to, that never saw the
/// last chunk, or that brought other bytes than were asked for leaves neither a
/// temporary file nor a cache entry.
pub proof fn law_failed_pull_leaves_nothing(
    peer: Seq<u8>,
    digest: Seq<char>,
    temp: Option<Seq<u8>>,
    replies: Seq<ReplyView>,
    n: nat,
)
    requires
        cleans_up(pull_after(pull_world(peer, digest, None, temp, replies), n).action),
    ensures
        pull_after(pull_world(peer, digest, None, temp, replies), n).disk.temp is None,
        pull_after(pull_world(peer, digest, None, temp, replies), n).disk.cache is None,
{
    lemma_tidy(pull_world(peer, digest, None, temp, replies), digest, n);
}

proof fn lemma_tidy(w: PullWorld, digest: Seq<char>, n: nat)
    requires
        guarded(w, digest),
        tidy(w),
    ensures
        guarded(pull_after(w, n), digest),
        tidy(pull_after(w, n)),
    decreases n,
{
    if n > 0 {
        let next = pull_tick(w);
        assert(next == pull_try(w, Mishap::Nothing));
        lemma_guarded_try(w, digest, Mishap::Nothing);
        reveal_strlit("stream ended without a final chunk");
        reveal_strlit("reply missing chunk-header attachment");
        reveal_strlit("decoding chunk header: ");
        if w.action is Receive && w.disk.replies.len() > 0 {
            let last = "stream ended without a final chunk"@;
            match w.disk.replies[0] {
                ReplyView::Undecodable(t) => {
                    assert(("decoding chunk header: "@ + t)[0] == 'd');
                    assert(last[0] == 's');
                },
                ReplyView::Bare => {
                    assert("reply missing chunk-header attachment"@[0] == 'r');
                    assert(last[0] == 's');
                },
                _ => {},
            }
        }
        assert(tidy(next));
        lemma_tidy(next, digest, (n - 1) as nat);
    }
}

/// Law: a temporary file never has the name of a cache entry.
pub proof fn law_partial_is_no_cache_entry(digest: Seq<char>, file: Seq<u8>)
    ensures
        partial_of(digest) != digest_text(file),
{
    reveal_strlit(".partial");
    let name = partial_of(digest);
    let i = digest.len() as int;
    assert(name[i] == '.');
    if name == digest_text(file) {
        lemma_hex_encode_ascii(blake3_digest(file));
        assert(name[i] == hex_encode(blake3_digest(file))[i]);
    }
}

/// Law: only chunks that their header vouches for are written, each where its
/// header says, and while the file is not complete a chunk that fails the check
/// ends the pull with its offset. A complete file takes no chunk at all: the pull
/// flushes it and asks for no reply.
pub proof fn law_only_verified_chunks_are_written(s: PullState, e: PullInput)
    requires
        pull_expects(s, e),
    ensures
        pull_next(s, e).1 matches PullOutput::Write { offset, bytes } ==> {
            &&& e matches PullInput::Reply(ReplyView::Chunk { header, payload })
            &&& header.chunk_hash == hex_encode(blake3_digest(payload))
            &&& offset == header.offset
            &&& bytes == payload
        },
        e matches PullInput::Reply(ReplyView::Chunk { header, payload }) && header.chunk_hash
            != hex_encode(blake3_digest(payload)) ==> pull_next(s, e).1 == PullOutput::Done(
            Err::<(), TransferFault>(
                TransferFault::ChunkVerify {
                    offset: e->Reply_0->Chunk_header.offset,
                },
            ),
        ),
        s.phase is Writing && e is Wrote ==> (pull_next(s, e).1 is Flush <==> complete(
            pull_next(s, e).0,
        )),
        s.phase is Writing && e is Wrote ==> (pull_next(s, e).1 is Receive <==> !complete(
            pull_next(s, e).0,
        )),
{
}

/// Law: an artefact that is cached already is not fetched again, and nothing on
/// disk changes.
pub proof fn law_cached_artefact_is_kept(
    peer: Seq<u8>,
    digest: Seq<char>,
    file: Seq<u8>,
    temp: Option<Seq<u8>>,
    replies: Seq<ReplyView>,
)
    ensures
        ({
            let w = pull_world(peer, digest, Some(file), temp, replies);
            &&& pull_after(w, 1).action == PullOutput::Done(Ok::<(), TransferFault>(()))
            &&& pull_after(w, 1).disk == w.disk
        }),
{
    reveal_with_fuel(pull_after, 2);
}

/// Law: where nobody replies, the pull reports which peer lacks which digest,
/// and no temporary file stays behind.
pub proof fn law_no_reply_is_peer_missing(
    peer: Seq<u8>,
    digest: Seq<char>,
    temp: Option<Seq<u8>>,
)
    ensures
        ({
            let w = pull_after(pull_world(peer, digest, None, temp, Seq::empty()), 5);
            &&& w.action == PullOutput::Done(
                Err::<(), TransferFault>(TransferFault::PeerMissing { peer, digest }),
            )
            &&& w.disk.cache is None
            &&& w.disk.temp is None
        }),
{
    reveal_with_fuel(pull_after, 6);
}

// ---------------------------------------------------------------------------
// A complete file takes no more replies
// ---------------------------------------------------------------------------

/// Two pulls are at the same point, and `b` has the replies `extra` to come after
/// those that `a` has to come.
pub open spec fn same_but_replies(a: PullWorld, b: PullWorld, extra: Seq<ReplyView>) -> bool {
    &&& a.state == b.state
    &&& a.action == b.action
    &&& a.disk.cache == b.disk.cache
    &&& a.disk.temp == b.disk.temp
    &&& a.disk.read == b.disk.read
    &&& a.disk.replies + extra == b.disk.replies
}

spec fn underway(w: PullWorld) -> bool {
    match w.state.phase {
        PullPhase::Preparing => w.action is Prepare && !complete(w.state),
        PullPhase::Opening => w.action is OpenTemp && !complete(w.state),
        PullPhase::Querying => w.action is Query && !complete(w.state),
        PullPhase::Receiving => w.action is Receive && !complete(w.state),
        PullPhase::Writing { .. } => w.action is Write && !complete(w.state),
        _ => false,
    }
}

spec fn settled(w: PullWorld) -> bool {
    &&& w.state.phase is Flushing || w.state.phase is Hashing || w.state.phase is Removing
        || w.state.phase is Renaming || w.state.phase is Finished
    &&& w.action is Flush || w.action is ReadTemp || w.action is RemoveTemp || w.action is Rename
        || w.action is Done
    &&& w.state.phase is Flushing ==> w.action is Flush
    &&& w.state.phase is Hashing ==> w.action is ReadTemp
    &&& w.state.phase is Removing ==> w.action is RemoveTemp
    &&& w.state.phase is Renaming ==> w.action is Rename
}

proof fn lemma_settled(w: PullWorld, n: nat)
    requires
        settled(w),
    ensures
        complete(pull_after(w, n).state) == complete(w.state),
    decreases n,
{
    if n > 0 {
        lemma_settled(pull_tick(w), (n - 1) as nat);
    }
}

proof fn lemma_lockstep(a: PullWorld, b: PullWorld, extra: Seq<ReplyView>, n: nat, m: nat)
    requires
        underway(a) || settled(a),
        same_but_replies(a, b, extra),
        complete(pull_after(a, n).state),
    ensures
        same_but_replies(pull_after(a, m), pull_after(b, m), extra),
    decreases m,
{
    if m > 0 {
        let next = pull_tick(a);
        if settled(a) {
            lemma_settled(a, n);
            lemma_settled(a, 1);
            reveal_with_fuel(pull_after, 2);
            lemma_lockstep(next, pull_tick(b), extra, 0, (m - 1) as nat);
        } else {
            assert(n > 0);
            if a.action is Receive {
                if a.disk.replies.len() == 0 {
                    assert(settled(next));
                    lemma_settled(next, (n - 1) as nat);
                    assert(false);
                }
                assert((a.disk.replies + extra).skip(1) =~= a.disk.replies.skip(1) + extra);
                assert(b.disk.replies[0] == a.disk.replies[0]);
            }
            lemma_lockstep(next, pull_tick(b), extra, (n - 1) as nat, (m - 1) as nat);
        }
    }
}

/// Law: replies that come after a complete set change nothing. Where `replies`
/// complete the file, the pull with any replies `extra` behind them goes through
/// the same states and actions, ends with the same result and leaves the same
/// cache entry and the same temporary file.
pub proof fn law_replies_after_a_complete_file_change_nothing(
    peer: Seq<u8>,
    digest: Seq<char>,
    cache: Option<Seq<u8>>,
    temp: Option<Seq<u8>>,
    replies: Seq<ReplyView>,
    extra: Seq<ReplyView>,
    n: nat,
    m: nat,
)
    requires
        complete(pull_after(pull_world(peer, digest, cache, temp, replies), n).state),
    ensures
        same_but_replies(
            pull_after(pull_world(peer, digest, cache, temp, replies), m),
            pull_after(pull_world(peer, digest, cache, temp, replies + extra), m),
            extra,
        ),
{
    lemma_lockstep(
        pull_world(peer, digest, cache, temp, replies),
        pull_world(peer, digest, cache, temp, replies + extra),
        extra,
        n,
        m,
    );
}

// ---------------------------------------------------------------------------
// What was sent is what is received
// ---------------------------------------------------------------------------

/// The replies that bring the chunks of `file` with the numbers `order`.
pub open spec fn chunk_replies(file: Seq<u8>, order: Seq<int>) -> Seq<ReplyView> {
    Seq::new(
        order.len(),
        |i: int|
            ReplyView::Chunk {
                header: chunks_of(file)[order[i]].header,
                payload: chunks_of(file)[order[i]].payload,
            },
    )
}

/// `order` names chunks of `file` only, and each of them at least once.
pub open spec fn covers(file: Seq<u8>, order: Seq<int>) -> bool {
    &&& forall|i: int| 0 <= i < order.len() ==> 0 <= #[trigger] order[i] < chunks_of(file).len()
    &&& forall|k: int| 0 <= k < chunks_of(file).len() ==> #[trigger] order.contains(k)
}

/// The pull has succeeded and `file` is in the cache.
pub open spec fn pulled(w: PullWorld, file: Seq<u8>) -> bool {
    &&& w.action == PullOutput::Done(Ok::<(), TransferFault>(()))
    &&& w.disk.cache == Some(file)
    &&& w.disk.temp is None
}

/// The chunks `done` of `file` stand at their places in `temp`.
spec fn rebuilt(temp: Seq<u8>, file: Seq<u8>, done: Seq<int>) -> bool {
    &&& temp.len() <= file.len()
    &&& forall|m: int|
        0 <= m < done.len() ==> chunk_end(file.len(), #[trigger] done[m]) <= temp.len()
    &&& forall|m: int, i: int|
        #![trigger done[m], temp[i]]
        0 <= m < done.len() && done[m] * CHUNK_SIZE <= i < chunk_end(file.len(), done[m])
            ==> temp[i] == file[i]
}

proof fn lemma_rebuilt_step(temp: Seq<u8>, file: Seq<u8>, done: Seq<int>, k: int)
    requires
        rebuilt(temp, file, done),
        0 <= k < chunk_count(file.len()),
        forall|m: int| 0 <= m < done.len() ==> 0 <= #[trigger] done[m] < chunk_count(file.len()),
    ensures
        rebuilt(overlay(temp, k * CHUNK_SIZE, chunk_of(file, k).payload), file, done.push(k)),
{
    let bytes = chunk_of(file, k).payload;
    lemma_chunk_bounds(file.len(), k);
    let next = overlay(temp, k * CHUNK_SIZE, bytes);
    let all = done.push(k);
    assert forall|m: int| 0 <= m < all.len() implies chunk_end(file.len(), #[trigger] all[m])
        <= next.len() by {
        if m < done.len() {
            assert(all[m] == done[m]);
        }
    }
    assert forall|m: int, i: int|
        #![trigger all[m], next[i]]
        0 <= m < all.len() && all[m] * CHUNK_SIZE <= i < chunk_end(
            file.len(),
            all[m],
        ) implies next[i] == file[i] by {
        if m < done.len() {
            assert(all[m] == done[m]);
            lemma_chunk_bounds(file.len(), done[m]);
            assert(temp[i] == file[i]);
        }
    }
}

/// Whether the position `p` lies in chunk `k` of a file of `len` bytes.
spec fn in_chunk(len: nat, k: int, p: int) -> bool {
    k * CHUNK_SIZE <= p < chunk_end(len, k)
}

/// What is recorded of the chunks `done` of `file`: all their bytes, and the end
/// of the file if the last one is among them.
spec fn recorded(s: PullState, file: Seq<u8>, done: Seq<int>) -> bool {
    &&& forall|p: int| #[trigger]
        s.written.contains(p) <==> exists|m: int|
            0 <= m < done.len() && in_chunk(file.len(), #[trigger] done[m], p)
    &&& s.end == if done.contains(chunk_count(file.len()) - 1) {
        Some(file.len() as int)
    } else {
        None
    }
}

proof fn lemma_recorded_step(s: PullState, file: Seq<u8>, done: Seq<int>, k: int)
    requires
        file.len() > 0,
        recorded(s, file, done),
        0 <= k < chunk_count(file.len()),
    ensures
        recorded(
            pull_grows(
                s,
                k * CHUNK_SIZE,
                chunk_end(file.len(), k),
                k == chunk_count(file.len()) - 1,
            ).0,
            file,
            done.push(k),
        ),
{
    let len = file.len();
    let count = chunk_count(len);
    let all = done.push(k);
    let next = pull_grows(s, k * CHUNK_SIZE, chunk_end(len, k), k == count - 1).0;
    lemma_chunk_bounds(len, k);
    assert forall|p: int| #[trigger]
        next.written.contains(p) <==> exists|m: int|
            0 <= m < all.len() && in_chunk(len, #[trigger] all[m], p) by {
        if next.written.contains(p) {
            if s.written.contains(p) {
                let m = choose|m: int|
                    0 <= m < done.len() && in_chunk(len, #[trigger] done[m], p);
                assert(all[m] == done[m]);
            } else {
                assert(all[done.len() as int] == k);
            }
        }
        if exists|m: int| 0 <= m < all.len() && in_chunk(len, #[trigger] all[m], p) {
            let m = choose|m: int| 0 <= m < all.len() && in_chunk(len, #[trigger] all[m], p);
            if m < done.len() {
                assert(done[m] == all[m]);
            }
        }
    }
    if done.contains(count - 1) {
        let m = choose|m: int| 0 <= m < done.len() && done[m] == count - 1;
        assert(all[m] == count - 1);
    }
    if k == count - 1 {
        assert(all[done.len() as int] == count - 1);
    }
    if all.contains(count - 1) && k != count - 1 {
        let m = choose|m: int| 0 <= m < all.len() && all[m] == count - 1;
        assert(done[m] == count - 1);
    }
}

/// A complete file is the file that was sent.
proof fn lemma_complete_is_the_file(s: PullState, temp: Seq<u8>, file: Seq<u8>, done: Seq<int>)
    requires
        recorded(s, file, done),
        rebuilt(temp, file, done),
        complete(s),
        file.len() > 0,
    ensures
        temp == file,
{
    let last = chunk_count(file.len()) - 1;
    lemma_chunk_cover(file.len(), 0);
    lemma_chunk_bounds(file.len(), last);
    let m = choose|m: int| 0 <= m < done.len() && done[m] == last;
    assert(chunk_end(file.len(), done[m]) <= temp.len());
    assert forall|i: int| 0 <= i < temp.len() implies temp[i] == file[i] by {
        assert(s.written.contains(i));
        let m = choose|m: int| 0 <= m < done.len() && in_chunk(file.len(), #[trigger] done[m], i);
        assert(done[m] * CHUNK_SIZE <= i < chunk_end(file.len(), done[m]));
    }
    assert(temp =~= file);
}

/// All the chunks together complete the file.
proof fn lemma_all_is_complete(s: PullState, file: Seq<u8>, order: Seq<int>)
    requires
        file.len() > 0,
        covers(file, order),
        recorded(s, file, order),
    ensures
        complete(s),
{
    lemma_chunk_cover(file.len(), 0);
    assert(order.contains(chunk_count(file.len()) - 1));
    assert forall|p: int| 0 <= p < file.len() implies #[trigger] s.written.contains(p) by {
        lemma_chunk_cover(file.len(), p);
        let k = p / (CHUNK_SIZE as int);
        assert(order.contains(k));
        let m = choose|m: int| 0 <= m < order.len() && order[m] == k;
        assert(in_chunk(file.len(), order[m], p));
    }
}

spec fn arriving(
    w: PullWorld,
    file: Seq<u8>,
    order: Seq<int>,
    extra: Seq<ReplyView>,
) -> bool {
    let j = order.len() + extra.len() - w.disk.replies.len();
    let count = chunk_count(file.len());
    let fresh = w.state.hashed.len() == 0;
    let nothing = recorded(w.state, file, Seq::empty());
    &&& w.state.digest == digest_text(file)
    &&& w.state.phase !is Finished ==> w.disk.cache is None
    &&& 0 <= j <= order.len()
    &&& w.disk.replies == (chunk_replies(file, order) + extra).skip(j)
    &&& match w.state.phase {
        PullPhase::Preparing => w.action is Prepare && j == 0 && fresh && nothing,
        PullPhase::Opening => w.action is OpenTemp && j == 0 && fresh && nothing,
        PullPhase::Querying => {
            &&& w.action is Query && j == 0 && fresh && nothing
            &&& w.disk.temp == Some(Seq::<u8>::empty())
        },
        PullPhase::Receiving => {
            &&& w.action is Receive && fresh
            &&& w.disk.temp is Some
            &&& rebuilt(w.disk.temp->0, file, order.take(j))
            &&& recorded(w.state, file, order.take(j))
            &&& !complete(w.state)
        },
        PullPhase::Writing { start, end, last } => {
            let k = order[j - 1];
            &&& j >= 1 && fresh
            &&& w.action == (PullOutput::Write {
                offset: (k * CHUNK_SIZE) as u64,
                bytes: chunk_of(file, k).payload,
            })
            &&& start == k * CHUNK_SIZE
            &&& end == chunk_end(file.len(), k)
            &&& last == (k == count - 1)
            &&& w.disk.temp is Some
            &&& rebuilt(w.disk.temp->0, file, order.take(j - 1))
            &&& recorded(w.state, file, order.take(j - 1))
        },
        PullPhase::Flushing => w.action is Flush && fresh && w.disk.temp == Some(file),
        PullPhase::Hashing => {
            &&& w.action is ReadTemp && w.disk.temp == Some(file)
            &&& 0 <= w.disk.read <= file.len()
            &&& w.state.hashed == file.take(w.disk.read)
        },
        PullPhase::Renaming => w.action is Rename && w.disk.temp == Some(file),
        PullPhase::Finished => pulled(w, file),
        _ => false,
    }
}

spec fn actions_left(w: PullWorld, file: Seq<u8>) -> int {
    let left: int = 2 * w.disk.replies.len() as int + file.len();
    match w.state.phase {
        PullPhase::Preparing => left + 10,
        PullPhase::Opening => left + 9,
        PullPhase::Querying => left + 8,
        PullPhase::Receiving => left + 6,
        PullPhase::Writing { .. } => left + 7,
        PullPhase::Flushing => file.len() as int + 4,
        PullPhase::Hashing => file.len() - w.disk.read + 3,
        PullPhase::Renaming => 1,
        _ => 0,
    }
}

proof fn lemma_pull_tick(
    w: PullWorld,
    file: Seq<u8>,
    order: Seq<int>,
    extra: Seq<ReplyView>,
)
    requires
        0 < file.len() <= u64::MAX,
        covers(file, order),
        arriving(w, file, order, extra),
        w.state.phase !is Finished,
    ensures
        arriving(pull_tick(w), file, order, extra),
        0 <= actions_left(pull_tick(w), file) < actions_left(w, file),
{
    let j = order.len() + extra.len() - w.disk.replies.len();
    let all = chunk_replies(file, order) + extra;
    let next = pull_tick(w);
    match w.state.phase {
        PullPhase::Querying => {
            assert(order.take(0) =~= Seq::empty());
        },
        PullPhase::Receiving => {
            if j == order.len() {
                assert(order.take(j) =~= order);
                lemma_all_is_complete(w.state, file, order);
            }
            let k = order[j];
            lemma_chunk_bounds(file.len(), k);
            assert(w.disk.replies[0] == all[j]);
            assert(all.skip(j).skip(1) =~= all.skip(j + 1));
            assert(chunks_of(file)[k] == chunk_of(file, k));
            assert(order.take(j + 1 - 1) =~= order.take(j));
        },
        PullPhase::Writing { start, end, last } => {
            let k = order[j - 1];
            let done = order.take(j - 1);
            lemma_chunk_bounds(file.len(), k);
            lemma_rebuilt_step(w.disk.temp->0, file, done, k);
            lemma_recorded_step(w.state, file, done, k);
            assert(order.take(j) =~= done.push(k));
            if complete(next.state) {
                lemma_complete_is_the_file(next.state, next.disk.temp->0, file, order.take(j));
            }
        },
        PullPhase::Flushing => {
            assert(w.state.hashed =~= file.take(0));
        },
        PullPhase::Hashing => {
            let end = next.disk.read;
            assert(file.take(w.disk.read) + file.subrange(w.disk.read, end) =~= file.take(end));
            assert(file.take(file.len() as int) =~= file);
        },
        _ => {},
    }
}

proof fn lemma_pull_ends(
    w: PullWorld,
    file: Seq<u8>,
    order: Seq<int>,
    extra: Seq<ReplyView>,
) -> (n: nat)
    requires
        0 < file.len() <= u64::MAX,
        covers(file, order),
        arriving(w, file, order, extra),
    ensures
        pulled(pull_after(w, n), file),
    decreases actions_left(w, file),
{
    if w.state.phase is Finished {
        0
    } else {
        lemma_pull_tick(w, file, order, extra);
        let n = lemma_pull_ends(pull_tick(w), file, order, extra);
        n + 1
    }
}

/// Law: what was sent is what is received. Where the replies bring the chunks
/// of a file that is not empty, in any order, with or without repetitions, and
/// none missing, the pull succeeds and the cache holds exactly that file,
/// whatever replies come behind them.
pub proof fn law_pull_rebuilds_the_file(
    peer: Seq<u8>,
    file: Seq<u8>,
    order: Seq<int>,
    extra: Seq<ReplyView>,
    temp: Option<Seq<u8>>,
)
    requires
        0 < file.len() <= u64::MAX,
        covers(file, order),
    ensures
        exists|n: nat|
            pulled(
                #[trigger] pull_after(
                    pull_world(
                        peer,
                        digest_text(file),
                        None,
                        temp,
                        chunk_replies(file, order) + extra,
                    ),
                    n,
                ),
                file,
            ),
{
    let all = chunk_replies(file, order) + extra;
    let w = pull_world(peer, digest_text(file), None, temp, all);
    lemma_chunk_cover(file.len(), 0);
    assert(w.disk.replies =~= all.skip(0));
    let n = lemma_pull_ends(w, file, order, extra);
}

} // verus!
