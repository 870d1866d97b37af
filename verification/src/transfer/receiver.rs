//! The receiver's side of a transfer: replies become a file in the cache.
use vstd::prelude::*;
use vstd::string::StringExecFns;

use crate::config::prefixed;
use crate::hexcode::hex_encode;
use crate::peer::PeerId;
use crate::text::{lemma_stands_between, stands_at};
use crate::transfer::chunk::{verifies, ChunkHeader, ChunkVerifier, HeaderView};
use crate::transfer::coverage::{filled, span, Coverage};
use crate::transfer::digest::{blake3_digest, digest_text, RootHasher};
use crate::transfer::error::{TransferError, TransferFault};

verus! {

/// Root key-expression prefix for transfer queryables.
pub const TRANSFER_ROOT: &'static str = "furcate/mesh/transfer";

/// The key that the artefact with this digest is asked for by.
pub open spec fn selector_of(digest: Seq<char>) -> Seq<char> {
    TRANSFER_ROOT@ + "/"@ + digest
}

/// The name under which a file is kept until it is verified, so that a crashed
/// pull leaves a visibly incomplete file rather than one that masquerades as a
/// real cache entry.
pub open spec fn partial_of(digest: Seq<char>) -> Seq<char> {
    digest + ".partial"@
}

// ---------------------------------------------------------------------------
// Events and actions
// ---------------------------------------------------------------------------

/// One reply to a pull.
pub enum Reply {
    /// The reply is an error with this text.
    Refused(String),
    /// The reply carries no chunk header.
    Bare,
    /// The reply carries a chunk; `header` is what its header says, or why it
    /// cannot be decoded.
    Chunk { header: Result<ChunkHeader, String>, payload: Vec<u8> },
}

/// What happens to a pull.
pub enum PullEvent {
    /// The cache directory is there; `cached` if it holds the artefact already.
    Prepared { cached: bool },
    /// The temporary file is open and empty.
    Opened,
    /// The query is out.
    Queried,
    /// The query could not be sent.
    QueryFailed(String),
    /// A reply came.
    Reply(Reply),
    /// No more replies will come.
    RepliesEnded,
    /// The chunk is written.
    Wrote,
    /// The temporary file is flushed and closed.
    Flushed,
    /// The temporary file gave these bytes. None is the end of the file.
    Read(Vec<u8>),
    /// The temporary file was removed, or could not be.
    Removed,
    /// The temporary file has become the cache entry.
    Renamed,
    /// The action failed on disk.
    IoFailed(std::io::Error),
}

/// What a pull does next.
pub enum PullAction {
    /// Create the cache directory and look for the artefact in it.
    Prepare,
    /// Create the temporary file, or empty it if it is there.
    OpenTemp,
    /// Ask for the artefact.
    Query,
    /// Wait for a reply.
    Receive,
    /// Write `bytes` at `offset` of the temporary file.
    Write { offset: u64, bytes: Vec<u8> },
    /// Flush and close the temporary file.
    Flush,
    /// Read on in the temporary file, from its start.
    ReadTemp,
    /// Remove the temporary file.
    RemoveTemp,
    /// Rename the temporary file into the cache.
    Rename,
    /// Nothing more: the pull ended this way.
    Done(Result<(), TransferError>),
}

/// A reply in mathematical terms.
pub enum ReplyView {
    Refused(Seq<char>),
    Bare,
    Undecodable(Seq<char>),
    Chunk { header: HeaderView, payload: Seq<u8> },
}

/// A pull event in mathematical terms.
pub enum PullInput {
    Prepared { cached: bool },
    Opened,
    Queried,
    QueryFailed(Seq<char>),
    Reply(ReplyView),
    RepliesEnded,
    Wrote,
    Flushed,
    Read(Seq<u8>),
    Removed,
    Renamed,
    IoFailed(std::io::Error),
}

/// A pull action in mathematical terms.
pub enum PullOutput {
    Prepare,
    OpenTemp,
    Query,
    Receive,
    Write { offset: u64, bytes: Seq<u8> },
    Flush,
    ReadTemp,
    RemoveTemp,
    Rename,
    Done(Result<(), TransferFault>),
}

impl View for Reply {
    type V = ReplyView;

    open spec fn view(&self) -> ReplyView {
        match self {
            Reply::Refused(t) => ReplyView::Refused(t@),
            Reply::Bare => ReplyView::Bare,
            Reply::Chunk { header: Err(t), .. } => ReplyView::Undecodable(t@),
            Reply::Chunk { header: Ok(h), payload } => ReplyView::Chunk {
                header: h@,
                payload: payload@,
            },
        }
    }
}

impl View for PullEvent {
    type V = PullInput;

    open spec fn view(&self) -> PullInput {
        match self {
            PullEvent::Prepared { cached } => PullInput::Prepared { cached: *cached },
            PullEvent::Opened => PullInput::Opened,
            PullEvent::Queried => PullInput::Queried,
            PullEvent::QueryFailed(t) => PullInput::QueryFailed(t@),
            PullEvent::Reply(r) => PullInput::Reply(r@),
            PullEvent::RepliesEnded => PullInput::RepliesEnded,
            PullEvent::Wrote => PullInput::Wrote,
            PullEvent::Flushed => PullInput::Flushed,
            PullEvent::Read(b) => PullInput::Read(b@),
            PullEvent::Removed => PullInput::Removed,
            PullEvent::Renamed => PullInput::Renamed,
            PullEvent::IoFailed(e) => PullInput::IoFailed(*e),
        }
    }
}

impl View for PullAction {
    type V = PullOutput;

    open spec fn view(&self) -> PullOutput {
        match self {
            PullAction::Prepare => PullOutput::Prepare,
            PullAction::OpenTemp => PullOutput::OpenTemp,
            PullAction::Query => PullOutput::Query,
            PullAction::Receive => PullOutput::Receive,
            PullAction::Write { offset, bytes } => PullOutput::Write {
                offset: *offset,
                bytes: bytes@,
            },
            PullAction::Flush => PullOutput::Flush,
            PullAction::ReadTemp => PullOutput::ReadTemp,
            PullAction::RemoveTemp => PullOutput::RemoveTemp,
            PullAction::Rename => PullOutput::Rename,
            PullAction::Done(Ok(())) => PullOutput::Done(Ok(())),
            PullAction::Done(Err(e)) => PullOutput::Done(Err(e@)),
        }
    }
}

// ---------------------------------------------------------------------------
// The rules of a pull
// ---------------------------------------------------------------------------

/// Where a pull is, by what it waits for.
pub enum PullPhase {
    Preparing,
    Opening,
    Querying,
    Receiving,
    /// The chunk that is being written goes from `start` up to `end`; `last` if it
    /// is the last of the file.
    Writing { start: int, end: int, last: bool },
    Flushing,
    Hashing,
    /// The pull has failed this way.
    Removing(TransferFault),
    Renaming,
    Finished,
}

/// A pull in mathematical terms.
#[verifier::ext_equal]
pub struct PullState {
    /// The peer that was asked.
    pub peer: Seq<u8>,
    /// The digest that was asked for.
    pub digest: Seq<char>,
    /// Whether there was any reply.
    pub got_any: bool,
    /// The positions of the temporary file that were written.
    pub written: Set<int>,
    /// Where the file ends, once a last chunk was written.
    pub end: Option<int>,
    /// What was read back from the temporary file.
    pub hashed: Seq<u8>,
    pub phase: PullPhase,
}

/// The events that can follow on the pull's last action.
pub open spec fn pull_expects(s: PullState, e: PullInput) -> bool {
    match (s.phase, e) {
        (PullPhase::Preparing, PullInput::Prepared { .. }) => true,
        (PullPhase::Preparing, PullInput::IoFailed(_)) => true,
        (PullPhase::Opening, PullInput::Opened) => true,
        (PullPhase::Opening, PullInput::IoFailed(_)) => true,
        (PullPhase::Querying, PullInput::Queried) => true,
        (PullPhase::Querying, PullInput::QueryFailed(_)) => true,
        (PullPhase::Receiving, PullInput::Reply(_)) => true,
        (PullPhase::Receiving, PullInput::RepliesEnded) => true,
        (PullPhase::Writing { .. }, PullInput::Wrote) => true,
        (PullPhase::Writing { .. }, PullInput::IoFailed(_)) => true,
        (PullPhase::Flushing, PullInput::Flushed) => true,
        (PullPhase::Flushing, PullInput::IoFailed(_)) => true,
        (PullPhase::Hashing, PullInput::Read(b)) => s.hashed.len() + b.len() <= u64::MAX,
        (PullPhase::Hashing, PullInput::IoFailed(_)) => true,
        (PullPhase::Removing(_), PullInput::Removed) => true,
        (PullPhase::Renaming, PullInput::Renamed) => true,
        (PullPhase::Renaming, PullInput::IoFailed(_)) => true,
        _ => false,
    }
}

/// The pull ends with `r`; what is on disk stays as it is.
pub open spec fn pull_finished(s: PullState, r: Result<(), TransferFault>) -> (
    PullState,
    PullOutput,
) {
    (PullState { phase: PullPhase::Finished, ..s }, PullOutput::Done(r))
}

/// The pull removes the temporary file and then fails with `fault`.
pub open spec fn pull_removes(s: PullState, fault: TransferFault) -> (PullState, PullOutput) {
    (PullState { phase: PullPhase::Removing(fault), ..s }, PullOutput::RemoveTemp)
}

/// Whether the whole file was written: its last chunk, and every byte before the
/// end of it.
pub open spec fn complete(s: PullState) -> bool {
    match s.end {
        Some(end) => filled(s.written, end),
        None => false,
    }
}

/// Where the file ends after a last chunk that ends at `end` was written. Of two
/// such ends the nearer one counts.
pub open spec fn nearer_end(known: Option<int>, end: int) -> Option<int> {
    match known {
        Some(e) if e <= end => Some(e),
        _ => Some(end),
    }
}

/// What a pull does with a reply: a chunk that its header vouches for is
/// written where the header says, and anything else ends the pull.
pub open spec fn pull_takes(before: PullState, r: ReplyView) -> (PullState, PullOutput) {
    let s = PullState { got_any: true, ..before };
    match r {
        ReplyView::Refused(t) => pull_finished(
            s,
            Err(TransferFault::Transport("reply error: "@ + t)),
        ),
        ReplyView::Bare => pull_finished(
            s,
            Err(TransferFault::MalformedReply("reply missing chunk-header attachment"@)),
        ),
        ReplyView::Undecodable(t) => pull_finished(
            s,
            Err(TransferFault::MalformedReply("decoding chunk header: "@ + t)),
        ),
        ReplyView::Chunk { header, payload } => if verifies(header, payload) {
            (
                PullState {
                    phase: PullPhase::Writing {
                        start: header.offset as int,
                        end: header.offset + payload.len(),
                        last: header.last,
                    },
                    ..s
                },
                PullOutput::Write { offset: header.offset, bytes: payload },
            )
        } else {
            pull_finished(s, Err(TransferFault::ChunkVerify { offset: header.offset }))
        },
    }
}

/// What a pull does when a chunk is written. Once the file is complete the pull
/// reads no further reply: whatever else comes, from whichever peer, changes
/// nothing.
pub open spec fn pull_grows(before: PullState, start: int, end: int, last: bool) -> (
    PullState,
    PullOutput,
) {
    let s = PullState {
        written: before.written.union(span(start, end)),
        end: if last {
            nearer_end(before.end, end)
        } else {
            before.end
        },
        ..before
    };
    if complete(s) {
        (PullState { phase: PullPhase::Flushing, ..s }, PullOutput::Flush)
    } else {
        (PullState { phase: PullPhase::Receiving, ..s }, PullOutput::Receive)
    }
}

/// What a pull does when the replies have ended.
pub open spec fn pull_closes(s: PullState) -> (PullState, PullOutput) {
    if !s.got_any {
        pull_removes(s, TransferFault::PeerMissing { peer: s.peer, digest: s.digest })
    } else if s.end is None {
        pull_removes(s, TransferFault::MalformedReply("stream ended without a final chunk"@))
    } else {
        (PullState { phase: PullPhase::Flushing, ..s }, PullOutput::Flush)
    }
}

/// What a pull does when the temporary file was read back: it goes into the
/// cache if its root hash is the digest that was asked for, and is removed
/// otherwise.
pub open spec fn pull_judges(s: PullState) -> (PullState, PullOutput) {
    if digest_text(s.hashed) == s.digest {
        (PullState { phase: PullPhase::Renaming, ..s }, PullOutput::Rename)
    } else {
        pull_removes(
            s,
            TransferFault::RootVerify { expected: s.digest, actual: digest_text(s.hashed) },
        )
    }
}

/// What a pull does on an event. Events that are not expected have no meaning.
pub open spec fn pull_next(s: PullState, e: PullInput) -> (PullState, PullOutput) {
    match (s.phase, e) {
        (PullPhase::Removing(fault), _) => pull_finished(s, Err(fault)),
        (_, PullInput::IoFailed(e)) => pull_finished(s, Err(TransferFault::Io(e))),
        (PullPhase::Preparing, PullInput::Prepared { cached }) => if cached {
            pull_finished(s, Ok(()))
        } else {
            (PullState { phase: PullPhase::Opening, ..s }, PullOutput::OpenTemp)
        },
        (PullPhase::Opening, _) => (
            PullState { phase: PullPhase::Querying, ..s },
            PullOutput::Query,
        ),
        (PullPhase::Querying, PullInput::QueryFailed(t)) => pull_finished(
            s,
            Err(TransferFault::Transport("get "@ + selector_of(s.digest) + ": "@ + t)),
        ),
        (PullPhase::Querying, _) => (
            PullState { phase: PullPhase::Receiving, ..s },
            PullOutput::Receive,
        ),
        (PullPhase::Receiving, PullInput::Reply(r)) => pull_takes(s, r),
        (PullPhase::Receiving, _) => pull_closes(s),
        (PullPhase::Writing { start, end, last }, _) => pull_grows(s, start, end, last),
        (PullPhase::Flushing, _) => (
            PullState { phase: PullPhase::Hashing, ..s },
            PullOutput::ReadTemp,
        ),
        (PullPhase::Hashing, PullInput::Read(b)) => if b.len() == 0 {
            pull_judges(s)
        } else {
            (PullState { hashed: s.hashed + b, ..s }, PullOutput::ReadTemp)
        },
        _ => pull_finished(s, Ok(())),
    }
}

/// The state in which a pull starts.
pub open spec fn pull_start(peer: Seq<u8>, digest: Seq<char>) -> PullState {
    PullState {
        peer,
        digest,
        got_any: false,
        written: Set::empty(),
        end: None,
        hashed: Seq::empty(),
        phase: PullPhase::Preparing,
    }
}

// ---------------------------------------------------------------------------
// The pull
// ---------------------------------------------------------------------------

enum Phase {
    Preparing,
    Opening,
    Querying,
    Receiving,
    Writing { start: u128, end: u128, last: bool },
    Flushing,
    Hashing,
    Removing(TransferError),
    Renaming,
    Finished,
}

impl View for Phase {
    type V = PullPhase;

    closed spec fn view(&self) -> PullPhase {
        match self {
            Phase::Preparing => PullPhase::Preparing,
            Phase::Opening => PullPhase::Opening,
            Phase::Querying => PullPhase::Querying,
            Phase::Receiving => PullPhase::Receiving,
            Phase::Writing { start, end, last } => PullPhase::Writing {
                start: *start as int,
                end: *end as int,
                last: *last,
            },
            Phase::Flushing => PullPhase::Flushing,
            Phase::Hashing => PullPhase::Hashing,
            Phase::Removing(e) => PullPhase::Removing(e@),
            Phase::Renaming => PullPhase::Renaming,
            Phase::Finished => PullPhase::Finished,
        }
    }
}

/// One artefact on its way in.
pub struct Pull {
    peer: PeerId,
    digest: String,
    got_any: bool,
    written: Coverage,
    end: Option<u128>,
    hasher: RootHasher,
    phase: Phase,
}

impl View for Pull {
    type V = PullState;

    closed spec fn view(&self) -> PullState {
        PullState {
            peer: self.peer@,
            digest: self.digest@,
            got_any: self.got_any,
            written: self.written@,
            end: match self.end {
                Some(e) => Some(e as int),
                None => None,
            },
            hashed: self.hasher@,
            phase: self.phase@,
        }
    }
}

impl Pull {
    /// What was written is recorded properly.
    pub closed spec fn wf(self) -> bool {
        self.written.wf()
    }

    /// Start to pull the artefact with digest `digest` from `peer`.
    #[must_use]
    pub fn new(peer: PeerId, digest: &str) -> (r: (Self, PullAction))
        ensures
            r.0.wf(),
            r.0@ == pull_start(peer@, digest@),
            r.1@ == PullOutput::Prepare,
    {
        (
            Pull {
                peer,
                digest: digest.to_owned(),
                got_any: false,
                written: Coverage::new(),
                end: None,
                hasher: RootHasher::new(),
                phase: Phase::Preparing,
            },
            PullAction::Prepare,
        )
    }

    /// The key to ask for the artefact by.
    #[must_use]
    pub fn selector(&self) -> (r: String)
        ensures
            r@ == selector_of(self@.digest),
    {
        let mut r = prefixed(TRANSFER_ROOT, "/");
        r.append(self.digest.as_str());
        r
    }

    /// The name of the finished file in the cache directory.
    #[must_use]
    pub fn final_name(&self) -> (r: &str)
        ensures
            r@ == self@.digest,
    {
        self.digest.as_str()
    }

    /// The name of the temporary file in the cache directory.
    #[must_use]
    pub fn partial_name(&self) -> (r: String)
        ensures
            r@ == partial_of(self@.digest),
    {
        prefixed(self.digest.as_str(), ".partial")
    }

    fn done(&mut self, r: Result<(), TransferError>) -> (action: PullAction)
        ensures
            final(self).written == old(self).written,
            final(self)@ == (PullState { phase: PullPhase::Finished, ..old(self)@ }),
            action == PullAction::Done(r),
    {
        self.phase = Phase::Finished;
        PullAction::Done(r)
    }

    fn remove(&mut self, e: TransferError) -> (action: PullAction)
        ensures
            final(self).written == old(self).written,
            (final(self)@, action@) == pull_removes(old(self)@, e@),
    {
        self.phase = Phase::Removing(e);
        PullAction::RemoveTemp
    }

    fn take(&mut self, reply: Reply) -> (action: PullAction)
        ensures
            final(self).written == old(self).written,
            (final(self)@, action@) == pull_takes(old(self)@, reply@),
    {
        self.got_any = true;
        match reply {
            Reply::Refused(t) => self.done(
                Err(TransferError::Transport(prefixed("reply error: ", t.as_str()))),
            ),
            Reply::Bare => self.done(
                Err(
                    TransferError::MalformedReply(
                        "reply missing chunk-header attachment".to_owned(),
                    ),
                ),
            ),
            Reply::Chunk { header, payload } => match header {
                Err(t) => self.done(
                    Err(
                        TransferError::MalformedReply(
                            prefixed("decoding chunk header: ", t.as_str()),
                        ),
                    ),
                ),
                Ok(header) => match ChunkVerifier::verify(&header, payload.as_slice()) {
                    Ok(()) => {
                        let start: u128 = header.offset as u128;
                        self.phase = Phase::Writing {
                            start,
                            end: start + payload.len() as u128,
                            last: header.last,
                        };
                        PullAction::Write { offset: header.offset, bytes: payload }
                    },
                    Err(e) => self.done(Err(e)),
                },
            },
        }
    }

    fn grow(&mut self, start: u128, end: u128, last: bool) -> (action: PullAction)
        requires
            old(self).wf(),
        ensures
            final(self).wf(),
            (final(self)@, action@) == pull_grows(old(self)@, start as int, end as int, last),
    {
        self.written.add(start, end);
        if last {
            self.end = match self.end {
                Some(e) => if e <= end {
                    Some(e)
                } else {
                    Some(end)
                },
                None => Some(end),
            };
        }
        let complete = match self.end {
            Some(e) => self.written.reaches(e),
            None => false,
        };
        if complete {
            self.phase = Phase::Flushing;
            PullAction::Flush
        } else {
            self.phase = Phase::Receiving;
            PullAction::Receive
        }
    }

    fn close(&mut self) -> (action: PullAction)
        ensures
            final(self).written == old(self).written,
            (final(self)@, action@) == pull_closes(old(self)@),
    {
        if !self.got_any {
            let e = TransferError::PeerMissing { peer: self.peer, digest: self.digest.clone() };
            self.remove(e)
        } else if self.end.is_none() {
            self.remove(
                TransferError::MalformedReply("stream ended without a final chunk".to_owned()),
            )
        } else {
            self.phase = Phase::Flushing;
            PullAction::Flush
        }
    }

    fn judge(&mut self) -> (action: PullAction)
        ensures
            final(self).written == old(self).written,
            (final(self)@, action@) == pull_judges(old(self)@),
    {
        let actual = self.hasher.finish();
        if actual == self.digest {
            self.phase = Phase::Renaming;
            PullAction::Rename
        } else {
            let e = TransferError::RootVerify { expected: self.digest.clone(), actual };
            self.remove(e)
        }
    }

    /// The next action after an event.
    pub fn step(&mut self, event: PullEvent) -> (action: PullAction)
        requires
            old(self).wf(),
            pull_expects(old(self)@, event@),
        ensures
            final(self).wf(),
            (final(self)@, action@) == pull_next(old(self)@, event@),
    {
        match event {
            PullEvent::IoFailed(e) => self.done(Err(TransferError::Io(e))),
            PullEvent::Prepared { cached } => if cached {
                self.done(Ok(()))
            } else {
                self.phase = Phase::Opening;
                PullAction::OpenTemp
            },
            PullEvent::Opened => {
                self.phase = Phase::Querying;
                PullAction::Query
            },
            PullEvent::Queried => {
                self.phase = Phase::Receiving;
                PullAction::Receive
            },
            PullEvent::QueryFailed(t) => {
                let mut text = prefixed("get ", self.selector().as_str());
                text.append(": ");
                text.append(t.as_str());
                self.done(Err(TransferError::Transport(text)))
            },
            PullEvent::Reply(reply) => self.take(reply),
            PullEvent::RepliesEnded => self.close(),
            PullEvent::Wrote => {
                let (start, end, last): (u128, u128, bool) = match &self.phase {
                    Phase::Writing { start, end, last } => (*start, *end, *last),
                    _ => (0, 0, false),
                };
                self.grow(start, end, last)
            },
            PullEvent::Flushed => {
                self.phase = Phase::Hashing;
                PullAction::ReadTemp
            },
            PullEvent::Read(bytes) => if bytes.len() == 0 {
                self.judge()
            } else {
                self.hasher.update(bytes.as_slice());
                PullAction::ReadTemp
            },
            PullEvent::Removed => {
                let mut phase = Phase::Finished;
                std::mem::swap(&mut phase, &mut self.phase);
                match phase {
                    Phase::Removing(e) => PullAction::Done(Err(e)),
                    _ => PullAction::Done(Ok(())),
                }
            },
            PullEvent::Renamed => self.done(Ok(())),
        }
    }
}

// ---------------------------------------------------------------------------
// What a pull does, step by step
// ---------------------------------------------------------------------------

/// Law: a pull asks for the whole digest under the root of all transfers, keeps the
/// finished file under the digest itself, and until then under the digest with an ending
/// that no digest has. It begins by looking for the file in the cache.
pub proof fn law_names_of_a_pull(
    peer: PeerId,
    digest: &str,
    r: (Pull, PullAction),
    selector: String,
    done: &str,
    partial: String,
)
    requires
        call_ensures(Pull::new, (peer, digest), r),
        call_ensures(Pull::selector, (&r.0,), selector),
        call_ensures(Pull::final_name, (&r.0,), done),
        call_ensures(Pull::partial_name, (&r.0,), partial),
    ensures
        r.1 is Prepare,
        r.0@.peer == peer@ && r.0@.digest == digest@,
        !r.0@.got_any && r.0@.end is None && r.0@.hashed.len() == 0,
        stands_at(selector@, 0, "furcate/mesh/transfer/"@),
        selector@.skip(22) == digest@,
        done@ == digest@,
        partial@.len() == digest@.len() + 8,
        partial@.take(digest@.len() as int) == digest@,
        stands_at(partial@, digest@.len(), ".partial"@),
{
    reveal_strlit("furcate/mesh/transfer");
    reveal_strlit("furcate/mesh/transfer/");
    reveal_strlit("/");
    reveal_strlit(".partial");
    assert(selector@.skip(0).take(22) =~= "furcate/mesh/transfer/"@);
    assert(selector@.skip(22) =~= digest@);
    assert(partial@.take(digest@.len() as int) =~= digest@);
    assert(partial@.skip(digest@.len() as int).take(8) =~= ".partial"@);
}

/// Law: a pull checks every chunk, whatever its place, its length and whether it is the
/// last. One whose bytes have the BLAKE3 hash that its header gives is written, all of it,
/// where the header says; any other ends the pull at once, with an error that gives its
/// offset, and nothing is written.
pub proof fn law_every_chunk_is_checked(
    pull: &mut Pull,
    header: ChunkHeader,
    payload: Vec<u8>,
    action: PullAction,
)
    requires
        call_ensures(
            Pull::step,
            (pull, PullEvent::Reply(Reply::Chunk { header: Ok(header), payload })),
            action,
        ),
        old(pull)@.phase is Receiving,
    ensures
        header.chunk_hash@ == hex_encode(blake3_digest(payload@)) ==> {
            &&& action matches PullAction::Write { offset, bytes } && offset == header.offset
                && bytes@ == payload@
            &&& final(pull)@.phase == (PullPhase::Writing {
                start: header.offset as int,
                end: header.offset + payload@.len(),
                last: header.last,
            })
        },
        header.chunk_hash@ != hex_encode(blake3_digest(payload@)) ==> (action
            matches PullAction::Done(Err(TransferError::ChunkVerify { offset })) && offset
            == header.offset),
        final(pull)@.got_any && final(pull)@.hashed == old(pull)@.hashed,
        final(pull)@.written == old(pull)@.written,
        final(pull)@.end == old(pull)@.end,
        final(pull)@.digest == old(pull)@.digest && final(pull)@.peer == old(pull)@.peer,
{
    assert(action@ is Done ==> action is Done);
    if let PullAction::Done(Err(e)) = action {
        assert(action@ == PullOutput::Done(Err(e@)));
    }
}

/// Law: a reply that is no chunk ends the pull and is told: an error reply and a header
/// that cannot be decoded with their cause in full.
pub proof fn law_other_replies_end_the_pull(
    refused: &mut Pull,
    bare: &mut Pull,
    undecoded: &mut Pull,
    cause: String,
    payload: Vec<u8>,
    first: PullAction,
    second: PullAction,
    third: PullAction,
)
    requires
        call_ensures(Pull::step, (refused, PullEvent::Reply(Reply::Refused(cause))), first),
        call_ensures(Pull::step, (bare, PullEvent::Reply(Reply::Bare)), second),
        call_ensures(
            Pull::step,
            (undecoded, PullEvent::Reply(Reply::Chunk { header: Err(cause), payload })),
            third,
        ),
        old(refused)@.phase is Receiving,
        old(bare)@.phase is Receiving,
        old(undecoded)@.phase is Receiving,
    ensures
        first matches PullAction::Done(Err(TransferError::Transport(t))) && t@.len() == 13
            + cause@.len() && stands_at(t@, 0, "reply error: "@) && stands_at(t@, 13, cause@),
        second matches PullAction::Done(Err(TransferError::MalformedReply(t))) && t@
            == "reply missing chunk-header attachment"@,
        third matches PullAction::Done(Err(TransferError::MalformedReply(t))) && t@.len() == 23
            + cause@.len() && stands_at(t@, 0, "decoding chunk header: "@) && stands_at(t@, 23, cause@),
{
    reveal_strlit("reply error: ");
    reveal_strlit("decoding chunk header: ");
    lemma_stands_between("reply error: "@, cause@, Seq::empty());
    lemma_stands_between("decoding chunk header: "@, cause@, Seq::empty());
    assert(first@ is Done && first@->Done_0 is Err);
    assert(second@ is Done && second@->Done_0 is Err);
    assert(third@ is Done && third@->Done_0 is Err);
}

/// Law: what a pull knows of the file grows by exactly the chunk that was written. The
/// file ends where the nearest last chunk ends. Once that is known and every byte before
/// it is written, the file is flushed, and otherwise the next reply is waited for.
pub proof fn law_written_chunks_add_up(pull: &mut Pull, action: PullAction)
    requires
        call_ensures(Pull::step, (pull, PullEvent::Wrote), action),
        old(pull)@.phase is Writing,
    ensures
        ({
            let w = old(pull)@.phase;
            let s = final(pull)@;
            &&& forall|p: int| #[trigger]
                s.written.contains(p) <==> old(pull)@.written.contains(p) || w->start <= p < w->end
            &&& !w->last ==> s.end == old(pull)@.end
            &&& w->last && old(pull)@.end is None ==> s.end == Some(w->end)
            &&& w->last && old(pull)@.end is Some ==> s.end == Some(
                if w->end < old(pull)@.end->0 {
                    w->end
                } else {
                    old(pull)@.end->0
                },
            )
            &&& action is Flush <==> s.end is Some && forall|p: int|
                0 <= p < s.end->0 ==> #[trigger] s.written.contains(p)
            &&& action is Flush || action is Receive
            &&& action is Receive <==> s.phase is Receiving
            &&& action is Flush <==> s.phase is Flushing
            &&& s.digest == old(pull)@.digest && s.peer == old(pull)@.peer && s.hashed == old(
                pull,
            )@.hashed && s.got_any == old(pull)@.got_any
        }),
{
    let s = final(pull)@;
    assert(action@ is Flush <==> complete(s));
    assert(action@ is Flush || action@ is Receive);
    assert(complete(s) <==> s.end is Some && filled(s.written, s.end->0));
}

/// Law: what the end of the replies means. Without any reply the peer does not have the
/// digest; without a last chunk the stream broke off; in both cases the temporary file is
/// removed before that is told. Otherwise what there is is flushed and judged by its hash.
pub proof fn law_what_the_end_of_replies_means(
    pull: &mut Pull,
    action: PullAction,
    removed: &mut Pull,
    end: PullAction,
)
    requires
        call_ensures(Pull::step, (pull, PullEvent::RepliesEnded), action),
        call_ensures(Pull::step, (removed, PullEvent::Removed), end),
        old(pull)@.phase is Receiving,
        action is RemoveTemp ==> *final(pull) == *old(removed),
    ensures
        !old(pull)@.got_any ==> action is RemoveTemp && (end matches PullAction::Done(
            Err(TransferError::PeerMissing { peer, digest }),
        ) && peer@ == old(pull)@.peer && digest@ == old(pull)@.digest),
        old(pull)@.got_any && old(pull)@.end is None ==> action is RemoveTemp && (end
            matches PullAction::Done(Err(TransferError::MalformedReply(t))) && t@
            == "stream ended without a final chunk"@),
        old(pull)@.got_any && old(pull)@.end is Some ==> action is Flush && final(pull)@ == (
        PullState { phase: PullPhase::Flushing, ..old(pull)@ }),
{
    if action is RemoveTemp {
        assert(end@ is Done && end@->Done_0 is Err);
    }
}

/// Law: what was written is read back to its end and judged by the BLAKE3 hash of all
/// that was read. Only if that is the digest that was asked for is the file renamed into
/// the cache, which ends the pull well; otherwise it is removed, and the pull ends with
/// both hashes.
pub proof fn law_root_hash_decides(
    pull: &mut Pull,
    bytes: Vec<u8>,
    action: PullAction,
    removed: &mut Pull,
    end: PullAction,
    renamed: &mut Pull,
    well: PullAction,
)
    requires
        call_ensures(Pull::step, (pull, PullEvent::Read(bytes)), action),
        call_ensures(Pull::step, (removed, PullEvent::Removed), end),
        call_ensures(Pull::step, (renamed, PullEvent::Renamed), well),
        old(pull)@.phase is Hashing,
        action is RemoveTemp ==> *final(pull) == *old(removed),
        old(renamed)@.phase is Renaming,
    ensures
        bytes@.len() > 0 ==> action is ReadTemp && final(pull)@.hashed == old(pull)@.hashed + bytes@
            && final(pull)@.phase is Hashing && final(pull)@.digest == old(pull)@.digest,
        ({
            let actual = hex_encode(blake3_digest(old(pull)@.hashed));
            &&& bytes@.len() == 0 ==> (action is Rename <==> actual == old(pull)@.digest)
            &&& action is Rename ==> final(pull)@.phase is Renaming
            &&& bytes@.len() == 0 && actual != old(pull)@.digest ==> action is RemoveTemp && (end
                matches PullAction::Done(Err(TransferError::RootVerify { expected, actual: got }))
                && expected@ == old(pull)@.digest && got@ == actual)
        }),
        well matches PullAction::Done(r) && r is Ok,
{
    if action is RemoveTemp {
        assert(end@ is Done && end@->Done_0 is Err);
    }
    if let PullAction::Done(Err(e)) = well {
        assert(well@ == PullOutput::Done(Err(e@)));
    }
}

/// Law: a pull goes from the cache to the temporary file, to the query, to the replies. A
/// file that is cached ends it well at once, and a query that cannot be sent ends it with
/// the key and the cause in full.
pub proof fn law_how_a_pull_gets_going(
    prepared: &mut Pull,
    cached: bool,
    first: PullAction,
    opened: &mut Pull,
    second: PullAction,
    queried: &mut Pull,
    third: PullAction,
    flushed: &mut Pull,
    fourth: PullAction,
    unsent: &mut Pull,
    selector: String,
    cause: String,
    end: PullAction,
)
    requires
        call_ensures(Pull::step, (prepared, PullEvent::Prepared { cached }), first),
        call_ensures(Pull::step, (opened, PullEvent::Opened), second),
        call_ensures(Pull::step, (queried, PullEvent::Queried), third),
        call_ensures(Pull::step, (flushed, PullEvent::Flushed), fourth),
        call_ensures(Pull::selector, (&*old(unsent),), selector),
        call_ensures(Pull::step, (unsent, PullEvent::QueryFailed(cause)), end),
        old(prepared)@.phase is Preparing,
        old(opened)@.phase is Opening,
        old(queried)@.phase is Querying,
        old(flushed)@.phase is Flushing,
        old(unsent)@.phase is Querying,
    ensures
        cached ==> (first matches PullAction::Done(r) && r is Ok),
        !cached ==> first is OpenTemp && final(prepared)@ == (PullState {
            phase: PullPhase::Opening,
            ..old(prepared)@
        }),
        second is Query && final(opened)@ == (PullState {
            phase: PullPhase::Querying,
            ..old(opened)@
        }),
        third is Receive && final(queried)@ == (PullState {
            phase: PullPhase::Receiving,
            ..old(queried)@
        }),
        fourth is ReadTemp && final(flushed)@ == (PullState {
            phase: PullPhase::Hashing,
            ..old(flushed)@
        }),
        end matches PullAction::Done(Err(TransferError::Transport(t))) && t@.len() == 6
            + selector@.len() + cause@.len() && stands_at(t@, 0, "get "@) && stands_at(
            t@,
            4,
            selector@,
        ) && stands_at(t@, 4 + selector@.len(), ": "@ + cause@),
{
    reveal_strlit("get ");
    reveal_strlit(": ");
    if let PullAction::Done(Err(e)) = first {
        assert(first@ == PullOutput::Done(Err(e@)));
    }
    assert(end@ is Done && end@->Done_0 is Err);
    let head = "get "@;
    lemma_stands_between(head, selector@, ": "@ + cause@);
    assert(end@->Done_0->Err_0->Transport_0 =~= head + selector@ + (": "@ + cause@));
}

/// Law: a disk that fails ends the pull with its error, at whatever step it fails.
pub proof fn law_disk_failure_ends_the_pull(
    pull: &mut Pull,
    error: std::io::Error,
    action: PullAction,
)
    requires
        call_ensures(Pull::step, (pull, PullEvent::IoFailed(error)), action),
        pull_expects(old(pull)@, PullInput::IoFailed(error)),
    ensures
        action matches PullAction::Done(Err(TransferError::Io(e))) && e == error,
{
    assert(action@ is Done && action@->Done_0 is Err);
}

} // verus!
