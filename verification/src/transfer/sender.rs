//! The sender's side of a transfer: a file becomes a stream of chunks.
use vstd::prelude::*;

use crate::config::prefixed;
use crate::hexcode::hex_encode;
use crate::text::{lemma_stands_between, stands_at};
use crate::transfer::chunk::{chunk_count, chunk_end, chunk_of, chunks_of, lemma_chunk_bounds, ChunkHeader, ChunkVerifier, ChunkView, HeaderView, CHUNK_SIZE};
use crate::transfer::digest::{blake3_digest, digest_text};
use crate::transfer::error::{TransferError, TransferFault};

verus! {

/// What happens to a stream.
pub enum StreamEvent {
    /// The file gave these bytes. None is the end of the file.
    Read(Vec<u8>),
    /// The file could not be read.
    IoFailed(std::io::Error),
    /// The reply went out.
    Sent,
    /// The chunk header could not be encoded.
    EncodeFailed(String),
    /// The reply could not be sent.
    ReplyFailed(String),
}

/// What a stream does next.
pub enum StreamAction {
    /// Read at most `max` bytes from the file, at least one where there are any.
    Read { max: usize },
    /// Send a chunk.
    Reply { header: ChunkHeader, payload: Vec<u8> },
    /// Nothing more: the stream ended this way.
    Done(Result<(), TransferError>),
}

/// A stream event in mathematical terms.
pub enum StreamInput {
    Read(Seq<u8>),
    IoFailed(std::io::Error),
    Sent,
    EncodeFailed(Seq<char>),
    ReplyFailed(Seq<char>),
}

/// A stream action in mathematical terms.
pub enum StreamOutput {
    Read { max: nat },
    Reply(ChunkView),
    Done(Result<(), TransferFault>),
}

impl View for StreamEvent {
    type V = StreamInput;

    open spec fn view(&self) -> StreamInput {
        match self {
            StreamEvent::Read(b) => StreamInput::Read(b@),
            StreamEvent::IoFailed(e) => StreamInput::IoFailed(*e),
            StreamEvent::Sent => StreamInput::Sent,
            StreamEvent::EncodeFailed(s) => StreamInput::EncodeFailed(s@),
            StreamEvent::ReplyFailed(s) => StreamInput::ReplyFailed(s@),
        }
    }
}

impl View for StreamAction {
    type V = StreamOutput;

    open spec fn view(&self) -> StreamOutput {
        match self {
            StreamAction::Read { max } => StreamOutput::Read { max: *max as nat },
            StreamAction::Reply { header, payload } => StreamOutput::Reply(
                ChunkView { header: header@, payload: payload@ },
            ),
            StreamAction::Done(Ok(())) => StreamOutput::Done(Ok(())),
            StreamAction::Done(Err(e)) => StreamOutput::Done(Err(e@)),
        }
    }
}

/// Where a stream is.
#[derive(Clone, Copy, Debug, PartialEq, Eq, Structural)]
pub enum StreamPhase {
    /// Waiting for bytes of the file.
    Reading,
    /// Waiting for a reply to go out; `stop` if it is the last one.
    Sending { stop: bool },
    /// Nothing more to do.
    Finished,
}

/// A stream in mathematical terms.
#[verifier::ext_equal]
pub struct StreamState {
    /// Length of the file when it was opened.
    pub total: u64,
    /// How much of it was sent.
    pub offset: u64,
    /// Bytes read and not sent yet: less than a chunk.
    pub held: Seq<u8>,
    pub phase: StreamPhase,
}

/// The events that can follow on the stream's last action.
pub open spec fn stream_expects(s: StreamState, e: StreamInput) -> bool {
    match (s.phase, e) {
        (StreamPhase::Reading, StreamInput::Read(b)) => s.held.len() + b.len() <= CHUNK_SIZE,
        (StreamPhase::Reading, StreamInput::IoFailed(_)) => true,
        (StreamPhase::Sending { .. }, StreamInput::Sent) => true,
        (StreamPhase::Sending { .. }, StreamInput::EncodeFailed(_)) => true,
        (StreamPhase::Sending { .. }, StreamInput::ReplyFailed(_)) => true,
        _ => false,
    }
}

/// The stream ends with `r`.
pub open spec fn stream_finished(s: StreamState, r: Result<(), TransferFault>) -> (
    StreamState,
    StreamOutput,
) {
    (StreamState { phase: StreamPhase::Finished, ..s }, StreamOutput::Done(r))
}

/// The chunk made of what is held. It is the last one if it reaches the length
/// that the file had when it was opened.
pub open spec fn held_chunk(s: StreamState, held: Seq<u8>) -> ChunkView {
    ChunkView {
        header: HeaderView {
            offset: s.offset,
            chunk_hash: digest_text(held),
            len: held.len() as u32,
            last: s.offset + held.len() >= s.total,
        },
        payload: held,
    }
}

/// Sends what is held. After the last chunk, or at the end of the file, that
/// is all.
pub open spec fn stream_sends(s: StreamState, held: Seq<u8>, eof: bool) -> (StreamState, StreamOutput) {
    let chunk = held_chunk(s, held);
    let last = chunk.header.last;
    (
        StreamState {
            total: s.total,
            offset: if last {
                s.offset
            } else {
                (s.offset + held.len()) as u64
            },
            held: Seq::empty(),
            phase: StreamPhase::Sending { stop: last || eof },
        },
        StreamOutput::Reply(chunk),
    )
}

/// What a stream does on an event: it gathers bytes until a chunk is full or
/// the file ends, sends the chunk, and starts over until the last one is out.
/// Events that are not expected have no meaning.
pub open spec fn stream_next(s: StreamState, e: StreamInput) -> (StreamState, StreamOutput) {
    match (s.phase, e) {
        (StreamPhase::Reading, StreamInput::Read(b)) => {
            let held = s.held + b;
            if held.len() == 0 {
                stream_finished(s, Ok(()))
            } else if b.len() == 0 || held.len() == CHUNK_SIZE || s.offset + held.len() >= s.total {
                stream_sends(s, held, b.len() == 0)
            } else {
                (
                    StreamState { held, ..s },
                    StreamOutput::Read { max: (CHUNK_SIZE - held.len()) as nat },
                )
            }
        },
        (_, StreamInput::IoFailed(e)) => stream_finished(s, Err(TransferFault::Io(e))),
        (StreamPhase::Sending { stop }, StreamInput::Sent) => if stop {
            stream_finished(s, Ok(()))
        } else {
            (
                StreamState { phase: StreamPhase::Reading, ..s },
                StreamOutput::Read { max: CHUNK_SIZE as nat },
            )
        },
        (_, StreamInput::EncodeFailed(t)) => stream_finished(
            s,
            Err(TransferFault::Transport("encoding chunk header: "@ + t)),
        ),
        (_, StreamInput::ReplyFailed(t)) => stream_finished(
            s,
            Err(TransferFault::Transport("reply: "@ + t)),
        ),
        _ => (s, StreamOutput::Done(Ok(()))),
    }
}

/// A file on its way out.
pub struct ChunkStream {
    total: u64,
    offset: u64,
    held: Vec<u8>,
    phase: StreamPhase,
}

impl View for ChunkStream {
    type V = StreamState;

    closed spec fn view(&self) -> StreamState {
        StreamState {
            total: self.total,
            offset: self.offset,
            held: self.held@,
            phase: self.phase,
        }
    }
}

/// The state in which a file of `total` bytes starts out.
pub open spec fn stream_start(total: u64) -> StreamState {
    StreamState { total, offset: 0, held: Seq::empty(), phase: StreamPhase::Reading }
}

impl ChunkStream {
    /// Start to stream an open file of `total` bytes.
    #[must_use]
    pub fn new(total: u64) -> (r: (Self, StreamAction))
        ensures
            r.0@ == stream_start(total),
            r.1@ == (StreamOutput::Read { max: CHUNK_SIZE as nat }),
    {
        (
            ChunkStream { total, offset: 0, held: Vec::new(), phase: StreamPhase::Reading },
            StreamAction::Read { max: CHUNK_SIZE },
        )
    }

    fn done(&mut self, r: Result<(), TransferError>) -> (action: StreamAction)
        ensures
            final(self)@ == (StreamState { phase: StreamPhase::Finished, ..old(self)@ }),
            action == StreamAction::Done(r),
    {
        self.phase = StreamPhase::Finished;
        StreamAction::Done(r)
    }

    fn send(&mut self, eof: bool) -> (action: StreamAction)
        requires
            0 < old(self)@.held.len() <= CHUNK_SIZE,
        ensures
            (final(self)@, action@) == stream_sends(old(self)@, old(self)@.held, eof),
    {
        let mut payload: Vec<u8> = Vec::new();
        std::mem::swap(&mut payload, &mut self.held);
        let n: u64 = payload.len() as u64;
        let last: bool = self.offset >= self.total || n >= self.total - self.offset;
        let header = ChunkHeader {
            offset: self.offset,
            chunk_hash: ChunkVerifier::hash(payload.as_slice()),
            len: payload.len() as u32,
            last,
        };
        if !last {
            self.offset = self.offset + n;
        }
        self.phase = StreamPhase::Sending { stop: last || eof };
        StreamAction::Reply { header, payload }
    }

    /// The next action after an event.
    pub fn step(&mut self, event: StreamEvent) -> (action: StreamAction)
        requires
            stream_expects(old(self)@, event@),
        ensures
            (final(self)@, action@) == stream_next(old(self)@, event@),
    {
        match event {
            StreamEvent::Read(bytes) => {
                let mut bytes = bytes;
                let eof: bool = bytes.len() == 0;
                let ghost before = self@;
                let ghost read = bytes@;
                self.held.append(&mut bytes);
                assert(self@.held =~= before.held + read);
                let n: u64 = self.held.len() as u64;
                if n == 0 {
                    self.done(Ok(()))
                } else if eof || self.held.len() == CHUNK_SIZE || self.offset >= self.total || n
                    >= self.total - self.offset {
                    self.send(eof)
                } else {
                    StreamAction::Read { max: CHUNK_SIZE - self.held.len() }
                }
            },
            StreamEvent::IoFailed(e) => self.done(Err(TransferError::Io(e))),
            StreamEvent::Sent => match self.phase {
                StreamPhase::Sending { stop } => if stop {
                    self.done(Ok(()))
                } else {
                    self.phase = StreamPhase::Reading;
                    StreamAction::Read { max: CHUNK_SIZE }
                },
                _ => self.done(Ok(())),
            },
            StreamEvent::EncodeFailed(t) => self.done(
                Err(TransferError::Transport(prefixed("encoding chunk header: ", t.as_str()))),
            ),
            StreamEvent::ReplyFailed(t) => self.done(
                Err(TransferError::Transport(prefixed("reply: ", t.as_str()))),
            ),
        }
    }
}

// ---------------------------------------------------------------------------
// What reaches the other side
// ---------------------------------------------------------------------------

/// A stream together with the file it reads and the replies that went out.
#[verifier::ext_equal]
pub struct StreamWorld {
    pub state: StreamState,
    pub action: StreamOutput,
    /// How much of the file was read.
    pub pos: int,
    /// The chunks that went out.
    pub sent: Seq<ChunkView>,
}

/// How many bytes a read gives when it wants `want`: at least one where there
/// are any, and no more than there is room for.
pub open spec fn read_size(want: int, max: nat, left: int) -> int {
    let room = if max < left {
        max as int
    } else {
        left
    };
    if want > room {
        room
    } else if want < 1 && room > 0 {
        1
    } else if want < 0 {
        0
    } else {
        want
    }
}

/// One action is performed and the stream steps on. A read at position `p`
/// wants `sizes(p)` bytes; sending never fails.
pub open spec fn stream_tick(w: StreamWorld, file: Seq<u8>, sizes: spec_fn(int) -> int) -> StreamWorld {
    match w.action {
        StreamOutput::Read { max } => {
            let n = read_size(sizes(w.pos), max, file.len() - w.pos);
            let (state, action) = stream_next(
                w.state,
                StreamInput::Read(file.subrange(w.pos, w.pos + n)),
            );
            StreamWorld { state, action, pos: w.pos + n, sent: w.sent }
        },
        StreamOutput::Reply(chunk) => {
            let (state, action) = stream_next(w.state, StreamInput::Sent);
            StreamWorld { state, action, pos: w.pos, sent: w.sent.push(chunk) }
        },
        StreamOutput::Done(_) => w,
    }
}

/// The stream after `n` actions.
pub open spec fn stream_after(
    w: StreamWorld,
    file: Seq<u8>,
    sizes: spec_fn(int) -> int,
    n: nat,
) -> StreamWorld
    decreases n,
{
    if n == 0 {
        w
    } else {
        stream_after(stream_tick(w, file, sizes), file, sizes, (n - 1) as nat)
    }
}

/// The world in which `file` starts out.
pub open spec fn stream_world(file: Seq<u8>) -> StreamWorld {
    StreamWorld {
        state: stream_start(file.len() as u64),
        action: StreamOutput::Read { max: CHUNK_SIZE as nat },
        pos: 0,
        sent: Seq::empty(),
    }
}

/// The stream is done, and what went out are the chunks of the file, in order.
pub open spec fn streamed(w: StreamWorld, file: Seq<u8>) -> bool {
    w.action == StreamOutput::Done(Ok::<(), TransferFault>(())) && w.sent == chunks_of(file)
}

spec fn on_track(w: StreamWorld, file: Seq<u8>) -> bool {
    let k = w.sent.len() as int;
    let len = file.len();
    &&& w.state.total == len
    &&& match w.state.phase {
        StreamPhase::Reading => {
            &&& w.action == (StreamOutput::Read { max: (CHUNK_SIZE - w.state.held.len()) as nat })
            &&& w.state.offset == k * CHUNK_SIZE <= w.pos
            &&& w.state.held == file.subrange(w.state.offset as int, w.pos)
            &&& w.pos - w.state.offset < CHUNK_SIZE
            &&& len > 0 ==> w.pos < len
            &&& len == 0 ==> w.pos == 0
            &&& k <= chunk_count(len)
            &&& w.sent == chunks_of(file).take(k)
        },
        StreamPhase::Sending { stop } => {
            &&& k < chunk_count(len)
            &&& w.action == StreamOutput::Reply(chunk_of(file, k))
            &&& stop == (k + 1 == chunk_count(len))
            &&& !stop ==> w.state.offset == (k + 1) * CHUNK_SIZE
            &&& w.state.held.len() == 0
            &&& w.pos == chunk_end(len, k)
            &&& w.sent == chunks_of(file).take(k)
        },
        StreamPhase::Finished => streamed(w, file),
    }
}

spec fn steps_left(w: StreamWorld, file: Seq<u8>) -> int {
    match w.state.phase {
        StreamPhase::Reading => 2 * (file.len() - w.pos) + 1,
        StreamPhase::Sending { .. } => 2 * (file.len() - w.pos) + 2,
        StreamPhase::Finished => 0,
    }
}

proof fn lemma_stream_tick(w: StreamWorld, file: Seq<u8>, sizes: spec_fn(int) -> int)
    requires
        file.len() <= u64::MAX,
        on_track(w, file),
        w.state.phase !is Finished,
    ensures
        on_track(stream_tick(w, file, sizes), file),
        0 <= steps_left(stream_tick(w, file, sizes), file) < steps_left(w, file),
{
    let k = w.sent.len() as int;
    let len = file.len();
    let next = stream_tick(w, file, sizes);
    match w.state.phase {
        StreamPhase::Reading => {
            let max = (CHUNK_SIZE - w.state.held.len()) as nat;
            let n = read_size(sizes(w.pos), max, len - w.pos);
            let b = file.subrange(w.pos, w.pos + n);
            let held = w.state.held + b;
            assert(held =~= file.subrange(w.state.offset as int, w.pos + n));
            if len == 0 {
                assert(next.sent =~= chunks_of(file));
            } else if held.len() == CHUNK_SIZE || w.state.offset + held.len() >= len {
                assert(k < chunk_count(len)) by {
                    if k == chunk_count(len) {
                        assert(k * CHUNK_SIZE >= len);
                    }
                }
                lemma_chunk_bounds(len, k);
                assert(w.pos + n == chunk_end(len, k));
                assert(held_chunk(w.state, held) =~= chunk_of(file, k));
            }
        },
        StreamPhase::Sending { stop } => {
            lemma_chunk_bounds(len, k);
            assert(next.sent =~= chunks_of(file).take(k + 1));
            if stop {
                assert(next.sent =~= chunks_of(file));
            } else {
                assert(next.state.held =~= file.subrange(next.state.offset as int, next.pos));
            }
        },
        _ => {},
    }
}

proof fn lemma_stream_ends(w: StreamWorld, file: Seq<u8>, sizes: spec_fn(int) -> int) -> (n: nat)
    requires
        file.len() <= u64::MAX,
        on_track(w, file),
    ensures
        streamed(stream_after(w, file, sizes, n), file),
    decreases steps_left(w, file),
{
    if w.state.phase is Finished {
        0
    } else {
        lemma_stream_tick(w, file, sizes);
        let n = lemma_stream_ends(stream_tick(w, file, sizes), file, sizes);
        n + 1
    }
}

/// Law: however the reads of a file are cut, the stream ends well and what it
/// sent are the chunks of the file, in order: every chunk but the last is full,
/// every offset is a multiple of the chunk size, and the last chunk, and no
/// other, is marked as the last. An empty file sends nothing.
pub proof fn law_file_is_streamed_in_chunks(file: Seq<u8>, sizes: spec_fn(int) -> int)
    requires
        file.len() <= u64::MAX,
    ensures
        exists|n: nat|
            streamed(#[trigger] stream_after(stream_world(file), file, sizes, n), file),
        forall|k: int|
            0 <= k < chunks_of(file).len() ==> {
                let c = #[trigger] chunks_of(file)[k];
                &&& c.header.offset == k * CHUNK_SIZE
                &&& c.header.len == c.payload.len()
                &&& c.header.last == (k == chunks_of(file).len() - 1)
                &&& !c.header.last ==> c.payload.len() == CHUNK_SIZE
            },
        file.len() == 0 <==> chunks_of(file).len() == 0,
{
    let w = stream_world(file);
    assert(w.sent =~= chunks_of(file).take(0));
    assert(w.state.held =~= file.subrange(0, 0));
    let n = lemma_stream_ends(w, file, sizes);
    assert forall|k: int| 0 <= k < chunks_of(file).len() implies {
        let c = #[trigger] chunks_of(file)[k];
        &&& c.header.offset == k * CHUNK_SIZE
        &&& c.header.len == c.payload.len()
        &&& c.header.last == (k == chunks_of(file).len() - 1)
        &&& !c.header.last ==> c.payload.len() == CHUNK_SIZE
    } by {
        lemma_chunk_bounds(file.len(), k);
    }
}

/// Law: what goes into a reply. It carries exactly the bytes that were read since the
/// last one, at the offset up to which the file was sent, with the BLAKE3 hash of these
/// bytes; it is marked as the last exactly if it reaches the length that the file had.
/// Nothing is sent before a chunk is full, the file's length is reached or the file has
/// ended.
pub proof fn law_what_goes_into_a_reply(
    stream: &mut ChunkStream,
    bytes: Vec<u8>,
    action: StreamAction,
)
    requires
        call_ensures(ChunkStream::step, (stream, StreamEvent::Read(bytes)), action),
        old(stream)@.phase is Reading,
        stream_expects(old(stream)@, StreamInput::Read(bytes@)),
    ensures
        ({
            let s = old(stream)@;
            let held = s.held + bytes@;
            let due = bytes@.len() == 0 || held.len() == 1048576 || s.offset + held.len()
                >= s.total;
            &&& held.len() == 0 ==> (action matches StreamAction::Done(r) && r is Ok)
            &&& held.len() > 0 && due ==> (action matches StreamAction::Reply { header, payload }
                && payload@ == held && header.offset == s.offset && header.len == held.len()
                && header.chunk_hash@ == hex_encode(blake3_digest(held)) && header.last == (s.offset
                + held.len() >= s.total) && final(stream)@.phase == (StreamPhase::Sending {
                stop: header.last || bytes@.len() == 0,
            }) && final(stream)@.held.len() == 0 && (!header.last ==> final(stream)@.offset
                == s.offset + held.len()))
            &&& held.len() > 0 && !due ==> (action matches StreamAction::Read { max } && max
                == 1048576 - held.len() && final(stream)@.held == held && final(stream)@.offset
                == s.offset && final(stream)@.phase is Reading)
        }),
        final(stream)@.total == old(stream)@.total,
{
}

/// Law: a stream begins at the start of the file and asks for a whole chunk; after a
/// reply that is not the last one it goes on behind it; and it ends when the last one is
/// out.
pub proof fn law_how_a_stream_goes_on(
    total: u64,
    fresh: (ChunkStream, StreamAction),
    stream: &mut ChunkStream,
    action: StreamAction,
)
    requires
        call_ensures(ChunkStream::new, (total,), fresh),
        call_ensures(ChunkStream::step, (stream, StreamEvent::Sent), action),
        old(stream)@.phase is Sending,
    ensures
        fresh.0@.total == total && fresh.0@.offset == 0 && fresh.0@.held.len() == 0,
        fresh.1 matches StreamAction::Read { max } && max == 1048576,
        old(stream)@.phase->stop ==> (action matches StreamAction::Done(r) && r is Ok),
        !old(stream)@.phase->stop ==> (action matches StreamAction::Read { max } && max
            == 1048576) && final(stream)@.phase is Reading,
        final(stream)@.offset == old(stream)@.offset && final(stream)@.held == old(stream)@.held
            && final(stream)@.total == old(stream)@.total,
{
}

/// Law: whatever fails ends the stream and is told: the error of the disk as it is, the
/// others with their cause in full.
pub proof fn law_failed_stream_is_told(
    disk: &mut ChunkStream,
    error: std::io::Error,
    unread: StreamAction,
    encoding: &mut ChunkStream,
    reply: &mut ChunkStream,
    cause: String,
    unencoded: StreamAction,
    unsent: StreamAction,
)
    requires
        call_ensures(ChunkStream::step, (disk, StreamEvent::IoFailed(error)), unread),
        call_ensures(ChunkStream::step, (encoding, StreamEvent::EncodeFailed(cause)), unencoded),
        call_ensures(ChunkStream::step, (reply, StreamEvent::ReplyFailed(cause)), unsent),
        old(disk)@.phase is Reading,
        old(encoding)@.phase is Sending,
        old(reply)@.phase is Sending,
    ensures
        unread matches StreamAction::Done(Err(TransferError::Io(e))) && e == error,
        unencoded matches StreamAction::Done(Err(TransferError::Transport(t))) && t@.len() == 23
            + cause@.len() && stands_at(t@, 0, "encoding chunk header: "@) && stands_at(t@, 23, cause@),
        unsent matches StreamAction::Done(Err(TransferError::Transport(t))) && t@.len() == 7
            + cause@.len() && stands_at(t@, 0, "reply: "@) && stands_at(t@, 7, cause@),
{
    reveal_strlit("encoding chunk header: ");
    reveal_strlit("reply: ");
    lemma_stands_between("encoding chunk header: "@, cause@, Seq::empty());
    lemma_stands_between("reply: "@, cause@, Seq::empty());
    assert(unread@ is Done && unread@->Done_0 is Err);
    assert(unencoded@ is Done && unencoded@->Done_0 is Err);
    assert(unsent@ is Done && unsent@->Done_0 is Err);
}

} // verus!
