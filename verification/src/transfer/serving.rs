//! The serving of queries: one after the other, until there are no more.
use vstd::prelude::*;

use crate::transfer::error::{TransferError, TransferFault};
use crate::transfer::receiver::selector_of;
use crate::transfer::service::{answered, law_selector_names_the_digest, Answer, AnswerView, TransferService};

verus! {

// ---------------------------------------------------------------------------
// Events and actions
// ---------------------------------------------------------------------------

/// What happens to the task that serves.
pub enum ServeEvent<'a> {
    /// A query arrived on this key.
    Query(&'a str),
    /// The stream that was asked for ended this way.
    Streamed(Result<(), TransferError>),
    /// No more queries will arrive.
    Closed,
}

/// What is worth noting about what just happened.
pub enum ServeNote<'a> {
    /// Nothing is.
    Nothing,
    /// The query names no digest.
    NoDigest,
    /// The digest is not hosted.
    NotHosted { digest: &'a str },
    /// The stream failed.
    StreamFailed(TransferError),
}

/// What that task does next.
pub enum ServeAction<'a, P> {
    /// Wait for a query.
    Receive(ServeNote<'a>),
    /// Stream the file at `path` back to the peer whose query came last.
    Stream { digest: &'a str, path: &'a P },
    /// End serving.
    Stop,
}

/// A serving event in mathematical terms.
pub enum ServeInput {
    Query(Seq<char>),
    Streamed(Result<(), TransferFault>),
    Closed,
}

/// A note in mathematical terms.
pub enum NoteView {
    Nothing,
    NoDigest,
    NotHosted { digest: Seq<char> },
    StreamFailed(TransferFault),
}

/// A serving action in mathematical terms.
pub enum ServeOutput<P> {
    Receive(NoteView),
    Stream { digest: Seq<char>, path: P },
    Stop,
}

impl View for ServeEvent<'_> {
    type V = ServeInput;

    open spec fn view(&self) -> ServeInput {
        match self {
            ServeEvent::Query(key) => ServeInput::Query(key@),
            ServeEvent::Streamed(Ok(())) => ServeInput::Streamed(Ok(())),
            ServeEvent::Streamed(Err(e)) => ServeInput::Streamed(Err(e@)),
            ServeEvent::Closed => ServeInput::Closed,
        }
    }
}

impl View for ServeNote<'_> {
    type V = NoteView;

    open spec fn view(&self) -> NoteView {
        match self {
            ServeNote::Nothing => NoteView::Nothing,
            ServeNote::NoDigest => NoteView::NoDigest,
            ServeNote::NotHosted { digest } => NoteView::NotHosted { digest: digest@ },
            ServeNote::StreamFailed(e) => NoteView::StreamFailed(e@),
        }
    }
}

impl<P> View for ServeAction<'_, P> {
    type V = ServeOutput<P>;

    open spec fn view(&self) -> ServeOutput<P> {
        match self {
            ServeAction::Receive(note) => ServeOutput::Receive(note@),
            ServeAction::Stream { digest, path } => ServeOutput::Stream {
                digest: digest@,
                path: **path,
            },
            ServeAction::Stop => ServeOutput::Stop,
        }
    }
}

// ---------------------------------------------------------------------------
// The rules of serving
// ---------------------------------------------------------------------------

/// What the serving task does on an event, where the files `hosted` are hosted.
pub open spec fn serve_next<P>(hosted: Map<Seq<char>, P>, event: ServeInput) -> ServeOutput<P> {
    match event {
        ServeInput::Query(key) => match answered(hosted, key) {
            AnswerView::NoDigest => ServeOutput::Receive(NoteView::NoDigest),
            AnswerView::NotHosted { digest } => ServeOutput::Receive(
                NoteView::NotHosted { digest },
            ),
            AnswerView::Stream { digest, path } => ServeOutput::Stream { digest, path },
        },
        ServeInput::Streamed(Ok(())) => ServeOutput::Receive(NoteView::Nothing),
        ServeInput::Streamed(Err(e)) => ServeOutput::Receive(NoteView::StreamFailed(e)),
        ServeInput::Closed => ServeOutput::Stop,
    }
}

impl<P> TransferService<P> {
    /// The step of the serving task. A query that cannot be answered gets no
    /// reply, and neither that nor a stream that fails ends the task: it goes on
    /// until there are no more queries.
    pub fn serve_step<'a>(&'a self, event: ServeEvent<'a>) -> (r: ServeAction<'a, P>)
        requires
            self.wf(),
        ensures
            r@ == serve_next(self.hosted(), event@),
    {
        match event {
            ServeEvent::Query(key) => match self.serve(key) {
                Answer::NoDigest => ServeAction::Receive(ServeNote::NoDigest),
                Answer::NotHosted { digest } => ServeAction::Receive(
                    ServeNote::NotHosted { digest },
                ),
                Answer::Stream { digest, path } => ServeAction::Stream { digest, path },
            },
            ServeEvent::Streamed(Ok(())) => ServeAction::Receive(ServeNote::Nothing),
            ServeEvent::Streamed(Err(e)) => ServeAction::Receive(ServeNote::StreamFailed(e)),
            ServeEvent::Closed => ServeAction::Stop,
        }
    }
}

// ---------------------------------------------------------------------------
// A service among its operators and its peers
// ---------------------------------------------------------------------------

/// What comes to a service that is serving.
pub enum Arrival<P> {
    /// An operator registers a file for a digest.
    Register { digest: Seq<char>, path: P },
    /// A peer's query on a key.
    Query(Seq<char>),
    /// The queryable is closed.
    Closed,
}

/// A query and the file that was streamed back to it, if any.
#[verifier::ext_equal]
pub struct Served<P> {
    pub key: Seq<char>,
    pub file: Option<P>,
}

/// A service that is serving: what its task does next, what it hosts, what is
/// still to come, and what was given to each query so far.
#[verifier::ext_equal]
pub struct Serving<P> {
    pub action: ServeOutput<P>,
    pub hosted: Map<Seq<char>, P>,
    pub coming: Seq<Arrival<P>>,
    pub served: Seq<Served<P>>,
}

/// The file that an action streams back, if it does.
pub open spec fn streamed_by<P>(action: ServeOutput<P>) -> Option<P> {
    match action {
        ServeOutput::Stream { path, .. } => Some(path),
        _ => None,
    }
}

/// One thing happens. A registration can come at any time. Otherwise the action of
/// the task is performed, and it waits where no query has come. `outcome` says how
/// the stream for each query ends, by the number of the query.
pub open spec fn serve_tick<P>(
    s: Serving<P>,
    outcome: spec_fn(nat) -> Result<(), TransferFault>,
) -> Serving<P> {
    if s.coming.len() > 0 && s.coming[0] is Register {
        Serving {
            hosted: s.hosted.insert(s.coming[0]->digest, s.coming[0]->path),
            coming: s.coming.skip(1),
            ..s
        }
    } else {
        match s.action {
            ServeOutput::Receive(_) => if s.coming.len() == 0 {
                s
            } else {
                match s.coming[0] {
                    Arrival::Query(key) => {
                        let action = serve_next(s.hosted, ServeInput::Query(key));
                        Serving {
                            action,
                            coming: s.coming.skip(1),
                            served: s.served.push(Served { key, file: streamed_by(action) }),
                            ..s
                        }
                    },
                    _ => Serving {
                        action: serve_next(s.hosted, ServeInput::Closed),
                        coming: s.coming.skip(1),
                        ..s
                    },
                }
            },
            ServeOutput::Stream { .. } => Serving {
                action: serve_next(s.hosted, ServeInput::Streamed(outcome(s.served.len()))),
                ..s
            },
            ServeOutput::Stop => s,
        }
    }
}

/// The service after `n` things have happened.
pub open spec fn serve_after<P>(
    s: Serving<P>,
    outcome: spec_fn(nat) -> Result<(), TransferFault>,
    n: nat,
) -> Serving<P>
    decreases n,
{
    if n == 0 {
        s
    } else {
        serve_after(serve_tick(s, outcome), outcome, (n - 1) as nat)
    }
}

/// A service that begins to serve, with `hosted` registered before and `coming`
/// to come.
pub open spec fn serving<P>(hosted: Map<Seq<char>, P>, coming: Seq<Arrival<P>>) -> Serving<P> {
    Serving {
        action: ServeOutput::Receive(NoteView::Nothing),
        hosted,
        coming,
        served: Seq::empty(),
    }
}

/// What the service hosts after all of `coming`.
pub open spec fn hosted_after<P>(hosted: Map<Seq<char>, P>, coming: Seq<Arrival<P>>) -> Map<
    Seq<char>,
    P,
>
    decreases coming.len(),
{
    if coming.len() == 0 {
        hosted
    } else {
        let earlier = hosted_after(hosted, coming.drop_last());
        match coming.last() {
            Arrival::Register { digest, path } => earlier.insert(digest, path),
            _ => earlier,
        }
    }
}

/// How many of `coming` are queries.
pub open spec fn queries<P>(coming: Seq<Arrival<P>>) -> nat
    decreases coming.len(),
{
    if coming.len() == 0 {
        0
    } else if coming.last() is Query {
        queries(coming.drop_last()) + 1
    } else {
        queries(coming.drop_last())
    }
}

/// What is owed to a query on `key` where `hosted` is hosted.
pub open spec fn owed<P>(hosted: Map<Seq<char>, P>, key: Seq<char>) -> Served<P> {
    Served {
        key,
        file: match answered(hosted, key) {
            AnswerView::Stream { path, .. } => Some(path),
            _ => None,
        },
    }
}

/// Whether the queryable is closed in the course of `coming`.
pub open spec fn closes<P>(coming: Seq<Arrival<P>>) -> bool {
    exists|i: int| 0 <= i < coming.len() && #[trigger] coming[i] is Closed
}

// ---------------------------------------------------------------------------
// Every query is answered
// ---------------------------------------------------------------------------

/// Whether the query `coming[i]`, if it is one and comes before the closing, was
/// given what it is owed.
spec fn was_served<P>(
    served: Seq<Served<P>>,
    hosted: Map<Seq<char>, P>,
    coming: Seq<Arrival<P>>,
    i: int,
) -> bool {
    let before = coming.take(i);
    coming[i] is Query && !closes(before) ==> {
        &&& queries(before) < served.len()
        &&& served[queries(before) as int] == owed(
            hosted_after(hosted, before),
            coming[i]->Query_0,
        )
    }
}

/// `j` of the things that come have come.
spec fn on_course<P>(
    s: Serving<P>,
    hosted: Map<Seq<char>, P>,
    coming: Seq<Arrival<P>>,
    j: int,
) -> bool {
    let past = coming.take(j);
    &&& 0 <= j <= coming.len()
    &&& s.coming == coming.skip(j)
    &&& s.action is Stop <==> closes(past)
    &&& !closes(past) ==> s.hosted == hosted_after(hosted, past) && s.served.len() == queries(past)
    &&& forall|i: int| 0 <= i < j ==> #[trigger] was_served(s.served, hosted, coming, i)
}

spec fn at_rest<P>(s: Serving<P>) -> bool {
    s.action is Stop || (s.action is Receive && s.coming.len() == 0)
}

spec fn happenings_left<P>(s: Serving<P>) -> int {
    2 * s.coming.len() + if s.action is Stream {
        1int
    } else {
        0int
    }
}

proof fn lemma_one_more<P>(hosted: Map<Seq<char>, P>, coming: Seq<Arrival<P>>, j: int)
    requires
        0 <= j < coming.len(),
    ensures
        closes(coming.take(j + 1)) <==> closes(coming.take(j)) || coming[j] is Closed,
        queries(coming.take(j + 1)) == queries(coming.take(j)) + if coming[j] is Query {
            1nat
        } else {
            0nat
        },
        hosted_after(hosted, coming.take(j + 1)) == match coming[j] {
            Arrival::Register { digest, path } => hosted_after(hosted, coming.take(j)).insert(
                digest,
                path,
            ),
            _ => hosted_after(hosted, coming.take(j)),
        },
        coming.skip(j).skip(1) == coming.skip(j + 1),
{
    let past = coming.take(j);
    let now = coming.take(j + 1);
    assert(now.drop_last() =~= past);
    assert(now.last() == coming[j]);
    assert(coming.skip(j).skip(1) =~= coming.skip(j + 1));
    if closes(past) {
        let i = choose|i: int| 0 <= i < past.len() && #[trigger] past[i] is Closed;
        assert(now[i] is Closed);
    }
    if coming[j] is Closed {
        assert(now[j] is Closed);
    }
    if closes(now) && !(coming[j] is Closed) {
        let i = choose|i: int| 0 <= i < now.len() && #[trigger] now[i] is Closed;
        assert(past[i] is Closed);
    }
}

proof fn lemma_serve_tick<P>(
    s: Serving<P>,
    hosted: Map<Seq<char>, P>,
    coming: Seq<Arrival<P>>,
    outcome: spec_fn(nat) -> Result<(), TransferFault>,
    j: int,
) -> (k: int)
    requires
        on_course(s, hosted, coming, j),
    ensures
        on_course(serve_tick(s, outcome), hosted, coming, k),
        at_rest(s) ==> at_rest(serve_tick(s, outcome)),
        !at_rest(s) ==> happenings_left(serve_tick(s, outcome)) < happenings_left(s),
{
    let next = serve_tick(s, outcome);
    if next.coming == s.coming {
        j
    } else {
        lemma_one_more(hosted, coming, j);
        assert(s.coming[0] == coming[j]);
        assert forall|i: int| 0 <= i < j + 1 implies #[trigger] was_served(
            next.served,
            hosted,
            coming,
            i,
        ) by {
            if i < j {
                assert(was_served(s.served, hosted, coming, i));
            }
        }
        j + 1
    }
}

proof fn lemma_serve_after<P>(
    s: Serving<P>,
    hosted: Map<Seq<char>, P>,
    coming: Seq<Arrival<P>>,
    outcome: spec_fn(nat) -> Result<(), TransferFault>,
    j: int,
    n: nat,
) -> (k: int)
    requires
        on_course(s, hosted, coming, j),
        at_rest(s) || happenings_left(s) <= n,
    ensures
        on_course(serve_after(s, outcome, n), hosted, coming, k),
        at_rest(serve_after(s, outcome, n)),
    decreases n,
{
    if n == 0 {
        j
    } else {
        let k = lemma_serve_tick(s, hosted, coming, outcome, j);
        lemma_serve_after(serve_tick(s, outcome), hosted, coming, outcome, k, (n - 1) as nat)
    }
}

/// Law: every query that comes before the queryable is closed is answered, in its
/// turn, from what is hosted when it comes, whatever queries came before it and
/// however their streams ended.
pub proof fn law_every_query_is_answered<P>(
    hosted: Map<Seq<char>, P>,
    coming: Seq<Arrival<P>>,
    outcome: spec_fn(nat) -> Result<(), TransferFault>,
    n: nat,
    i: int,
)
    requires
        2 * coming.len() <= n,
        0 <= i < coming.len(),
        coming[i] is Query,
        !closes(coming.take(i)),
    ensures
        ({
            let s = serve_after(serving(hosted, coming), outcome, n);
            let before = coming.take(i);
            &&& queries(before) < s.served.len()
            &&& s.served[queries(before) as int] == owed(
                hosted_after(hosted, before),
                coming[i]->Query_0,
            )
        }),
{
    let j = lemma_course(hosted, coming, outcome, n);
    let s = serve_after(serving(hosted, coming), outcome, n);
    if j <= i {
        assert(closes(coming.take(j)));
        let c = choose|c: int|
            0 <= c < coming.take(j).len() && #[trigger] coming.take(j)[c] is Closed;
        assert(coming.take(i)[c] is Closed);
    }
    assert(was_served(s.served, hosted, coming, i));
}

proof fn lemma_course<P>(
    hosted: Map<Seq<char>, P>,
    coming: Seq<Arrival<P>>,
    outcome: spec_fn(nat) -> Result<(), TransferFault>,
    n: nat,
) -> (j: int)
    requires
        2 * coming.len() <= n,
    ensures
        on_course(serve_after(serving(hosted, coming), outcome, n), hosted, coming, j),
        at_rest(serve_after(serving(hosted, coming), outcome, n)),
        j < coming.len() ==> closes(coming.take(j)),
{
    let start = serving(hosted, coming);
    assert(coming.skip(0) =~= coming);
    assert(coming.take(0) =~= Seq::empty());
    lemma_serve_after(start, hosted, coming, outcome, 0, n)
}

/// Law: only the closing of the queryable ends serving. A query without a digest,
/// a digest that is not hosted and a stream that fails do not.
pub proof fn law_serving_ends_when_closed<P>(
    hosted: Map<Seq<char>, P>,
    coming: Seq<Arrival<P>>,
    outcome: spec_fn(nat) -> Result<(), TransferFault>,
    n: nat,
)
    requires
        2 * coming.len() <= n,
    ensures
        ({
            let s = serve_after(serving(hosted, coming), outcome, n);
            if closes(coming) {
                s.action is Stop
            } else {
                s.action is Receive && s.served.len() == queries(coming)
            }
        }),
{
    let j = lemma_course(hosted, coming, outcome, n);
    assert(coming.take(coming.len() as int) =~= coming);
    if closes(coming.take(j)) {
        let c = choose|c: int|
            0 <= c < coming.take(j).len() && #[trigger] coming.take(j)[c] is Closed;
        assert(coming[c] is Closed);
    }
}

/// Whether `arrival` registers a file for `digest`.
pub open spec fn registers<P>(arrival: Arrival<P>, digest: Seq<char>) -> bool {
    match arrival {
        Arrival::Register { digest: d, .. } => d == digest,
        _ => false,
    }
}

proof fn lemma_hosted_since<P>(
    hosted: Map<Seq<char>, P>,
    coming: Seq<Arrival<P>>,
    digest: Seq<char>,
    j: int,
    i: int,
)
    requires
        0 <= j <= i <= coming.len(),
        forall|m: int| j <= m < i ==> !registers(#[trigger] coming[m], digest),
    ensures
        hosted_after(hosted, coming.take(i)).contains_key(digest) == hosted_after(
            hosted,
            coming.take(j),
        ).contains_key(digest),
        hosted_after(hosted, coming.take(i))[digest] == hosted_after(
            hosted,
            coming.take(j),
        )[digest],
    decreases i - j,
{
    if j < i {
        lemma_hosted_since(hosted, coming, digest, j, i - 1);
        lemma_one_more(hosted, coming, i - 1);
        assert(!registers(coming[i - 1], digest));
    }
}

/// Law: a query for a digest gets the file that was registered for it last, before
/// or while the service serves, whatever else comes and however other streams end.
pub proof fn law_query_gets_the_last_registered_file<P>(
    hosted: Map<Seq<char>, P>,
    coming: Seq<Arrival<P>>,
    outcome: spec_fn(nat) -> Result<(), TransferFault>,
    n: nat,
    digest: Seq<char>,
    path: P,
    j: int,
    i: int,
)
    requires
        2 * coming.len() <= n,
        0 <= j < i < coming.len(),
        coming[j] == (Arrival::Register { digest, path }),
        forall|m: int| j < m < i ==> !registers(#[trigger] coming[m], digest),
        coming[i] == Arrival::<P>::Query(selector_of(digest)),
        !closes(coming.take(i)),
    ensures
        ({
            let s = serve_after(serving(hosted, coming), outcome, n);
            let number = queries(coming.take(i));
            number < s.served.len() && s.served[number as int] == (Served {
                key: selector_of(digest),
                file: Some(path),
            })
        }),
{
    law_every_query_is_answered(hosted, coming, outcome, n, i);
    law_selector_names_the_digest(selector_of(digest), digest);
    lemma_one_more(hosted, coming, j);
    lemma_hosted_since(hosted, coming, digest, j + 1, i);
}

/// Law: a query for a digest for which nothing is registered since serving began
/// gets the file that was hosted for it before, and no reply if there was none.
pub proof fn law_query_gets_what_was_hosted<P>(
    hosted: Map<Seq<char>, P>,
    coming: Seq<Arrival<P>>,
    outcome: spec_fn(nat) -> Result<(), TransferFault>,
    n: nat,
    digest: Seq<char>,
    i: int,
)
    requires
        2 * coming.len() <= n,
        0 <= i < coming.len(),
        forall|m: int| 0 <= m < i ==> !registers(#[trigger] coming[m], digest),
        coming[i] == Arrival::<P>::Query(selector_of(digest)),
        !closes(coming.take(i)),
    ensures
        ({
            let s = serve_after(serving(hosted, coming), outcome, n);
            let number = queries(coming.take(i));
            number < s.served.len() && s.served[number as int] == (Served {
                key: selector_of(digest),
                file: if hosted.contains_key(digest) {
                    Some(hosted[digest])
                } else {
                    None
                },
            })
        }),
{
    law_every_query_is_answered(hosted, coming, outcome, n, i);
    law_selector_names_the_digest(selector_of(digest), digest);
    lemma_hosted_since(hosted, coming, digest, 0, i);
    assert(coming.take(0) =~= Seq::empty());
}

/// Law: what serving does with each thing that happens. A query is answered as the
/// service answers it: with the stream of the file, or with nothing and a note of why; the
/// end of a stream, good or bad, is followed by the next query; and only the closing of
/// the queryable ends it.
pub proof fn law_what_serving_does<P>(
    service: TransferService<P>,
    key: &str,
    answer: Answer<P>,
    first: ServeAction<P>,
    outcome: Result<(), TransferError>,
    second: ServeAction<P>,
    third: ServeAction<P>,
)
    requires
        call_ensures(TransferService::<P>::serve, (&service, key), answer),
        call_ensures(TransferService::<P>::serve_step, (&service, ServeEvent::Query(key)), first),
        call_ensures(
            TransferService::<P>::serve_step,
            (&service, ServeEvent::Streamed(outcome)),
            second,
        ),
        call_ensures(TransferService::<P>::serve_step, (&service, ServeEvent::Closed), third),
    ensures
        answer matches Answer::Stream { digest, path } ==> (first matches ServeAction::Stream {
            digest: d,
            path: p,
        } && d@ == digest@ && *p == *path),
        answer matches Answer::NotHosted { digest } ==> (first matches ServeAction::Receive(
            ServeNote::NotHosted { digest: d },
        ) && d@ == digest@),
        answer matches Answer::NoDigest ==> (first matches ServeAction::Receive(
            ServeNote::NoDigest,
        )),
        outcome is Ok ==> (second matches ServeAction::Receive(ServeNote::Nothing)),
        outcome matches Err(e) ==> (second matches ServeAction::Receive(
            ServeNote::StreamFailed(f),
        ) && f@ == e@),
        third is Stop,
{
    if let ServeAction::Receive(note) = first {
        assert(first@ == ServeOutput::<P>::Receive(note@));
    }
    if let ServeAction::Receive(note) = second {
        assert(second@ == ServeOutput::<P>::Receive(note@));
    }
}

} // verus!
