//! The transfer service of one process: what it hosts, and what it asks for.
use vstd::prelude::*;
use vstd::string::StringExecFns;

use crate::config::prefixed;
use crate::peer::PeerId;
use crate::text::{lemma_stands_between, same_text, stands_at, strip_prefix};
use crate::transfer::error::{TransferError, TransferFault};
use crate::transfer::receiver::{pull_start, selector_of, Pull, PullAction, PullOutput, TRANSFER_ROOT};

verus! {

/// Default per-pull deadline, in nanoseconds: five minutes. Configurable per
/// call via [`PullOptions`].
pub const DEFAULT_PULL_TIMEOUT: u128 = 300_000_000_000;

/// Per-pull tunables. `Default` is fine for normal model sizes.
#[derive(Clone, Copy, Debug)]
pub struct PullOptions {
    /// Total deadline for the pull, in nanoseconds. Default
    /// [`DEFAULT_PULL_TIMEOUT`].
    pub timeout: u128,
}

impl Default for PullOptions {
    fn default() -> (r: Self)
        ensures
            r.timeout == DEFAULT_PULL_TIMEOUT,
    {
        PullOptions { timeout: DEFAULT_PULL_TIMEOUT }
    }
}

/// A pull that is about to start: its first action, and its tunables.
pub struct PullJob {
    pub pull: Pull,
    pub action: PullAction,
    pub options: PullOptions,
}

/// What the service does with a query.
pub enum Answer<'a, P> {
    /// The query names no digest.
    NoDigest,
    /// The digest is not hosted. No reply is sent, so that the receiver simply
    /// sees none from this peer.
    NotHosted { digest: &'a str },
    /// The file at `path` is streamed back.
    Stream { digest: &'a str, path: &'a P },
}

/// An answer in mathematical terms.
pub enum AnswerView<P> {
    NoDigest,
    NotHosted { digest: Seq<char> },
    Stream { digest: Seq<char>, path: P },
}

impl<P> View for Answer<'_, P> {
    type V = AnswerView<P>;

    open spec fn view(&self) -> AnswerView<P> {
        match self {
            Answer::NoDigest => AnswerView::NoDigest,
            Answer::NotHosted { digest } => AnswerView::NotHosted { digest: digest@ },
            Answer::Stream { digest, path } => AnswerView::Stream {
                digest: digest@,
                path: **path,
            },
        }
    }
}

/// The digest that the key `selector` asks for, if it is such a key.
pub open spec fn digest_in(selector: Seq<char>) -> Option<Seq<char>> {
    let prefix = TRANSFER_ROOT@ + "/"@;
    if prefix.is_prefix_of(selector) {
        Some(selector.skip(prefix.len() as int))
    } else {
        None
    }
}

/// The answer to a query on the key `selector` where the files `hosted` are
/// hosted.
pub open spec fn answered<P>(hosted: Map<Seq<char>, P>, selector: Seq<char>) -> AnswerView<P> {
    match digest_in(selector) {
        None => AnswerView::NoDigest,
        Some(digest) => if hosted.contains_key(digest) {
            AnswerView::Stream { digest, path: hosted[digest] }
        } else {
            AnswerView::NotHosted { digest }
        },
    }
}

/// One artefact that the service hosts.
struct Artefact<P> {
    digest: String,
    path: P,
}

spec fn hosts<P>(rows: Seq<Artefact<P>>, digest: Seq<char>) -> bool {
    exists|i: int| 0 <= i < rows.len() && #[trigger] rows[i].digest@ == digest
}

spec fn row_for<P>(rows: Seq<Artefact<P>>, digest: Seq<char>) -> int {
    choose|i: int| 0 <= i < rows.len() && #[trigger] rows[i].digest@ == digest
}

spec fn index_of<P>(rows: Seq<Artefact<P>>) -> Map<Seq<char>, P> {
    Map::new(|d: Seq<char>| hosts(rows, d), |d: Seq<char>| rows[row_for(rows, d)].path)
}

spec fn distinct<P>(rows: Seq<Artefact<P>>) -> bool {
    forall|i: int, j: int|
        0 <= i < rows.len() && 0 <= j < rows.len() && i != j ==> #[trigger] rows[i].digest@
            != #[trigger] rows[j].digest@
}

proof fn lemma_index<P>(rows: Seq<Artefact<P>>, i: int)
    requires
        distinct(rows),
        0 <= i < rows.len(),
    ensures
        index_of(rows).contains_key(rows[i].digest@),
        index_of(rows)[rows[i].digest@] == rows[i].path,
{
    assert(hosts(rows, rows[i].digest@));
    assert(row_for(rows, rows[i].digest@) == i);
}

/// The transfer service. One per process.
///
/// `cache_dir` is where pulled artefacts land. `P` is the type of file paths.
pub struct TransferService<P> {
    cache_dir: P,
    artefacts: Vec<Artefact<P>>,
}

impl<P> TransferService<P> {
    /// Where pulled artefacts land.
    pub closed spec fn dir(self) -> P {
        self.cache_dir
    }

    /// What the service hosts: a file path for each digest.
    pub closed spec fn hosted(self) -> Map<Seq<char>, P> {
        index_of(self.artefacts@)
    }

    /// Every digest has one file.
    pub closed spec fn wf(self) -> bool {
        distinct(self.artefacts@)
    }

    /// Construct a transfer service rooted at `cache_dir`.
    #[must_use]
    pub fn new(cache_dir: P) -> (r: Self)
        ensures
            r.wf(),
            r.dir() == cache_dir,
            r.hosted() == Map::<Seq<char>, P>::empty(),
    {
        let r = TransferService { cache_dir, artefacts: Vec::new() };
        assert(index_of(r.artefacts@) =~= Map::<Seq<char>, P>::empty());
        r
    }

    /// Where pulled artefacts land.
    #[must_use]
    pub fn cache_dir(&self) -> (r: &P)
        ensures
            *r == self.dir(),
    {
        &self.cache_dir
    }

    fn find(&self, digest: &str) -> (r: Option<usize>)
        ensures
            match r {
                Some(i) => i < self.artefacts@.len() && self.artefacts@[i as int].digest@
                    == digest@,
                None => !hosts(self.artefacts@, digest@),
            },
    {
        let mut i: usize = 0;
        while i < self.artefacts.len()
            invariant
                i <= self.artefacts@.len(),
                forall|j: int| 0 <= j < i ==> #[trigger] self.artefacts@[j].digest@ != digest@,
            decreases self.artefacts@.len() - i,
        {
            if same_text(self.artefacts[i].digest.as_str(), digest) {
                return Some(i);
            }
            i = i + 1;
        }
        None
    }

    /// Register an artefact (digest-hex to file path) for the sender side to
    /// serve. A digest that is registered again is served from the new path.
    pub fn register(&mut self, digest_hex: String, path: P)
        requires
            old(self).wf(),
        ensures
            final(self).wf(),
            final(self).dir() == old(self).dir(),
            final(self).hosted() == old(self).hosted().insert(digest_hex@, path),
    {
        let ghost digest = digest_hex@;
        let ghost before = self.artefacts@;
        match self.find(digest_hex.as_str()) {
            Some(i) => {
                self.artefacts.set(i, Artefact { digest: digest_hex, path });
                proof {
                    let after = self.artefacts@;
                    assert(after[i as int].digest@ == digest);
                    assert forall|j: int| 0 <= j < before.len() implies #[trigger] after[j].digest@
                        == before[j].digest@ by {}
                    assert(distinct(after));
                    assert forall|d: Seq<char>| hosts(after, d) == #[trigger] hosts(before, d) by {
                        if hosts(before, d) {
                            assert(after[row_for(before, d)].digest@ == d);
                        }
                        if hosts(after, d) {
                            assert(before[row_for(after, d)].digest@ == d);
                        }
                    }
                    assert(hosts(before, digest));
                    self.lemma_registered(before, digest, path);
                }
            },
            None => {
                self.artefacts.push(Artefact { digest: digest_hex, path });
                proof {
                    let after = self.artefacts@;
                    let n = before.len() as int;
                    assert(after[n].digest@ == digest);
                    assert forall|j: int| 0 <= j < n implies #[trigger] after[j] == before[j] by {}
                    assert forall|i: int, j: int|
                        0 <= i < after.len() && 0 <= j < after.len() && i
                            != j implies #[trigger] after[i].digest@ != #[trigger] after[j].digest@ by {
                        if i < n {
                            assert(before[i].digest@ != digest);
                        }
                        if j < n {
                            assert(before[j].digest@ != digest);
                        }
                        if i < n && j < n {
                            assert(before[i].digest@ != before[j].digest@);
                        }
                    }
                    assert forall|d: Seq<char>|
                        hosts(after, d) == (d == digest || #[trigger] hosts(before, d)) by {
                        if hosts(before, d) {
                            assert(after[row_for(before, d)].digest@ == d);
                        }
                        if hosts(after, d) && d != digest {
                            assert(before[row_for(after, d)].digest@ == d);
                        }
                    }
                    self.lemma_registered(before, digest, path);
                }
            },
        }
    }

    proof fn lemma_registered(self, before: Seq<Artefact<P>>, digest: Seq<char>, path: P)
        requires
            distinct(before),
            distinct(self.artefacts@),
            forall|d: Seq<char>|
                hosts(self.artefacts@, d) == (d == digest || #[trigger] hosts(before, d)),
            exists|i: int|
                0 <= i < self.artefacts@.len() && #[trigger] self.artefacts@[i].digest@ == digest
                    && self.artefacts@[i].path == path,
            forall|j: int|
                0 <= j < before.len() && (#[trigger] before[j]).digest@ != digest ==> j
                    < self.artefacts@.len() && self.artefacts@[j] == before[j],
        ensures
            index_of(self.artefacts@) == index_of(before).insert(digest, path),
    {
        let after = self.artefacts@;
        let i = choose|i: int|
            0 <= i < after.len() && #[trigger] after[i].digest@ == digest && after[i].path == path;
        lemma_index(after, i);
        assert forall|d: Seq<char>| hosts(before, d) && d != digest implies index_of(after)[d]
            == index_of(before)[d] by {
            let j = row_for(before, d);
            lemma_index(before, j);
            assert(after[j] == before[j]);
            lemma_index(after, j);
        }
        assert forall|d: Seq<char>|
            index_of(after).contains_key(d) == index_of(before).insert(
                digest,
                path,
            ).contains_key(d) by {
            assert(hosts(after, d) == (d == digest || hosts(before, d)));
        }
        assert(index_of(after) =~= index_of(before).insert(digest, path));
    }

    /// The key that one queryable serves every hosted digest under.
    #[must_use]
    pub fn queryable_key() -> (r: String)
        ensures
            r@ == TRANSFER_ROOT@ + "/*"@,
    {
        prefixed(TRANSFER_ROOT, "/*")
    }

    /// The error for a queryable that could not be declared.
    pub fn serve_error(cause: &str) -> (r: TransferError)
        ensures
            r@ == TransferFault::Transport(
                "declare_queryable "@ + (TRANSFER_ROOT@ + "/*"@) + ": "@ + cause@,
            ),
    {
        let mut text = prefixed("declare_queryable ", Self::queryable_key().as_str());
        text.append(": ");
        text.append(cause);
        TransferError::Transport(text)
    }

    /// What to do with a query on the key `selector`.
    pub fn serve<'a>(&'a self, selector: &'a str) -> (r: Answer<'a, P>)
        requires
            self.wf(),
        ensures
            r@ == answered(self.hosted(), selector@),
    {
        let prefix = prefixed(TRANSFER_ROOT, "/");
        match strip_prefix(selector, prefix.as_str()) {
            None => Answer::NoDigest,
            Some(digest) => {
                proof {
                    assert(selector@ =~= selector_of(digest@));
                    law_selector_names_the_digest(selector@, digest@);
                }
                match self.find(digest) {
                    Some(i) => {
                        proof {
                            lemma_index(self.artefacts@, i as int);
                        }
                        Answer::Stream { digest, path: &self.artefacts[i].path }
                    },
                    None => Answer::NotHosted { digest },
                }
            },
        }
    }

    /// Pull a digest from any peer that advertises it on the mesh, with the
    /// default tunables.
    ///
    /// `peer` goes into errors only. Whoever's replies complete the file first
    /// win: no reply is read after that.
    #[must_use]
    pub fn pull(&self, peer: PeerId, digest_hex: &str) -> (r: PullJob)
        ensures
            r.pull.wf(),
            r.pull@ == pull_start(peer@, digest_hex@),
            r.action@ == PullOutput::Prepare,
            r.options.timeout == DEFAULT_PULL_TIMEOUT,
    {
        self.pull_with_options(peer, digest_hex, PullOptions { timeout: DEFAULT_PULL_TIMEOUT })
    }

    /// Pull with caller-supplied tunables.
    #[must_use]
    pub fn pull_with_options(&self, peer: PeerId, digest_hex: &str, opts: PullOptions) -> (r:
        PullJob)
        ensures
            r.pull.wf(),
            r.pull@ == pull_start(peer@, digest_hex@),
            r.action@ == PullOutput::Prepare,
            r.options == opts,
    {
        let (pull, action) = Pull::new(peer, digest_hex);
        PullJob { pull, action, options: opts }
    }
}

/// Law: a file that is registered for a digest is served to a query for that digest, and
/// to no other: the answer to a query for another digest is what it was before. `before`
/// and `after` are the answers before and after the registration.
pub proof fn law_registered_file_is_served<P>(
    service: &mut TransferService<P>,
    digest: String,
    path: P,
    selector: &str,
    before: Answer<P>,
    after: Answer<P>,
)
    requires
        call_ensures(TransferService::<P>::serve, (&*old(service), selector), before),
        call_ensures(TransferService::<P>::register, (service, digest, path), ()),
        call_ensures(TransferService::<P>::serve, (&*final(service), selector), after),
    ensures
        selector@ == "furcate/mesh/transfer/"@ + digest@ ==> (after matches Answer::Stream {
            digest: d,
            path: p,
        } && d@ == digest@ && *p == path),
        selector@ != "furcate/mesh/transfer/"@ + digest@ ==> after@ == before@,
        !stands_at(selector@, 0, "furcate/mesh/transfer/"@) ==> before is NoDigest && after
            is NoDigest,
        final(service).dir() == old(service).dir(),
{
    let root = "furcate/mesh/transfer/"@;
    lemma_selector_root(digest@);
    law_selector_names_the_digest(selector@, digest@);
    if let Some(d) = digest_in(selector@) {
        law_selector_names_the_digest(selector@, d);
        lemma_selector_root(d);
        lemma_stands_between(Seq::empty(), root, d);
        assert(Seq::<char>::empty() + root + d =~= root + d);
    }
}

/// Law: a query for a digest that is not hosted is told apart from one that names no
/// digest, and gets the digest back in full; a new service hosts nothing and lands what
/// is pulled where it is told.
pub proof fn law_unhosted_digest_is_named<P>(
    dir: P,
    fresh: TransferService<P>,
    place: &P,
    selector: &str,
    answer: Answer<P>,
    digest: Seq<char>,
)
    requires
        call_ensures(TransferService::<P>::new, (dir,), fresh),
        call_ensures(TransferService::<P>::cache_dir, (&fresh,), place),
        call_ensures(TransferService::<P>::serve, (&fresh, selector), answer),
        selector@ == "furcate/mesh/transfer/"@ + digest,
    ensures
        answer matches Answer::NotHosted { digest: d } && d@ == digest,
        *place == dir,
{
    lemma_selector_root(digest);
    law_selector_names_the_digest(selector@, digest);
}

proof fn lemma_selector_root(digest: Seq<char>)
    ensures
        selector_of(digest) == "furcate/mesh/transfer/"@ + digest,
{
    reveal_strlit("furcate/mesh/transfer");
    reveal_strlit("furcate/mesh/transfer/");
    reveal_strlit("/");
    assert(TRANSFER_ROOT@ + "/"@ =~= "furcate/mesh/transfer/"@);
}

/// Law: one queryable takes the queries for every digest; where it cannot be declared,
/// that is told with its key and the cause in full.
pub proof fn law_queryable_takes_every_digest<P>(key: String, cause: &str, e: TransferError)
    requires
        call_ensures(TransferService::<P>::queryable_key, (), key),
        call_ensures(TransferService::<P>::serve_error, (cause,), e),
    ensures
        key@ == "furcate/mesh/transfer/*"@,
        e matches TransferError::Transport(t) && t@.len() == 20 + key@.len() + cause@.len()
            && stands_at(t@, 0, "declare_queryable "@) && stands_at(t@, 18, key@) && stands_at(
            t@,
            18 + key@.len(),
            ": "@ + cause@,
        ),
{
    reveal_strlit("furcate/mesh/transfer");
    reveal_strlit("furcate/mesh/transfer/*");
    reveal_strlit("/*");
    reveal_strlit("declare_queryable ");
    reveal_strlit(": ");
    assert(key@ =~= "furcate/mesh/transfer/*"@);
    let head = "declare_queryable "@;
    lemma_stands_between(head, key@, ": "@ + cause@);
    assert(e@->Transport_0 =~= head + key@ + (": "@ + cause@));
}

/// Law: a pull is for the digest and the peer it was called with; it has five minutes
/// unless it is told otherwise, and then exactly the time it is told.
pub proof fn law_pull_is_as_asked<P>(
    service: TransferService<P>,
    peer: PeerId,
    digest: &str,
    options: PullOptions,
    plain: PullJob,
    tuned: PullJob,
    usual: PullOptions,
)
    requires
        call_ensures(TransferService::<P>::pull, (&service, peer, digest), plain),
        call_ensures(
            TransferService::<P>::pull_with_options,
            (&service, peer, digest, options),
            tuned,
        ),
        call_ensures(PullOptions::default, (), usual),
    ensures
        usual.timeout == 5 * 60 * 1_000_000_000,
        plain.options.timeout == 5 * 60 * 1_000_000_000,
        tuned.options.timeout == options.timeout,
        plain.pull@.peer == peer@ && tuned.pull@.peer == peer@,
        plain.pull@.digest == digest@ && tuned.pull@.digest == digest@,
        plain.action is Prepare && tuned.action is Prepare,
{
}

/// Law: the sender reads from a key exactly the digest that the receiver wrote
/// into it, and none from any other key.
pub proof fn law_selector_names_the_digest(selector: Seq<char>, digest: Seq<char>)
    ensures
        digest_in(selector) == Some(digest) <==> selector == selector_of(digest),
{
    let prefix = TRANSFER_ROOT@ + "/"@;
    let n = prefix.len() as int;
    assert(selector_of(digest).skip(n) =~= digest);
    assert(selector_of(digest).take(n) =~= prefix);
    if digest_in(selector) == Some(digest) {
        assert(selector =~= prefix + selector.skip(n));
    }
}

} // verus!
