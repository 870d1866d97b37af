//! Which bytes of a file have been written.
use vstd::prelude::*;

verus! {

/// The positions from `start` up to, and without, `end`.
pub open spec fn span(start: int, end: int) -> Set<int> {
    Set::new(|p: int| start <= p < end)
}

/// Whether every position before `end` is in `written`.
pub open spec fn filled(written: Set<int>, end: int) -> bool {
    forall|p: int| 0 <= p < end ==> #[trigger] written.contains(p)
}

/// Whether one of `spans` holds the position `p`.
spec fn held(spans: Seq<(u128, u128)>, p: int) -> bool {
    exists|i: int| 0 <= i < spans.len() && (#[trigger] spans[i]).0 <= p < spans[i].1
}

/// The positions before `prefix` and those in `spans`.
spec fn positions(prefix: u128, spans: Seq<(u128, u128)>) -> Set<int> {
    Set::new(|p: int| 0 <= p < prefix || held(spans, p))
}

/// The positions that were written: all before `prefix`, and those of the spans
/// beyond it that do not join it yet.
pub struct Coverage {
    prefix: u128,
    beyond: Vec<(u128, u128)>,
}

impl View for Coverage {
    type V = Set<int>;

    closed spec fn view(&self) -> Set<int> {
        positions(self.prefix, self.beyond@)
    }
}

impl Coverage {
    /// No span joins the prefix.
    pub closed spec fn wf(self) -> bool {
        forall|i: int| 0 <= i < self.beyond@.len() ==> (#[trigger] self.beyond@[i]).0 > self.prefix
    }

    /// Nothing was written.
    #[must_use]
    pub fn new() -> (r: Self)
        ensures
            r.wf(),
            r@ == Set::<int>::empty(),
    {
        let r = Coverage { prefix: 0, beyond: Vec::new() };
        assert(r@ =~= Set::<int>::empty());
        r
    }

    /// The positions from `start` up to `end` are written.
    pub fn add(&mut self, start: u128, end: u128)
        requires
            old(self).wf(),
        ensures
            final(self).wf(),
            final(self)@ == old(self)@.union(span(start as int, end as int)),
    {
        let ghost before = *self;
        let ghost target = before@.union(span(start as int, end as int));
        if start > self.prefix {
            self.beyond.push((start, end));
            proof {
                lemma_pushed(before.beyond@, (start, end));
                assert(self@ =~= target);
            }
            return;
        }
        if end > self.prefix {
            self.prefix = end;
        }
        assert(self@ =~= target);
        let mut i: usize = 0;
        while i < self.beyond.len()
            invariant
                i <= self.beyond@.len(),
                self@ == target,
                forall|j: int| 0 <= j < i ==> (#[trigger] self.beyond@[j]).0 > self.prefix,
            decreases self.beyond@.len(), self.beyond@.len() - i,
        {
            if self.beyond[i].0 <= self.prefix {
                let ghost spans = self.beyond@;
                let ghost prefix = self.prefix;
                let joined = self.beyond.remove(i);
                if joined.1 > self.prefix {
                    self.prefix = joined.1;
                }
                proof {
                    lemma_removed(spans, i as int);
                    assert(self@ =~= positions(prefix, spans));
                }
                i = 0;
            } else {
                i = i + 1;
            }
        }
    }

    /// Whether every position before `end` was written.
    #[must_use]
    pub fn reaches(&self, end: u128) -> (r: bool)
        requires
            self.wf(),
        ensures
            r == filled(self@, end as int),
    {
        proof {
            if self.prefix < end {
                assert(!held(self.beyond@, self.prefix as int));
                assert(!self@.contains(self.prefix as int));
            }
        }
        end <= self.prefix
    }
}

proof fn lemma_pushed(spans: Seq<(u128, u128)>, new: (u128, u128))
    ensures
        forall|p: int| #[trigger]
            held(spans.push(new), p) == (held(spans, p) || new.0 <= p < new.1),
{
    let all = spans.push(new);
    assert forall|p: int| #[trigger] held(all, p) == (held(spans, p) || new.0 <= p < new.1) by {
        if held(spans, p) {
            let i = choose|i: int|
                0 <= i < spans.len() && (#[trigger] spans[i]).0 <= p < spans[i].1;
            assert(all[i] == spans[i]);
        }
        assert(all[spans.len() as int] == new);
        if held(all, p) {
            let i = choose|i: int| 0 <= i < all.len() && (#[trigger] all[i]).0 <= p < all[i].1;
            if i < spans.len() {
                assert(spans[i] == all[i]);
            }
        }
    }
}

proof fn lemma_removed(spans: Seq<(u128, u128)>, at: int)
    requires
        0 <= at < spans.len(),
    ensures
        forall|p: int| #[trigger]
            held(spans, p) == (held(spans.remove(at), p) || spans[at].0 <= p < spans[at].1),
{
    let rest = spans.remove(at);
    assert forall|p: int| #[trigger]
        held(spans, p) == (held(rest, p) || spans[at].0 <= p < spans[at].1) by {
        if held(spans, p) {
            let i = choose|i: int|
                0 <= i < spans.len() && (#[trigger] spans[i]).0 <= p < spans[i].1;
            if i < at {
                assert(rest[i] == spans[i]);
            } else if i > at {
                assert(rest[i - 1] == spans[i]);
            }
        }
        if held(rest, p) {
            let i = choose|i: int| 0 <= i < rest.len() && (#[trigger] rest[i]).0 <= p < rest[i].1;
            if i < at {
                assert(spans[i] == rest[i]);
            } else {
                assert(spans[i + 1] == rest[i]);
            }
        }
    }
}

/// Law: a position counts as written exactly if it was written before or lies in the
/// part that is added, and a file is whole up to an end exactly if no position before
/// that end is left out.
pub proof fn law_what_counts_as_written(
    empty: Coverage,
    coverage: &mut Coverage,
    start: u128,
    end: u128,
    p: int,
    upto: u128,
    whole: bool,
)
    requires
        call_ensures(Coverage::new, (), empty),
        call_ensures(Coverage::add, (coverage, start, end), ()),
        call_ensures(Coverage::reaches, (&*final(coverage), upto), whole),
    ensures
        !empty@.contains(p),
        final(coverage)@.contains(p) <==> old(coverage)@.contains(p) || start <= p < end,
        whole <==> forall|q: int| 0 <= q < upto ==> #[trigger] final(coverage)@.contains(q),
{
}

} // verus!
