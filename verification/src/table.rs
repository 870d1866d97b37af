//! Tables that keep their rows in the order of their keys.
use vstd::prelude::*;

use crate::peer::{peer_less, PeerId};
use crate::text::{byte_ranks, char_ranks, law_first_difference_orders, lemma_byte_ranks_injective, lemma_char_ranks_injective, lemma_lex_common_prefix, lemma_lex_transitive, lemma_lex_trichotomy, lex_less, text_less};

verus! {

/// A key: something with a place in a lexicographic order.
pub trait Ranked: Sized {
    /// The place of this key. Keys with the same place count as the same key.
    spec fn rank(&self) -> Seq<int>;

    /// Whether this key comes before `other`.
    fn precedes(&self, other: &Self) -> (r: bool)
        ensures
            r == lex_less(self.rank(), other.rank()),
    ;
}

/// Whether some row has the place `rank`.
pub open spec fn listed<K: Ranked, V>(rows: Seq<(K, V)>, rank: Seq<int>) -> bool {
    exists|i: int| 0 <= i < rows.len() && #[trigger] rows[i].0.rank() == rank
}

/// The row with the place `rank`.
pub open spec fn row_at<K: Ranked, V>(rows: Seq<(K, V)>, rank: Seq<int>) -> int {
    choose|i: int| 0 <= i < rows.len() && #[trigger] rows[i].0.rank() == rank
}

/// The values of `rows`, by the places of their keys.
pub open spec fn entries_of<K: Ranked, V>(rows: Seq<(K, V)>) -> Map<Seq<int>, V> {
    Map::new(|k: Seq<int>| listed(rows, k), |k: Seq<int>| rows[row_at(rows, k)].1)
}

/// Whether each row's key comes before those of the rows after it.
pub open spec fn ascending<K: Ranked, V>(rows: Seq<(K, V)>) -> bool {
    forall|i: int, j: int|
        0 <= i < j < rows.len() ==> lex_less(
            (#[trigger] rows[i]).0.rank(),
            (#[trigger] rows[j]).0.rank(),
        )
}

proof fn lemma_entry<K: Ranked, V>(rows: Seq<(K, V)>, i: int)
    requires
        ascending(rows),
        0 <= i < rows.len(),
    ensures
        entries_of(rows).contains_key(rows[i].0.rank()),
        entries_of(rows)[rows[i].0.rank()] == rows[i].1,
{
    let k = rows[i].0.rank();
    assert(listed(rows, k));
    let j = row_at(rows, k);
    if i < j {
        lemma_lex_trichotomy(rows[i].0.rank(), rows[j].0.rank());
    } else if j < i {
        lemma_lex_trichotomy(rows[j].0.rank(), rows[i].0.rank());
    }
}

/// A table with one row for each key, in the order of the keys.
pub struct SortedTable<K, V> {
    rows: Vec<(K, V)>,
}

impl<K: Ranked, V> SortedTable<K, V> {
    /// The values, by the places of their keys.
    pub closed spec fn entries(self) -> Map<Seq<int>, V> {
        entries_of(self.rows@)
    }

    /// The rows are in order, and no two are for the same key.
    pub closed spec fn wf(self) -> bool {
        ascending(self.rows@)
    }

    /// A table without rows.
    #[must_use]
    pub fn new() -> (r: Self)
        ensures
            r.wf(),
            r.entries() == Map::<Seq<int>, V>::empty(),
    {
        let r = SortedTable { rows: Vec::new() };
        assert(entries_of(r.rows@) =~= Map::<Seq<int>, V>::empty());
        r
    }

    /// Put `value` under `key`, in place of what was there.
    pub fn insert(&mut self, key: K, value: V)
        requires
            old(self).wf(),
        ensures
            final(self).wf(),
            final(self).entries() == old(self).entries().insert(key.rank(), value),
    {
        let ghost before = self.rows@;
        let ghost rank = key.rank();
        let mut i: usize = 0;
        while i < self.rows.len() && self.rows[i].0.precedes(&key)
            invariant
                i <= self.rows@.len(),
                self.rows@ == before,
                rank == key.rank(),
                forall|j: int| 0 <= j < i ==> lex_less((#[trigger] before[j]).0.rank(), rank),
            decreases self.rows@.len() - i,
        {
            i = i + 1;
        }
        if i < self.rows.len() && !key.precedes(&self.rows[i].0) {
            proof {
                lemma_lex_trichotomy(before[i as int].0.rank(), rank);
            }
            self.rows.set(i, (key, value));
            proof {
                let after = self.rows@;
                assert(after[i as int].0.rank() == rank);
                assert forall|j: int| 0 <= j < after.len() implies (#[trigger] after[j]).0.rank()
                    == before[j].0.rank() by {}
                assert(ascending(after)) by {
                    assert forall|a: int, b: int| 0 <= a < b < after.len() implies lex_less(
                        (#[trigger] after[a]).0.rank(),
                        (#[trigger] after[b]).0.rank(),
                    ) by {
                        assert(lex_less(before[a].0.rank(), before[b].0.rank()));
                    }
                }
                lemma_put(before, after, rank, i as int, value);
            }
        } else {
            proof {
                if i < before.len() {
                    assert(lex_less(rank, before[i as int].0.rank()));
                }
            }
            self.rows.insert(i, (key, value));
            proof {
                let after = self.rows@;
                assert(after == before.insert(i as int, (key, value)));
                assert(after[i as int].0.rank() == rank);
                assert forall|a: int, b: int| 0 <= a < b < after.len() implies lex_less(
                    (#[trigger] after[a]).0.rank(),
                    (#[trigger] after[b]).0.rank(),
                ) by {
                    if a < i && b < i {
                        assert(lex_less(before[a].0.rank(), before[b].0.rank()));
                    } else if a < i && b == i {
                        assert(lex_less(before[a].0.rank(), rank));
                    } else if a < i {
                        assert(lex_less(before[a].0.rank(), before[b - 1].0.rank()));
                    } else if a == i {
                        if b - 1 > i {
                            assert(lex_less(before[i as int].0.rank(), before[b - 1].0.rank()));
                            lemma_lex_transitive(
                                rank,
                                before[i as int].0.rank(),
                                before[b - 1].0.rank(),
                            );
                        }
                    } else {
                        assert(lex_less(before[a - 1].0.rank(), before[b - 1].0.rank()));
                    }
                }
                lemma_inserted(before, after, rank, i as int, value);
            }
        }
    }

    /// The rows, in order.
    #[must_use]
    pub fn rows(&self) -> (r: &Vec<(K, V)>)
        requires
            self.wf(),
        ensures
            ascending(r@),
            entries_of(r@) == self.entries(),
    {
        &self.rows
    }
}

proof fn lemma_put<K: Ranked, V>(
    before: Seq<(K, V)>,
    after: Seq<(K, V)>,
    rank: Seq<int>,
    i: int,
    value: V,
)
    requires
        ascending(before),
        ascending(after),
        before.len() == after.len(),
        0 <= i < after.len(),
        after[i].0.rank() == rank,
        after[i].1 == value,
        forall|j: int|
            0 <= j < after.len() ==> (#[trigger] after[j]).0.rank() == before[j].0.rank(),
        forall|j: int| 0 <= j < after.len() && j != i ==> #[trigger] after[j] == before[j],
    ensures
        entries_of(after) == entries_of(before).insert(rank, value),
{
    lemma_entry(after, i);
    assert(before[i].0.rank() == rank);
    lemma_entry(before, i);
    assert forall|k: Seq<int>| listed(after, k) == #[trigger] listed(before, k) by {
        if listed(after, k) {
            assert(before[row_at(after, k)].0.rank() == k);
        }
        if listed(before, k) {
            assert(after[row_at(before, k)].0.rank() == k);
        }
    }
    assert forall|k: Seq<int>| listed(before, k) && k != rank implies entries_of(after)[k]
        == entries_of(before)[k] by {
        let j = row_at(before, k);
        lemma_entry(before, j);
        assert(after[j] == before[j]);
        lemma_entry(after, j);
    }
    assert(entries_of(after) =~= entries_of(before).insert(rank, value));
}

proof fn lemma_inserted<K: Ranked, V>(
    before: Seq<(K, V)>,
    after: Seq<(K, V)>,
    rank: Seq<int>,
    i: int,
    value: V,
)
    requires
        ascending(before),
        ascending(after),
        0 <= i <= before.len(),
        after.len() == before.len() + 1,
        after[i].0.rank() == rank,
        after[i].1 == value,
        forall|j: int| 0 <= j < i ==> #[trigger] after[j] == before[j],
        forall|j: int| i <= j < before.len() ==> after[j + 1] == #[trigger] before[j],
    ensures
        entries_of(after) == entries_of(before).insert(rank, value),
{
    lemma_entry(after, i);
    assert forall|k: Seq<int>|
        listed(after, k) == (k == rank || #[trigger] listed(before, k)) by {
        if listed(before, k) {
            let j = row_at(before, k);
            if j < i {
                assert(after[j].0.rank() == k);
            } else {
                assert(after[j + 1] == before[j]);
                assert(after[j + 1].0.rank() == k);
            }
        }
        if listed(after, k) && k != rank {
            let j = row_at(after, k);
            if j < i {
                assert(before[j].0.rank() == k);
            } else {
                assert(after[j - 1 + 1] == before[j - 1]);
                assert(before[j - 1].0.rank() == k);
            }
        }
    }
    assert forall|k: Seq<int>| listed(before, k) && k != rank implies entries_of(after)[k]
        == entries_of(before)[k] by {
        let j = row_at(before, k);
        lemma_entry(before, j);
        if j < i {
            assert(after[j] == before[j]);
            lemma_entry(after, j);
        } else {
            assert(after[j + 1] == before[j]);
            lemma_entry(after, j + 1);
        }
    }
    assert forall|k: Seq<int>|
        entries_of(after).contains_key(k) == entries_of(before).insert(rank, value).contains_key(
            k,
        ) by {
        assert(listed(after, k) == (k == rank || listed(before, k)));
    }
    assert(entries_of(after) =~= entries_of(before).insert(rank, value));
}

impl Ranked for PeerId {
    open spec fn rank(&self) -> Seq<int> {
        byte_ranks(self@)
    }

    fn precedes(&self, other: &Self) -> (r: bool) {
        *self < *other
    }
}

/// A model of a peer.
#[derive(Clone, Debug)]
pub struct ModelKey {
    pub peer: PeerId,
    pub name: String,
}

impl Ranked for ModelKey {
    open spec fn rank(&self) -> Seq<int> {
        byte_ranks(self.peer@) + char_ranks(self.name@)
    }

    fn precedes(&self, other: &Self) -> (r: bool) {
        proof {
            lemma_model_order(*self, *other);
        }
        if self.peer == other.peer {
            text_less(self.name.as_str(), other.name.as_str())
        } else {
            self.peer < other.peer
        }
    }
}

/// Where the heads have the same length and differ, they decide the order.
proof fn lemma_heads_decide(a: Seq<int>, b: Seq<int>, x: Seq<int>, y: Seq<int>)
    requires
        a.len() == b.len(),
        a != b,
    ensures
        lex_less(a + x, b + y) == lex_less(a, b),
    decreases a.len(),
{
    if a.len() == 0 {
        assert(a =~= b);
    } else {
        assert((a + x).skip(1) =~= a.skip(1) + x);
        assert((b + y).skip(1) =~= b.skip(1) + y);
        if a[0] == b[0] {
            assert(a.skip(1) != b.skip(1)) by {
                if a.skip(1) == b.skip(1) {
                    assert forall|i: int| 0 <= i < a.len() implies a[i] == b[i] by {
                        if i > 0 {
                            assert(a[i] == a.skip(1)[i - 1]);
                            assert(b[i] == b.skip(1)[i - 1]);
                        }
                    }
                    assert(a =~= b);
                }
            }
            lemma_heads_decide(a.skip(1), b.skip(1), x, y);
        }
    }
}

/// Models are ordered by their peers first, and then by their names.
proof fn lemma_model_order(a: ModelKey, b: ModelKey)
    ensures
        a.peer@ != b.peer@ ==> lex_less(a.rank(), b.rank()) == peer_less(a.peer@, b.peer@),
        a.peer@ == b.peer@ ==> lex_less(a.rank(), b.rank()) == lex_less(
            char_ranks(a.name@),
            char_ranks(b.name@),
        ),
{
    let p = byte_ranks(a.peer@);
    let q = byte_ranks(b.peer@);
    let x = char_ranks(a.name@);
    let y = char_ranks(b.name@);
    if a.peer@ == b.peer@ {
        assert((p + x).take(32) =~= p);
        assert((q + y).take(32) =~= q);
        assert((p + x).skip(32) =~= x);
        assert((q + y).skip(32) =~= y);
        lemma_lex_common_prefix(p + x, q + y, 32);
    } else {
        lemma_byte_ranks_injective(a.peer@, b.peer@);
        lemma_heads_decide(p, q, x, y);
    }
}

/// Law: keys that count as the same are the same: a table of peers has one row
/// for each peer, and a table of models one row for each model of each peer.
pub proof fn law_places_tell_keys_apart(p: PeerId, q: PeerId, a: ModelKey, b: ModelKey)
    ensures
        p.rank() == q.rank() ==> p@ == q@,
        a.rank() == b.rank() ==> a.peer@ == b.peer@ && a.name@ == b.name@,
{
    lemma_byte_ranks_injective(p@, q@);
    if a.rank() == b.rank() {
        assert(a.rank().take(32) =~= byte_ranks(a.peer@));
        assert(b.rank().take(32) =~= byte_ranks(b.peer@));
        assert(a.rank().skip(32) =~= char_ranks(a.name@));
        assert(b.rank().skip(32) =~= char_ranks(b.name@));
        lemma_byte_ranks_injective(a.peer@, b.peer@);
        lemma_char_ranks_injective(a.name@, b.name@);
    }
}

/// Law: peers are listed in the order of their addresses, and models in that of their
/// peers and, for one peer, in that of their names, character by character.
pub proof fn law_order_of_rows(p: PeerId, q: PeerId, a: ModelKey, b: ModelKey)
    ensures
        lex_less(p.rank(), q.rank()) <==> peer_less(p@, q@),
        a.peer@ != b.peer@ ==> (lex_less(a.rank(), b.rank()) <==> peer_less(a.peer@, b.peer@)),
        a.peer@ == b.peer@ ==> (lex_less(a.rank(), b.rank()) <==> exists|i: int|
            0 <= i <= a.name@.len() && i < b.name@.len() && #[trigger] a.name@.take(i)
                == b.name@.take(i) && (i == a.name@.len() || a.name@[i] < b.name@[i])),
{
    lemma_model_order(a, b);
    let x = char_ranks(a.name@);
    let y = char_ranks(b.name@);
    law_first_difference_orders(x, y);
    assert forall|i: int| 0 <= i <= x.len() && i <= y.len() implies (#[trigger] a.name@.take(i)
        == b.name@.take(i)) == (x.take(i) == y.take(i)) by {
        assert(x.take(i) =~= char_ranks(a.name@.take(i)));
        assert(y.take(i) =~= char_ranks(b.name@.take(i)));
        lemma_char_ranks_injective(a.name@.take(i), b.name@.take(i));
    }
    if lex_less(x, y) {
        let i = choose|i: int|
            0 <= i <= x.len() && i < y.len() && #[trigger] x.take(i) == y.take(i) && (i == x.len()
                || x[i] < y[i]);
        assert(a.name@.take(i) == b.name@.take(i));
    }
    if exists|i: int|
        0 <= i <= a.name@.len() && i < b.name@.len() && #[trigger] a.name@.take(i) == b.name@.take(
            i,
        ) && (i == a.name@.len() || a.name@[i] < b.name@[i]) {
        let i = choose|i: int|
            0 <= i <= a.name@.len() && i < b.name@.len() && #[trigger] a.name@.take(i)
                == b.name@.take(i) && (i == a.name@.len() || a.name@[i] < b.name@[i]);
        assert(x.take(i) == y.take(i));
    }
}

/// Law: what is put into a table is what it then holds under that key, and nothing else
/// changes.
pub proof fn law_table_holds_what_is_put<K: Ranked, V>(
    empty: SortedTable<K, V>,
    table: &mut SortedTable<K, V>,
    key: K,
    value: V,
    other: Seq<int>,
)
    requires
        call_ensures(SortedTable::<K, V>::new, (), empty),
        call_ensures(SortedTable::<K, V>::insert, (table, key, value), ()),
    ensures
        !empty.entries().contains_key(other),
        final(table).entries().contains_key(key.rank()),
        final(table).entries()[key.rank()] == value,
        other != key.rank() ==> (final(table).entries().contains_key(other) <==> old(
            table,
        ).entries().contains_key(other)),
        other != key.rank() && old(table).entries().contains_key(other)
            ==> final(table).entries()[other] == old(table).entries()[other],
{
}

/// Law: the rows of a table come one for each key that something was put under, each
/// with what was put there, and each before those whose keys come later.
pub proof fn law_rows_are_the_entries<K: Ranked, V>(
    table: SortedTable<K, V>,
    rows: &Vec<(K, V)>,
    rank: Seq<int>,
)
    requires
        call_ensures(SortedTable::<K, V>::rows, (&table,), rows),
    ensures
        forall|i: int, j: int|
            0 <= i < j < rows@.len() ==> lex_less(
                (#[trigger] rows@[i]).0.rank(),
                (#[trigger] rows@[j]).0.rank(),
            ),
        forall|i: int|
            0 <= i < rows@.len() ==> table.entries().contains_key(
                (#[trigger] rows@[i]).0.rank(),
            ) && table.entries()[rows@[i].0.rank()] == rows@[i].1,
        table.entries().contains_key(rank) ==> exists|i: int|
            0 <= i < rows@.len() && (#[trigger] rows@[i]).0.rank() == rank,
{
    assert forall|i: int| 0 <= i < rows@.len() implies table.entries().contains_key(
        (#[trigger] rows@[i]).0.rank(),
    ) && table.entries()[rows@[i].0.rank()] == rows@[i].1 by {
        lemma_entry(rows@, i);
    }
    if table.entries().contains_key(rank) {
        assert(listed(rows@, rank));
        let i = row_at(rows@, rank);
        assert(rows@[i].0.rank() == rank);
    }
}

/// Law: one key is told to come before another as the order of their places has it.
pub proof fn law_which_key_comes_first(
    p: PeerId,
    q: PeerId,
    a: ModelKey,
    b: ModelKey,
    peers: bool,
    models: bool,
)
    requires
        call_ensures(PeerId::precedes, (&p, &q), peers),
        call_ensures(ModelKey::precedes, (&a, &b), models),
    ensures
        peers <==> peer_less(p@, q@),
        a.peer@ != b.peer@ ==> (models <==> peer_less(a.peer@, b.peer@)),
        a.peer@ == b.peer@ ==> (models <==> exists|i: int|
            0 <= i <= a.name@.len() && i < b.name@.len() && #[trigger] a.name@.take(i)
                == b.name@.take(i) && (i == a.name@.len() || a.name@[i] < b.name@[i])),
{
    law_order_of_rows(p, q, a, b);
}

} // verus!
