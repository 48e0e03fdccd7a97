//! A map from strings to values that keeps its keys in ascending order, as
//! `BTreeMap<String, V>` does: lookups by key, and iteration in key order.
use vstd::prelude::*;
use crate::text::{seq_lt, str_eq, str_lt, views, lemma_seq_lt_irreflexive, lemma_seq_lt_transitive,
    lemma_seq_lt_total, lemma_seq_lt_asymmetric};

verus! {

/// Keys strictly ascending.
pub open spec fn strictly_sorted(ks: Seq<Seq<char>>) -> bool {
    forall|i: int, j: int| 0 <= i < j < ks.len() ==> seq_lt(#[trigger] ks[i], #[trigger] ks[j])
}

/// A position of `k` among the keys.
pub open spec fn assoc_index(ks: Seq<Seq<char>>, k: Seq<char>) -> int {
    choose|i: int| 0 <= i < ks.len() && ks[i] == k
}

/// The map that an ordered association list stands for.
pub open spec fn assoc_map<V>(ks: Seq<Seq<char>>, vs: Seq<V>) -> Map<Seq<char>, V> {
    Map::new(|k: Seq<char>| ks.contains(k), |k: Seq<char>| vs[assoc_index(ks, k)])
}

/// Inserts `(k, v)` into a key-ordered association list, replacing the entry
/// with key `k` if there is one.
pub open spec fn sorted_insert<V>(es: Seq<(Seq<char>, V)>, k: Seq<char>, v: V) -> Seq<(Seq<char>, V)>
    decreases es.len(),
{
    if es.len() == 0 {
        seq![(k, v)]
    } else if es[0].0 == k {
        seq![(k, v)] + es.drop_first()
    } else if seq_lt(k, es[0].0) {
        seq![(k, v)] + es
    } else {
        seq![es[0]] + sorted_insert(es.drop_first(), k, v)
    }
}

/// The keys of an association list.
pub open spec fn keys_of<V>(es: Seq<(Seq<char>, V)>) -> Seq<Seq<char>> {
    es.map_values(|e: (Seq<char>, V)| e.0)
}

proof fn lemma_sorted_insert_split<V>(es: Seq<(Seq<char>, V)>, k: Seq<char>, v: V, p: int)
    requires
        0 <= p <= es.len(),
        strictly_sorted(keys_of(es)),
        forall|j: int| 0 <= j < p ==> seq_lt(#[trigger] es[j].0, k),
        p < es.len() ==> !seq_lt(es[p].0, k),
    ensures
        p < es.len() && es[p].0 == k ==> sorted_insert(es, k, v) == es.take(p).push((k, v)) + es.skip(p + 1),
        !(p < es.len() && es[p].0 == k) ==> sorted_insert(es, k, v) == es.take(p).push((k, v)) + es.skip(p),
    decreases p,
{
    if p == 0 {
        if es.len() > 0 {
            if es[0].0 != k {
                lemma_seq_lt_total(es[0].0, k);
            }
        }
        assert(es.take(0).push((k, v)) =~= seq![(k, v)]);
        assert(es.skip(0) =~= es);
        if es.len() > 0 {
            assert(es.skip(1) =~= es.drop_first());
        }
    } else {
        let t = es.drop_first();
        assert(keys_of(t) =~= keys_of(es).drop_first());
        assert forall|j: int| 0 <= j < p - 1 implies seq_lt(#[trigger] t[j].0, k) by {
            assert(t[j] == es[j + 1]);
        }
        lemma_sorted_insert_split(t, k, v, p - 1);
        assert(seq_lt(es[0].0, k));
        lemma_seq_lt_asymmetric(es[0].0, k);
        lemma_seq_lt_irreflexive(k);
        assert(es[0].0 != k);
        if p < es.len() {
            assert(es.take(p).push((k, v)) + es.skip(p + 1) =~= seq![es[0]] + (t.take(p - 1).push((k, v)) + t.skip(p)));
        }
        assert(es.take(p).push((k, v)) + es.skip(p) =~= seq![es[0]] + (t.take(p - 1).push((k, v)) + t.skip(p - 1)));
    }
}

/// Keys and values side by side; `wf` holds of every map that this module
/// hands out.
#[derive(Debug, PartialEq, Eq)]
pub struct StrMap<V> {
    pub keys: Vec<String>,
    pub vals: Vec<V>,
}

impl<V> StrMap<V> {
    /// The keys, in ascending order.
    pub open spec fn keys_view(self) -> Seq<Seq<char>> {
        views(self.keys@)
    }

    /// The values, in the order of their keys.
    pub open spec fn vals_view(self) -> Seq<V> {
        self.vals@
    }

    /// The entries, in key order.
    pub open spec fn entries(self) -> Seq<(Seq<char>, V)> {
        Seq::new(self.vals_view().len(), |i: int| (self.keys_view()[i], self.vals_view()[i]))
    }

    /// As many keys as values, keys strictly ascending.
    pub open spec fn wf(self) -> bool {
        &&& self.keys_view().len() == self.vals_view().len()
        &&& strictly_sorted(self.keys_view())
    }

    /// The entries as a map.
    pub open spec fn map_view(self) -> Map<Seq<char>, V> {
        assoc_map(self.keys_view(), self.vals_view())
    }

    pub open spec fn has(self, k: Seq<char>) -> bool {
        self.keys_view().contains(k)
    }

    /// An empty map.
    pub fn new() -> (r: Self)
        ensures
            r.wf(),
            r.keys_view() == Seq::<Seq<char>>::empty(),
            r.vals_view() == Seq::<V>::empty(),
    {
        let r = StrMap { keys: Vec::new(), vals: Vec::new() };
        assert(r.keys_view() =~= Seq::<Seq<char>>::empty());
        r
    }

    /// The number of entries.
    pub fn len(&self) -> (r: usize)
        requires
            self.wf(),
        ensures
            r == self.keys_view().len(),
    {
        self.keys.len()
    }

    /// The key of the entry at `i`.
    pub fn key_at(&self, i: usize) -> (r: &String)
        requires
            self.wf(),
            i < self.keys_view().len(),
        ensures
            r@ == self.keys_view()[i as int],
    {
        &self.keys[i]
    }

    /// The value of the entry at `i`.
    pub fn val_at(&self, i: usize) -> (r: &V)
        requires
            self.wf(),
            i < self.keys_view().len(),
        ensures
            *r == self.vals_view()[i as int],
    {
        &self.vals[i]
    }

    /// The position of `k` among the keys, if it is one.
    pub fn index_of(&self, k: &str) -> (r: Option<usize>)
        requires
            self.wf(),
        ensures
            match r {
                Some(i) => i < self.keys_view().len() && self.keys_view()[i as int] == k@,
                None => !self.keys_view().contains(k@),
            },
    {
        let mut i: usize = 0;
        while i < self.keys.len()
            invariant
                self.wf(),
                i <= self.keys.len(),
                forall|j: int| 0 <= j < i ==> self.keys_view()[j] != k@,
            decreases self.keys.len() - i,
        {
            if str_eq(self.keys[i].as_str(), k) {
                return Some(i);
            }
            i = i + 1;
        }
        None
    }

    /// Whether `k` is a key.
    pub fn contains_key(&self, k: &str) -> (r: bool)
        requires
            self.wf(),
        ensures
            r == self.keys_view().contains(k@),
    {
        self.index_of(k).is_some()
    }

    /// The value under `k`, if any.
    pub fn get(&self, k: &str) -> (r: Option<&V>)
        requires
            self.wf(),
        ensures
            match r {
                Some(v) => self.map_view().contains_key(k@) && *v == self.map_view()[k@],
                None => !self.map_view().contains_key(k@),
            },
    {
        match self.index_of(k) {
            Some(i) => {
                proof { self.lemma_index_unique(i as int, k@); }
                Some(&self.vals[i])
            },
            None => None,
        }
    }

    pub proof fn lemma_index_unique(self, i: int, k: Seq<char>)
        requires
            self.wf(),
            0 <= i < self.keys_view().len(),
            self.keys_view()[i] == k,
        ensures
            assoc_index(self.keys_view(), k) == i,
            self.map_view().contains_key(k),
            self.map_view()[k] == self.vals_view()[i],
    {
        let ks = self.keys_view();
        assert(ks.contains(k));
        let j = assoc_index(ks, k);
        if j != i {
            if j < i {
                assert(seq_lt(ks[j], ks[i]));
            } else {
                assert(seq_lt(ks[i], ks[j]));
            }
            lemma_seq_lt_irreflexive(k);
        }
        assert(self.map_view().contains_key(k));
        assert(self.map_view()[k] == self.vals_view()[j]);
    }

    /// A mutable borrow of the value at `i`; the keys stay as they are.
    pub fn val_mut(&mut self, i: usize) -> (r: &mut V)
        requires
            old(self).wf(),
            i < old(self).keys_view().len(),
        ensures
            *r == old(self).vals_view()[i as int],
            final(self).keys_view() == old(self).keys_view(),
            final(self).vals_view() == old(self).vals_view().update(i as int, *final(r)),
            final(self).wf(),
    {
        &mut self.vals[i]
    }

    /// Inserts `v` under `k`, replacing the value already there, if any.
    pub fn insert(&mut self, k: String, v: V)
        requires
            old(self).wf(),
        ensures
            final(self).wf(),
            final(self).map_view() == old(self).map_view().insert(k@, v),
            final(self).entries() == sorted_insert(old(self).entries(), k@, v),
            old(self).keys_view().contains(k@) ==> final(self).keys_view() == old(self).keys_view(),
    {
        let ghost ks = self.keys_view();
        let ghost es = self.entries();
        proof {
            assert(keys_of(es) =~= ks);
        }
        let mut p: usize = 0;
        while p < self.keys.len() && str_lt(self.keys[p].as_str(), k.as_str())
            invariant
                self.wf(),
                self.keys_view() == ks,
                p <= self.keys.len(),
                forall|j: int| 0 <= j < p ==> seq_lt(#[trigger] ks[j], k@),
            decreases self.keys.len() - p,
        {
            p = p + 1;
        }
        if p < self.keys.len() && str_eq(self.keys[p].as_str(), k.as_str()) {
            let ghost old_self = *self;
            self.vals.set(p, v);
            proof {
                assert(self.keys_view() == ks);
                old_self.lemma_index_unique(p as int, k@);
                assert forall|x: Seq<char>| #[trigger] self.map_view().contains_key(x) == old_self.map_view().insert(k@, v).contains_key(x) by {}
                assert forall|x: Seq<char>| self.map_view().contains_key(x) implies
                    #[trigger] self.map_view()[x] == old_self.map_view().insert(k@, v)[x] by {
                    let jx = choose|j: int| 0 <= j < ks.len() && ks[j] == x;
                    self.lemma_index_unique(jx, x);
                    if x != k@ {
                        old_self.lemma_index_unique(jx, x);
                    }
                }
                assert(self.map_view() =~= old_self.map_view().insert(k@, v));
                lemma_sorted_insert_split(es, k@, v, p as int);
                assert(self.entries() =~= es.take(p as int).push((k@, v)) + es.skip(p + 1));
            }
        } else {
            let ghost old_self = *self;
            proof {
                // every key from `p` on lies above `k`
                assert forall|j: int| p <= j < ks.len() implies seq_lt(k@, #[trigger] ks[j]) by {
                    lemma_seq_lt_total(ks[p as int], k@);
                    if j > p {
                        lemma_seq_lt_transitive(k@, ks[p as int], ks[j]);
                    }
                }
            }
            let ghost kv = k@;
            self.keys.insert(p, k);
            self.vals.insert(p, v);
            proof {
                let nks = self.keys_view();
                assert(nks =~= ks.insert(p as int, kv));
                assert forall|i: int, j: int| 0 <= i < j < nks.len() implies seq_lt(#[trigger] nks[i], #[trigger] nks[j]) by {
                    if j < p {
                    } else if j == p {
                    } else if i < p {
                        lemma_seq_lt_transitive(nks[i], kv, nks[j]);
                    } else if i == p {
                    } else {
                        assert(nks[i] == ks[i - 1] && nks[j] == ks[j - 1]);
                    }
                }
                assert(!ks.contains(kv)) by {
                    if ks.contains(kv) {
                        let j = choose|j: int| 0 <= j < ks.len() && ks[j] == kv;
                        if j < p {
                            lemma_seq_lt_irreflexive(kv);
                        } else {
                            lemma_seq_lt_irreflexive(kv);
                        }
                    }
                }
                assert forall|x: Seq<char>| #[trigger] self.map_view().contains_key(x) == old_self.map_view().insert(kv, v).contains_key(x) by {
                    assert(nks[p as int] == kv);
                    if x != kv && nks.contains(x) {
                        let jx = choose|j: int| 0 <= j < nks.len() && nks[j] == x;
                        if jx < p { assert(ks[jx] == x); } else { assert(ks[jx - 1] == x); }
                    }
                    if ks.contains(x) {
                        let jx = choose|j: int| 0 <= j < ks.len() && ks[j] == x;
                        if jx < p { assert(nks[jx] == x); } else { assert(nks[jx + 1] == x); }
                    }
                }
                assert forall|x: Seq<char>| self.map_view().contains_key(x) implies
                    #[trigger] self.map_view()[x] == old_self.map_view().insert(kv, v)[x] by {
                    let jx = choose|j: int| 0 <= j < nks.len() && nks[j] == x;
                    self.lemma_index_unique(jx, x);
                    if x != kv {
                        if jx < p {
                            old_self.lemma_index_unique(jx, x);
                        } else {
                            old_self.lemma_index_unique(jx - 1, x);
                        }
                    }
                }
                assert(self.map_view() =~= old_self.map_view().insert(kv, v));
                lemma_sorted_insert_split(es, kv, v, p as int);
                assert(self.entries() =~= es.take(p as int).push((kv, v)) + es.skip(p as int));
            }
        }
    }
}

} // verus!
verus! {

/// The entries with each value taken by its view.
pub open spec fn view_entries<V: View>(es: Seq<(Seq<char>, V)>) -> Seq<(Seq<char>, V::V)> {
    es.map_values(|e: (Seq<char>, V)| (e.0, e.1@))
}

pub proof fn lemma_view_entries_insert<V: View>(es: Seq<(Seq<char>, V)>, k: Seq<char>, v: V)
    ensures
        view_entries(sorted_insert(es, k, v)) == sorted_insert(view_entries(es), k, v@),
    decreases es.len(),
{
    let ve = view_entries(es);
    if es.len() == 0 {
        assert(view_entries(sorted_insert(es, k, v)) =~= seq![(k, v@)]);
    } else {
        assert(ve.drop_first() =~= view_entries(es.drop_first()));
        if es[0].0 == k {
            assert(view_entries(sorted_insert(es, k, v)) =~= seq![(k, v@)] + ve.drop_first());
        } else if seq_lt(k, es[0].0) {
            assert(view_entries(sorted_insert(es, k, v)) =~= seq![(k, v@)] + ve);
        } else {
            lemma_view_entries_insert(es.drop_first(), k, v);
            assert(view_entries(sorted_insert(es, k, v)) =~= seq![ve[0]] + sorted_insert(ve.drop_first(), k, v@));
        }
    }
}

} // verus!
verus! {

/// The value of the first entry with key `k`.
pub open spec fn entry_lookup<V>(es: Seq<(Seq<char>, V)>, k: Seq<char>) -> Option<V>
    decreases es.len(),
{
    if es.len() == 0 {
        None
    } else if es[0].0 == k {
        Some(es[0].1)
    } else {
        entry_lookup(es.drop_first(), k)
    }
}

pub proof fn lemma_entry_lookup<V>(es: Seq<(Seq<char>, V)>, k: Seq<char>, i: int)
    requires
        0 <= i <= es.len(),
        forall|j: int| 0 <= j < i ==> es[j].0 != k,
    ensures
        i < es.len() && es[i].0 == k ==> entry_lookup(es, k) == Some(es[i].1),
        i == es.len() ==> entry_lookup(es, k) is None,
    decreases i,
{
    if i > 0 {
        let t = es.drop_first();
        assert forall|j: int| 0 <= j < i - 1 implies t[j].0 != k by {
            assert(t[j] == es[j + 1]);
        }
        lemma_entry_lookup(t, k, i - 1);
    }
}

impl<V> StrMap<V> {
    /// Looking up a key in the map agrees with looking it up in its entries.
    pub proof fn lemma_lookup(self, k: Seq<char>)
        requires
            self.wf(),
        ensures
            self.map_view().contains_key(k) ==> entry_lookup(self.entries(), k) == Some(self.map_view()[k]),
            !self.map_view().contains_key(k) ==> entry_lookup(self.entries(), k) is None,
    {
        let ks = self.keys_view();
        let es = self.entries();
        if ks.contains(k) {
            let i = assoc_index(ks, k);
            self.lemma_index_unique(i, k);
            assert forall|j: int| 0 <= j < i implies es[j].0 != k by {
                assert(seq_lt(ks[j], ks[i]));
                lemma_seq_lt_irreflexive(k);
            }
            lemma_entry_lookup(es, k, i);
        } else {
            assert forall|j: int| 0 <= j < es.len() implies es[j].0 != k by {
                assert(es[j].0 == ks[j]);
            }
            lemma_entry_lookup(es, k, es.len() as int);
        }
    }
}

pub proof fn lemma_entry_lookup_view<V: View>(es: Seq<(Seq<char>, V)>, k: Seq<char>)
    ensures
        match entry_lookup(es, k) {
            Some(v) => entry_lookup(view_entries(es), k) == Some(v@),
            None => entry_lookup(view_entries(es), k) is None,
        },
    decreases es.len(),
{
    if es.len() > 0 {
        assert(view_entries(es).drop_first() =~= view_entries(es.drop_first()));
        lemma_entry_lookup_view(es.drop_first(), k);
    }
}

} // verus!
verus! {

/// The entries as a map, each value taken by its view.
impl<V: View> View for StrMap<V> {
    type V = Map<Seq<char>, V::V>;

    open spec fn view(&self) -> Map<Seq<char>, V::V> {
        self.map_view().map_values(|v: V| v@)
    }
}

impl<V: View> StrMap<V> {
    /// Two maps with the same keys, whose values agree by view position by
    /// position, have the same view.
    pub proof fn lemma_view_eq(self, other: Self)
        requires
            self.wf(),
            other.wf(),
            self.keys_view() == other.keys_view(),
            forall|i: int| 0 <= i < self.vals_view().len() ==> (#[trigger] self.vals_view()[i])@
                == other.vals_view()[i]@,
        ensures
            self@ == other@,
    {
        assert forall|k: Seq<char>| #[trigger] self@.contains_key(k) implies self@[k] == other@[k] by {
            let i = assoc_index(self.keys_view(), k);
            self.lemma_index_unique(i, k);
            other.lemma_index_unique(i, k);
        }
        assert(self@ =~= other@);
    }

    /// Inserting into the map inserts the value's view into the view.
    pub proof fn lemma_view_insert(self, before: Self, k: Seq<char>, v: V)
        requires
            self.map_view() == before.map_view().insert(k, v),
        ensures
            self@ == before@.insert(k, v@),
    {
        assert(self@ =~= before@.insert(k, v@));
    }
}

impl<V: Clone> Clone for StrMap<V> {
    /// A copy with the same keys, each value cloned.
    fn clone(&self) -> (r: Self)
        ensures
            r.keys_view() == self.keys_view(),
            r.vals_view().len() == self.vals_view().len(),
            forall|i: int| 0 <= i < self.vals_view().len() ==> cloned::<V>(self.vals_view()[i],
                #[trigger] r.vals_view()[i]),
    {
        let keys = crate::text::copy_strings(&self.keys);
        let mut vals: Vec<V> = Vec::new();
        for i in 0..self.vals.len()
            invariant
                vals.len() == i,
                forall|j: int| 0 <= j < i ==> cloned::<V>(self.vals@[j], #[trigger] vals@[j]),
        {
            vals.push(self.vals[i].clone());
        }
        StrMap { keys, vals }
    }
}

} // verus!
