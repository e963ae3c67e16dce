//! Small insertion-ordered maps.
//!
//! A window manager tracks tens of windows and a handful of spaces, so a flat
//! list with a uniqueness invariant serves as the map everywhere, and it can be
//! keyed by the identifier types and by strings alike.

use vstd::prelude::*;

verus! {

/// A type that can key a [`VecMap`]: two keys are the same key exactly when
/// their views are equal.
pub trait Key: View + Sized {
    fn same(&self, other: &Self) -> (b: bool)
        ensures
            b == (self@ == other@),
    ;
}

impl Key for i32 {
    fn same(&self, other: &Self) -> (b: bool) {
        *self == *other
    }
}

impl Key for String {
    fn same(&self, other: &Self) -> (b: bool) {
        *self == *other
    }
}

/// A map held as a list of entries in insertion order.
#[derive(Debug)]
pub struct VecMap<K, V> {
    pub entries: Vec<(K, V)>,
}

/// Position `i` of `entries` holds key `k`.
pub open spec fn holds_key<K: View, V>(entries: Seq<(K, V)>, k: K::V, i: int) -> bool {
    0 <= i < entries.len() && entries[i].0@ == k
}

/// Some entry holds key `k`.
pub open spec fn has_key<K: View, V>(entries: Seq<(K, V)>, k: K::V) -> bool {
    exists|i: int| holds_key(entries, k, i)
}

/// The position of the entry with key `k`, where there is one.
pub open spec fn index_of_key<K: View, V>(entries: Seq<(K, V)>, k: K::V) -> int {
    choose|i: int| holds_key(entries, k, i)
}

/// No key occurs twice.
pub open spec fn distinct_keys<K: View, V>(entries: Seq<(K, V)>) -> bool {
    forall|i: int, j: int|
        0 <= i < entries.len() && 0 <= j < entries.len() && entries[i].0@ == entries[j].0@
            ==> i == j
}

/// The map that a list of entries stands for.
pub open spec fn entries_map<K: View, V>(entries: Seq<(K, V)>) -> Map<K::V, V> {
    Map::new(
        |k: K::V| has_key(entries, k),
        |k: K::V| entries[index_of_key(entries, k)].1,
    )
}

impl<K: View, V> View for VecMap<K, V> {
    type V = Map<K::V, V>;

    open spec fn view(&self) -> Map<K::V, V> {
        entries_map(self.entries@)
    }
}

impl<K: View, V> VecMap<K, V> {
    /// No key occurs twice.
    pub open spec fn wf(&self) -> bool {
        distinct_keys(self.entries@)
    }
}

/// An entry of a list without duplicate keys is the map's value for its key.
pub proof fn lemma_entry<K: View, V>(entries: Seq<(K, V)>, i: int)
    requires
        distinct_keys(entries),
        0 <= i < entries.len(),
    ensures
        entries_map(entries).dom().contains(entries[i].0@),
        entries_map(entries)[entries[i].0@] == entries[i].1,
{
    assert(holds_key(entries, entries[i].0@, i));
    let j = index_of_key(entries, entries[i].0@);
    assert(holds_key(entries, entries[i].0@, j));
}

/// Every key of the map comes from an entry.
pub proof fn lemma_key<K: View, V>(entries: Seq<(K, V)>, k: K::V) -> (i: int)
    requires
        distinct_keys(entries),
        entries_map(entries).dom().contains(k),
    ensures
        0 <= i < entries.len(),
        entries[i].0@ == k,
        entries[i].1 == entries_map(entries)[k],
{
    index_of_key(entries, k)
}

proof fn lemma_push<K: View, V>(entries: Seq<(K, V)>, k: K, v: V)
    requires
        distinct_keys(entries),
        !has_key(entries, k@),
    ensures
        distinct_keys(entries.push((k, v))),
        entries_map(entries.push((k, v))) == entries_map(entries).insert(k@, v),
{
    let next = entries.push((k, v));
    assert forall|i: int, j: int|
        0 <= i < next.len() && 0 <= j < next.len() && next[i].0@ == next[j].0@ implies i == j by {
        if i < entries.len() && j == entries.len() {
            assert(holds_key(entries, k@, i));
        }
        if j < entries.len() && i == entries.len() {
            assert(holds_key(entries, k@, j));
        }
    }
    assert forall|q: K::V| #[trigger]
        entries_map(next).dom().contains(q) == entries_map(entries).insert(k@, v).dom().contains(
            q,
        ) by {
        if entries_map(next).dom().contains(q) {
            let i = lemma_key(next, q);
            if i < entries.len() {
                assert(holds_key(entries, q, i));
            }
        }
        if q == k@ {
            assert(holds_key(next, q, entries.len() as int));
        } else if has_key(entries, q) {
            let i = index_of_key(entries, q);
            assert(holds_key(next, q, i));
        }
    }
    assert forall|q: K::V| entries_map(next).dom().contains(q) implies #[trigger] entries_map(
        next,
    )[q] == entries_map(entries).insert(k@, v)[q] by {
        let i = lemma_key(next, q);
        if i < entries.len() {
            lemma_entry(entries, i);
            assert(holds_key(entries, q, i));
        }
    }
    assert(entries_map(next) =~= entries_map(entries).insert(k@, v));
}

proof fn lemma_update<K: View, V>(entries: Seq<(K, V)>, i: int, k: K, v: V)
    requires
        distinct_keys(entries),
        0 <= i < entries.len(),
        entries[i].0@ == k@,
    ensures
        distinct_keys(entries.update(i, (k, v))),
        entries_map(entries.update(i, (k, v))) == entries_map(entries).insert(k@, v),
{
    let next = entries.update(i, (k, v));
    assert forall|a: int, b: int|
        0 <= a < next.len() && 0 <= b < next.len() && next[a].0@ == next[b].0@ implies a == b by {
        assert(entries[a].0@ == next[a].0@);
        assert(entries[b].0@ == next[b].0@);
    }
    assert forall|q: K::V| #[trigger]
        entries_map(next).dom().contains(q) == entries_map(entries).insert(k@, v).dom().contains(
            q,
        ) by {
        if has_key(next, q) {
            let a = index_of_key(next, q);
            assert(holds_key(entries, q, a));
        }
        if has_key(entries, q) {
            let a = index_of_key(entries, q);
            assert(holds_key(next, q, a));
        }
        lemma_entry(next, i);
    }
    assert forall|q: K::V| entries_map(next).dom().contains(q) implies #[trigger] entries_map(
        next,
    )[q] == entries_map(entries).insert(k@, v)[q] by {
        let a = lemma_key(next, q);
        lemma_entry(entries, a);
    }
    assert(entries_map(next) =~= entries_map(entries).insert(k@, v));
}

pub proof fn lemma_remove<K: View, V>(entries: Seq<(K, V)>, i: int)
    requires
        distinct_keys(entries),
        0 <= i < entries.len(),
    ensures
        distinct_keys(entries.remove(i)),
        entries_map(entries.remove(i)) == entries_map(entries).remove(entries[i].0@),
{
    let next = entries.remove(i);
    let k = entries[i].0@;
    assert forall|a: int, b: int|
        0 <= a < next.len() && 0 <= b < next.len() && next[a].0@ == next[b].0@ implies a == b by {
        let a0 = if a < i { a } else { a + 1 };
        let b0 = if b < i { b } else { b + 1 };
        assert(entries[a0] == next[a]);
        assert(entries[b0] == next[b]);
    }
    assert forall|q: K::V| #[trigger]
        entries_map(next).dom().contains(q) == entries_map(entries).remove(k).dom().contains(q) by {
        if has_key(next, q) {
            let a = index_of_key(next, q);
            let a0 = if a < i { a } else { a + 1 };
            assert(entries[a0] == next[a]);
            assert(holds_key(entries, q, a0));
            assert(q != k);
        }
        if has_key(entries, q) && q != k {
            let a = index_of_key(entries, q);
            let a1 = if a < i { a } else { a - 1 };
            assert(next[a1] == entries[a]);
            assert(holds_key(next, q, a1));
        }
    }
    assert forall|q: K::V| entries_map(next).dom().contains(q) implies #[trigger] entries_map(
        next,
    )[q] == entries_map(entries).remove(k)[q] by {
        let a = lemma_key(next, q);
        let a0 = if a < i { a } else { a + 1 };
        assert(entries[a0] == next[a]);
        lemma_entry(entries, a0);
    }
    assert(entries_map(next) =~= entries_map(entries).remove(k));
}

/// The entries with `k` bound to `v`: in place where it was bound, else at the
/// end.
pub open spec fn with_entry<K: View, V>(entries: Seq<(K, V)>, k: K, v: V) -> Seq<(K, V)> {
    if has_key(entries, k@) {
        entries.update(index_of_key(entries, k@), (k, v))
    } else {
        entries.push((k, v))
    }
}

/// The entries without the one for `k`.
pub open spec fn without_key<K: View, V>(entries: Seq<(K, V)>, k: K::V) -> Seq<(K, V)> {
    if has_key(entries, k) {
        entries.remove(index_of_key(entries, k))
    } else {
        entries
    }
}

/// [`with_entry`] and [`without_key`] on the map.
pub proof fn lemma_with_without<K: View, V>(entries: Seq<(K, V)>, k: K, v: V)
    requires
        distinct_keys(entries),
    ensures
        distinct_keys(with_entry(entries, k, v)),
        entries_map(with_entry(entries, k, v)) == entries_map(entries).insert(k@, v),
        distinct_keys(without_key(entries, k@)),
        entries_map(without_key(entries, k@)) == entries_map(entries).remove(k@),
{
    if has_key(entries, k@) {
        let i = index_of_key(entries, k@);
        lemma_update(entries, i, k, v);
        lemma_remove(entries, i);
    } else {
        lemma_push(entries, k, v);
        assert(entries_map(entries) =~= entries_map(entries).remove(k@));
    }
}

impl<K: Key, V> VecMap<K, V> {
    pub fn new() -> (m: Self)
        ensures
            m.wf(),
            m.entries@.len() == 0,
            m@ == Map::<K::V, V>::empty(),
    {
        let m = VecMap { entries: Vec::new() };
        assert(m@ =~= Map::<K::V, V>::empty());
        m
    }

    pub fn len(&self) -> (n: usize)
        ensures
            n == self.entries@.len(),
    {
        self.entries.len()
    }

    pub fn is_empty(&self) -> (b: bool)
        ensures
            b == (self.entries@.len() == 0),
            b == (self@.dom() =~= Set::empty()),
    {
        proof {
            if self.entries@.len() > 0 {
                assert(holds_key(self.entries@, self.entries@[0].0@, 0));
                assert(self@.dom().contains(self.entries@[0].0@));
            } else {
                assert(self@.dom() =~= Set::empty());
            }
        }
        self.entries.len() == 0
    }

    /// The position of the entry for `k`.
    pub fn position(&self, k: &K) -> (r: Option<usize>)
        ensures
            r matches Some(i) ==> holds_key(self.entries@, k@, i as int),
            r is None <==> !has_key(self.entries@, k@),
    {
        let mut i: usize = 0;
        while i < self.entries.len()
            invariant
                i <= self.entries@.len(),
                forall|j: int| 0 <= j < i ==> self.entries@[j].0@ != k@,
            decreases self.entries@.len() - i,
        {
            if self.entries[i].0.same(k) {
                assert(holds_key(self.entries@, k@, i as int));
                return Some(i);
            }
            i += 1;
        }
        None
    }

    pub fn contains_key(&self, k: &K) -> (b: bool)
        ensures
            b == self@.dom().contains(k@),
    {
        self.position(k).is_some()
    }

    pub fn get(&self, k: &K) -> (r: Option<&V>)
        requires
            self.wf(),
        ensures
            r == (if self@.dom().contains(k@) {
                Some(&self@[k@])
            } else {
                None
            }),
    {
        match self.position(k) {
            Some(i) => {
                proof {
                    lemma_entry(self.entries@, i as int);
                }
                Some(&self.entries[i].1)
            },
            None => None,
        }
    }

    /// Bind `k` to `v`. A key already bound keeps its place in the order.
    pub fn insert(&mut self, k: K, v: V)
        requires
            old(self).wf(),
        ensures
            final(self).wf(),
            final(self)@ == old(self)@.insert(k@, v),
            final(self).entries@ == with_entry(old(self).entries@, k, v),
    {
        match self.position(&k) {
            Some(i) => {
                proof {
                    lemma_update(self.entries@, i as int, k, v);
                    let c = index_of_key(self.entries@, k@);
                    assert(holds_key(self.entries@, k@, c));
                    assert(c == i);
                }
                self.entries.set(i, (k, v));
            },
            None => {
                proof {
                    lemma_push(self.entries@, k, v);
                }
                self.entries.push((k, v));
            },
        }
    }

    pub fn remove(&mut self, k: &K) -> (r: Option<V>)
        requires
            old(self).wf(),
        ensures
            final(self).wf(),
            final(self)@ == old(self)@.remove(k@),
            final(self).entries@ == without_key(old(self).entries@, k@),
            r == (if old(self)@.dom().contains(k@) {
                Some(old(self)@[k@])
            } else {
                None
            }),
    {
        match self.position(k) {
            Some(i) => {
                proof {
                    let c = index_of_key(self.entries@, k@);
                    assert(holds_key(self.entries@, k@, c));
                    assert(c == i);
                    lemma_entry(self.entries@, i as int);
                    lemma_remove(self.entries@, i as int);
                }
                let (_, v) = self.entries.remove(i);
                Some(v)
            },
            None => {
                assert(self@ =~= self@.remove(k@));
                None
            },
        }
    }
}

/// The entries with the value of `from` under the key `to`, in its old place.
/// What `to` was bound to before is dropped.
pub open spec fn rekeyed<K: View, V>(entries: Seq<(K, V)>, from: K::V, to: K) -> Seq<(K, V)> {
    if from == to@ || !has_key(entries, from) {
        entries
    } else {
        let rest = without_key(entries, to@);
        let i = index_of_key(rest, from);
        rest.update(i, (to, rest[i].1))
    }
}

/// [`rekeyed`] on the map.
pub proof fn lemma_rekeyed<K: View, V>(entries: Seq<(K, V)>, from: K::V, to: K)
    requires
        distinct_keys(entries),
    ensures
        distinct_keys(rekeyed(entries, from, to)),
        entries_map(rekeyed(entries, from, to)) == (if from == to@ || !has_key(entries, from) {
            entries_map(entries)
        } else {
            entries_map(entries).remove(from).insert(to@, entries_map(entries)[from])
        }),
{
    if from != to@ && has_key(entries, from) {
        let rest = without_key(entries, to@);
        if has_key(entries, to@) {
            lemma_remove(entries, index_of_key(entries, to@));
        }
        let m0 = entries_map(entries);
        let m = entries_map(rest);
        assert(m0.dom().contains(from));
        assert(m =~= m0.remove(to@));
        assert(m.dom().contains(from));
        let i = index_of_key(rest, from);
        let v = rest[i].1;
        lemma_entry(rest, i);
        assert(!has_key(rest, to@)) by {
            assert(!m.dom().contains(to@));
        }
        let next = rest.update(i, (to, v));
        assert forall|a: int, b: int|
            0 <= a < next.len() && 0 <= b < next.len() && next[a].0@ == next[b].0@ implies a
            == b by {
            if a == i && b != i {
                assert(holds_key(rest, to@, b));
            }
            if b == i && a != i {
                assert(holds_key(rest, to@, a));
            }
        }
        let want = m.remove(from).insert(to@, v);
        assert forall|q: K::V| #[trigger]
            entries_map(next).dom().contains(q) == want.dom().contains(q) by {
            if has_key(next, q) {
                let a = index_of_key(next, q);
                if a != i {
                    assert(holds_key(rest, q, a));
                    assert(q != from);
                }
            }
            if q == to@ {
                assert(holds_key(next, q, i));
            } else if has_key(rest, q) && q != from {
                let a = index_of_key(rest, q);
                assert(holds_key(next, q, a));
            }
        }
        assert forall|q: K::V| entries_map(next).dom().contains(q) implies #[trigger] entries_map(
            next,
        )[q] == want[q] by {
            let a = lemma_key(next, q);
            if a != i {
                lemma_entry(rest, a);
            }
        }
        assert(entries_map(next) =~= want);
        assert(want =~= m0.remove(from).insert(to@, m0[from]));
    }
}

/// The entries with every value changed by `f`.
pub open spec fn values_mapped<K, V>(entries: Seq<(K, V)>, f: spec_fn(V) -> V) -> Seq<(K, V)> {
    entries.map_values(|e: (K, V)| (e.0, f(e.1)))
}

/// [`values_mapped`] on the map.
pub proof fn lemma_values_mapped<K: View, V>(entries: Seq<(K, V)>, f: spec_fn(V) -> V)
    requires
        distinct_keys(entries),
    ensures
        distinct_keys(values_mapped(entries, f)),
        entries_map(values_mapped(entries, f)) == entries_map(entries).map_values(f),
{
    let next = values_mapped(entries, f);
    let want = entries_map(entries).map_values(f);
    assert forall|a: int, b: int|
        0 <= a < next.len() && 0 <= b < next.len() && next[a].0@ == next[b].0@ implies a == b by {
        assert(entries[a].0@ == entries[b].0@);
    }
    assert forall|q: K::V| #[trigger] entries_map(next).dom().contains(q) == want.dom().contains(
        q,
    ) by {
        if has_key(next, q) {
            assert(holds_key(entries, q, index_of_key(next, q)));
        }
        if has_key(entries, q) {
            assert(holds_key(next, q, index_of_key(entries, q)));
        }
    }
    assert forall|q: K::V| entries_map(next).dom().contains(q) implies #[trigger] entries_map(
        next,
    )[q] == want[q] by {
        let a = lemma_key(next, q);
        lemma_entry(entries, a);
    }
    assert(entries_map(next) =~= want);
}

impl<K: Key, V> VecMap<K, V> {
    /// Move the value of `from` to the key `to`, keeping its place.
    pub fn rekey(&mut self, from: &K, to: K)
        requires
            old(self).wf(),
        ensures
            final(self).wf(),
            final(self).entries@ == rekeyed(old(self).entries@, from@, to),
    {
        proof {
            lemma_rekeyed(self.entries@, from@, to);
        }
        if from.same(&to) || !self.contains_key(from) {
            return ;
        }
        let ghost before = self.entries@;
        if let Some(j) = self.position(&to) {
            proof {
                let c = index_of_key(before, to@);
                assert(holds_key(before, to@, c));
                assert(c == j);
                lemma_remove(before, j as int);
                assert(entries_map(before).dom().contains(from@));
                assert(entries_map(before.remove(j as int)).dom().contains(from@));
            }
            self.entries.remove(j);
        }
        let ghost rest = self.entries@;
        assert(rest == without_key(before, to@));
        match self.position(from) {
            Some(i) => {
                proof {
                    let c = index_of_key(rest, from@);
                    assert(holds_key(rest, from@, c));
                    assert(c == i);
                }
                let (_, v) = self.entries.remove(i);
                self.entries.insert(i, (to, v));
                assert(self.entries@ =~= rest.update(i as int, (to, v)));
            },
            None => {
                assert(false);
            },
        }
    }
}

/// A set held as a list of members in insertion order.
#[derive(Debug)]
pub struct VecSet<K> {
    pub items: Vec<K>,
}

/// Some position of `items` holds `k`.
pub open spec fn has_item<K: View>(items: Seq<K>, k: K::V) -> bool {
    exists|i: int| 0 <= i < items.len() && (#[trigger] items[i])@ == k
}

/// No member occurs twice.
pub open spec fn distinct_items<K: View>(items: Seq<K>) -> bool {
    forall|i: int, j: int|
        0 <= i < items.len() && 0 <= j < items.len() && (#[trigger] items[i])@ == (
        #[trigger] items[j])@ ==> i == j
}

/// The list without `k`.
pub open spec fn without_item<K: View>(items: Seq<K>, k: K::V) -> Seq<K> {
    if has_item(items, k) {
        items.remove(choose|i: int| 0 <= i < items.len() && (#[trigger] items[i])@ == k)
    } else {
        items
    }
}

/// The set that a list of members stands for.
pub open spec fn items_set<K: View>(items: Seq<K>) -> Set<K::V> {
    Set::new(|k: K::V| has_item(items, k))
}

impl<K: View> View for VecSet<K> {
    type V = Set<K::V>;

    open spec fn view(&self) -> Set<K::V> {
        items_set(self.items@)
    }
}

impl<K: View> VecSet<K> {
    /// No member occurs twice.
    pub open spec fn wf(&self) -> bool {
        distinct_items(self.items@)
    }
}

/// Each item of the list is a member of the set, and the set has no other.
pub proof fn lemma_item<K: View>(items: Seq<K>, k: K::V)
    ensures
        items_set(items).contains(k) == has_item(items, k),
        forall|i: int| 0 <= i < items.len() ==> items_set(items).contains((#[trigger] items[i])@),
{
}

proof fn lemma_push_item<K: View>(items: Seq<K>, k: K)
    ensures
        items_set(items.push(k)) == items_set(items).insert(k@),
        distinct_items(items) && !has_item(items, k@) ==> distinct_items(items.push(k)),
{
    let next = items.push(k);
    assert forall|q: K::V| has_item(next, q) == (has_item(items, q) || q == k@) by {
        if has_item(items, q) {
            let i = choose|i: int| 0 <= i < items.len() && (#[trigger] items[i])@ == q;
            assert(next[i]@ == q);
        }
        if q == k@ {
            assert(next[items.len() as int]@ == q);
        }
        if has_item(next, q) {
            let i = choose|i: int| 0 <= i < next.len() && (#[trigger] next[i])@ == q;
            if i < items.len() {
                assert(items[i]@ == q);
            }
        }
    }
    assert(items_set(next) =~= items_set(items).insert(k@));
}

impl<K: Key> VecSet<K> {
    pub fn new() -> (s: Self)
        ensures
            s.wf(),
            s.items@.len() == 0,
            s@ == Set::<K::V>::empty(),
    {
        let s = VecSet { items: Vec::new() };
        assert(s@ =~= Set::<K::V>::empty());
        s
    }

    pub fn len(&self) -> (n: usize)
        ensures
            n == self.items@.len(),
    {
        self.items.len()
    }

    pub fn contains(&self, k: &K) -> (b: bool)
        ensures
            b == self@.contains(k@),
    {
        let mut i: usize = 0;
        while i < self.items.len()
            invariant
                i <= self.items@.len(),
                forall|j: int| 0 <= j < i ==> (#[trigger] self.items@[j])@ != k@,
            decreases self.items@.len() - i,
        {
            if self.items[i].same(k) {
                assert(self.items@[i as int]@ == k@);
                return true;
            }
            i += 1;
        }
        false
    }

    pub fn insert(&mut self, k: K)
        requires
            old(self).wf(),
        ensures
            final(self).wf(),
            final(self)@ == old(self)@.insert(k@),
            final(self).items@ == (if old(self)@.contains(k@) {
                old(self).items@
            } else {
                old(self).items@.push(k)
            }),
    {
        if !self.contains(&k) {
            proof {
                lemma_push_item(self.items@, k);
            }
            self.items.push(k);
        } else {
            assert(self@ =~= self@.insert(k@));
        }
    }

    pub fn remove(&mut self, k: &K)
        requires
            old(self).wf(),
        ensures
            final(self).wf(),
            final(self)@ == old(self)@.remove(k@),
            final(self).items@ == without_item(old(self).items@, k@),
    {
        let ghost before = self.items@;
        let mut i: usize = 0;
        while i < self.items.len()
            invariant
                i <= self.items@.len(),
                self.items@ == before,
                before == old(self).items@,
                distinct_items(before),
                forall|j: int| 0 <= j < i ==> (#[trigger] self.items@[j])@ != k@,
            decreases self.items@.len() - i,
        {
            if self.items[i].same(k) {
                self.items.remove(i);
                proof {
                    let at = i as int;
                    let next = before.remove(at);
                    assert(before[at]@ == k@);
                    let c = choose|c: int| 0 <= c < before.len() && (#[trigger] before[c])@ == k@;
                    assert(c == at);
                    assert forall|a: int, b: int|
                        0 <= a < next.len() && 0 <= b < next.len() && (#[trigger] next[a])@ == (
                        #[trigger] next[b])@ implies a == b by {
                        let a0 = if a < at { a } else { a + 1 };
                        let b0 = if b < at { b } else { b + 1 };
                        assert(before[a0] == next[a]);
                        assert(before[b0] == next[b]);
                    }
                    assert forall|q: K::V| has_item(next, q) == (has_item(before, q) && q
                        != k@) by {
                        if has_item(next, q) {
                            let a = choose|a: int|
                                0 <= a < next.len() && (#[trigger] next[a])@ == q;
                            let a0 = if a < at { a } else { a + 1 };
                            assert(before[a0] == next[a]);
                            assert(before[at]@ == k@);
                        }
                        if has_item(before, q) && q != k@ {
                            let a = choose|a: int|
                                0 <= a < before.len() && (#[trigger] before[a])@ == q;
                            let a1 = if a < at { a } else { a - 1 };
                            assert(next[a1] == before[a]);
                        }
                    }
                    assert(items_set(next) =~= items_set(before).remove(k@));
                }
                return ;
            }
            i += 1;
        }
        assert(self@ =~= self@.remove(k@));
    }
}

} // verus!
