//! A keyed collection of values under string keys.
//!
//! Keys are unique; entries keep the order in which their keys first arrived.
//! The collection is modelled by a `Map` from key text to value, and, where
//! order matters, by the sequence of its entries.
use vstd::prelude::*;
use crate::text::same_text;

verus! {

/// One entry of a [`StringMap`].
#[derive(Clone, Debug)]
pub struct Entry<V> {
    pub key: String,
    pub value: V,
}

/// No key occurs twice among `es`.
pub open spec fn distinct_keys<V>(es: Seq<(Seq<char>, V)>) -> bool {
    forall|i: int, j: int| 0 <= i < j < es.len() ==> (#[trigger] es[i]).0 != (#[trigger] es[j]).0
}

/// Whether some entry of `es` has the key `k`.
pub open spec fn has_key<V>(es: Seq<(Seq<char>, V)>, k: Seq<char>) -> bool {
    exists|i: int| 0 <= i < es.len() && (#[trigger] es[i]).0 == k
}

/// A position of the key `k` among `es`.
pub open spec fn position<V>(es: Seq<(Seq<char>, V)>, k: Seq<char>) -> int {
    choose|i: int| 0 <= i < es.len() && (#[trigger] es[i]).0 == k
}

/// The map that the entries `es` stand for.
pub open spec fn to_map<V>(es: Seq<(Seq<char>, V)>) -> Map<Seq<char>, V> {
    Map::new(|k: Seq<char>| has_key(es, k), |k: Seq<char>| es[position(es, k)].1)
}

/// An entry of a collection with distinct keys is found under its key.
pub proof fn lemma_entry_in_map<V>(es: Seq<(Seq<char>, V)>, i: int)
    requires
        distinct_keys(es),
        0 <= i < es.len(),
    ensures
        to_map(es).dom().contains(es[i].0),
        to_map(es)[es[i].0] == es[i].1,
        position(es, es[i].0) == i,
{
    let k = es[i].0;
    assert(has_key(es, k));
    let p = position(es, k);
    assert(0 <= p < es.len() && es[p].0 == k);
    if p < i {
        assert(es[p].0 != es[i].0);
    } else if i < p {
        assert(es[i].0 != es[p].0);
    }
}

/// Appending an entry under a new key inserts it into the map.
pub proof fn lemma_push_entry<V>(es: Seq<(Seq<char>, V)>, k: Seq<char>, v: V)
    requires
        distinct_keys(es),
        !has_key(es, k),
    ensures
        distinct_keys(es.push((k, v))),
        to_map(es.push((k, v))) == to_map(es).insert(k, v),
{
    let es2 = es.push((k, v));
    assert forall|i: int, j: int| 0 <= i < j < es2.len() implies (#[trigger] es2[i]).0 != (
    #[trigger] es2[j]).0 by {
        if j < es.len() {
            assert(es[i].0 != es[j].0);
        } else {
            assert(es2[i] == es[i]);
        }
    }
    assert forall|q: Seq<char>| has_key(es2, q) <==> (q == k || has_key(es, q)) by {
        if has_key(es2, q) {
            let i = position(es2, q);
            if i < es.len() {
                assert(es[i].0 == q);
            }
        }
        if q == k {
            assert(es2[es.len() as int].0 == k);
        }
        if has_key(es, q) {
            let i = position(es, q);
            assert(es2[i].0 == q);
        }
    }
    assert forall|q: Seq<char>| has_key(es2, q) implies #[trigger] to_map(es2)[q] == to_map(
        es,
    ).insert(k, v)[q] by {
        let i = position(es2, q);
        lemma_entry_in_map(es2, i);
        if i < es.len() {
            assert(es2[i] == es[i]);
            lemma_entry_in_map(es, i);
        }
    }
    assert(to_map(es2) =~= to_map(es).insert(k, v));
}

/// Replacing the value of an entry replaces it in the map.
pub proof fn lemma_update_entry<V>(es: Seq<(Seq<char>, V)>, i: int, v: V)
    requires
        distinct_keys(es),
        0 <= i < es.len(),
    ensures
        distinct_keys(es.update(i, (es[i].0, v))),
        to_map(es.update(i, (es[i].0, v))) == to_map(es).insert(es[i].0, v),
{
    let k = es[i].0;
    let es2 = es.update(i, (k, v));
    assert forall|a: int, b: int| 0 <= a < b < es2.len() implies (#[trigger] es2[a]).0 != (
    #[trigger] es2[b]).0 by {
        assert(es2[a].0 == es[a].0);
        assert(es2[b].0 == es[b].0);
        assert(es[a].0 != es[b].0);
    }
    assert forall|q: Seq<char>| has_key(es2, q) <==> has_key(es, q) by {
        if has_key(es2, q) {
            let p = position(es2, q);
            assert(es[p].0 == q);
        }
        if has_key(es, q) {
            let p = position(es, q);
            assert(es2[p].0 == q);
        }
    }
    lemma_entry_in_map(es, i);
    assert forall|q: Seq<char>| has_key(es2, q) implies #[trigger] to_map(es2)[q] == to_map(
        es,
    ).insert(k, v)[q] by {
        let p = position(es2, q);
        lemma_entry_in_map(es2, p);
        if p != i {
            assert(es2[p] == es[p]);
            lemma_entry_in_map(es, p);
        }
    }
    assert(to_map(es2) =~= to_map(es).insert(k, v));
}

/// Removing an entry removes its key from the map.
pub proof fn lemma_remove_entry<V>(es: Seq<(Seq<char>, V)>, i: int)
    requires
        distinct_keys(es),
        0 <= i < es.len(),
    ensures
        distinct_keys(es.remove(i)),
        to_map(es.remove(i)) == to_map(es).remove(es[i].0),
{
    let k = es[i].0;
    let es2 = es.remove(i);
    assert forall|a: int, b: int| 0 <= a < b < es2.len() implies (#[trigger] es2[a]).0 != (
    #[trigger] es2[b]).0 by {
        let from_a = if a < i { a } else { a + 1 };
        let from_b = if b < i { b } else { b + 1 };
        assert(es2[a] == es[from_a]);
        assert(es2[b] == es[from_b]);
        assert(es[from_a].0 != es[from_b].0);
    }
    assert forall|q: Seq<char>| has_key(es2, q) <==> (has_key(es, q) && q != k) by {
        if has_key(es2, q) {
            let p = position(es2, q);
            let src_at = if p < i { p } else { p + 1 };
            assert(es2[p] == es[src_at]);
            if src_at < i {
                assert(es[src_at].0 != es[i].0);
            } else {
                assert(es[i].0 != es[src_at].0);
            }
        }
        if has_key(es, q) && q != k {
            let p = position(es, q);
            let dst_at = if p < i { p } else { p - 1 };
            assert(es2[dst_at] == es[p]);
        }
    }
    assert forall|q: Seq<char>| has_key(es2, q) implies #[trigger] to_map(es2)[q] == to_map(
        es,
    ).remove(k)[q] by {
        let p = position(es2, q);
        lemma_entry_in_map(es2, p);
        let src_at = if p < i { p } else { p + 1 };
        assert(es2[p] == es[src_at]);
        lemma_entry_in_map(es, src_at);
    }
    assert(to_map(es2) =~= to_map(es).remove(k));
}

/// The keys among the first `i + 1` entries are those among the first `i`,
/// and the key of entry `i`.
pub proof fn lemma_take_next<V>(es: Seq<(Seq<char>, V)>, i: int)
    requires
        0 <= i < es.len(),
    ensures
        forall|k: Seq<char>|
            has_key(es.take(i + 1), k) <==> (has_key(es.take(i), k) || k == es[i].0),
{
    assert forall|k: Seq<char>|
        has_key(es.take(i + 1), k) <==> (has_key(es.take(i), k) || k == es[i].0) by {
        if has_key(es.take(i + 1), k) {
            let p = position(es.take(i + 1), k);
            if p < i {
                assert(es.take(i)[p].0 == k);
            }
        }
        if has_key(es.take(i), k) {
            let p = position(es.take(i), k);
            assert(es.take(i + 1)[p].0 == k);
        }
        if k == es[i].0 {
            assert(es.take(i + 1)[i].0 == k);
        }
    }
}

/// A collection of values under unique string keys.
#[derive(Debug)]
pub struct StringMap<V> {
    items: Vec<Entry<V>>,
}

impl<V> View for StringMap<V> {
    type V = Map<Seq<char>, V>;

    open spec fn view(&self) -> Map<Seq<char>, V> {
        to_map(self.entries())
    }
}

impl<V> StringMap<V> {
    /// The entries as key text and value, in the order in which they are kept.
    pub closed spec fn entries(self) -> Seq<(Seq<char>, V)> {
        self.items@.map_values(|e: Entry<V>| (e.key@, e.value))
    }

    /// Keys are unique.
    #[verifier::type_invariant]
    pub closed spec fn wf(self) -> bool {
        distinct_keys(self.entries())
    }

    /// A well-formed collection has unique keys.
    pub proof fn lemma_wf(self)
        requires
            self.wf(),
        ensures
            distinct_keys(self.entries()),
    {
    }

    /// An empty collection.
    pub fn new() -> (m: Self)
        ensures
            m.entries() == Seq::<(Seq<char>, V)>::empty(),
            m@ == Map::<Seq<char>, V>::empty(),
    {
        let m = StringMap { items: Vec::new() };
        assert(m.entries() =~= Seq::<(Seq<char>, V)>::empty());
        assert(m@ =~= Map::<Seq<char>, V>::empty());
        m
    }

    /// The number of entries.
    pub fn len(&self) -> (n: usize)
        ensures
            n == self.entries().len(),
            n == self@.dom().len(),
    {
        proof {
            use_type_invariant(self);
            lemma_map_size(self.entries());
        }
        self.items.len()
    }

    /// Whether there is no entry.
    pub fn is_empty(&self) -> (r: bool)
        ensures
            r == (self.entries().len() == 0),
            r == (self@ == Map::<Seq<char>, V>::empty()),
    {
        proof {
            if self.entries().len() == 0 {
                assert(self@ =~= Map::<Seq<char>, V>::empty());
            } else {
                assert(has_key(self.entries(), self.entries()[0].0));
                assert(self@.dom().contains(self.entries()[0].0));
            }
        }
        self.items.len() == 0
    }

    /// The position of `key`, if it is present.
    pub fn find(&self, key: &str) -> (r: Option<usize>)
        ensures
            match r {
                Some(i) => i < self.entries().len() && self.entries()[i as int].0 == key@,
                None => !self@.dom().contains(key@),
            },
    {
        let mut i: usize = 0;
        while i < self.items.len()
            invariant
                i <= self.items.len(),
                forall|j: int| 0 <= j < i ==> (#[trigger] self.entries()[j]).0 != key@,
            decreases self.items.len() - i,
        {
            if same_text(self.items[i].key.as_str(), key) {
                return Some(i);
            }
            i += 1;
        }
        None
    }

    /// Whether `key` is present.
    pub fn contains_key(&self, key: &str) -> (r: bool)
        ensures
            r == self@.dom().contains(key@),
    {
        match self.find(key) {
            Some(i) => {
                proof {
                    assert(has_key(self.entries(), key@));
                }
                true
            },
            None => false,
        }
    }

    /// The value under `key`, if it is present.
    pub fn get(&self, key: &str) -> (r: Option<&V>)
        ensures
            match r {
                Some(v) => self@.dom().contains(key@) && *v == self@[key@],
                None => !self@.dom().contains(key@),
            },
    {
        match self.find(key) {
            Some(i) => {
                proof {
                    use_type_invariant(self);
                    lemma_entry_in_map(self.entries(), i as int);
                }
                Some(&self.items[i].value)
            },
            None => None,
        }
    }

    /// The key at position `i`.
    pub fn key_at(&self, i: usize) -> (k: &String)
        requires
            i < self.entries().len(),
        ensures
            k@ == self.entries()[i as int].0,
    {
        &self.items[i].key
    }

    /// The value at position `i`.
    pub fn value_at(&self, i: usize) -> (v: &V)
        requires
            i < self.entries().len(),
        ensures
            *v == self.entries()[i as int].1,
            self@.dom().contains(self.entries()[i as int].0),
            *v == self@[self.entries()[i as int].0],
    {
        proof {
            use_type_invariant(self);
            lemma_entry_in_map(self.entries(), i as int);
        }
        &self.items[i].value
    }

    /// Puts `value` under `key`. A key that is present keeps its position and
    /// hands back its former value; a new key goes to the end.
    pub fn insert(&mut self, key: String, value: V) -> (former: Option<V>)
        ensures
            final(self)@ == old(self)@.insert(key@, value),
            match former {
                Some(v) => old(self)@.dom().contains(key@) && v == old(self)@[key@],
                None => !old(self)@.dom().contains(key@),
            },
            match former {
                Some(_) => exists|i: int|
                    0 <= i < old(self).entries().len() && old(self).entries()[i].0 == key@
                        && final(self).entries() == old(self).entries().update(i, (key@, value)),
                None => final(self).entries() == old(self).entries().push((key@, value)),
            },
    {
        let ghost es = self.entries();
        let found = self.find(key.as_str());
        let mut items = self.take_items();
        match found {
            Some(i) => {
                proof {
                    lemma_entry_in_map(es, i as int);
                    lemma_update_entry(es, i as int, value);
                }
                let e = items.remove(i);
                items.insert(i, Entry { key, value });
                assert(entries_of(items@) =~= es.update(i as int, (key@, value)));
                *self = StringMap { items };
                Some(e.value)
            },
            None => {
                proof {
                    lemma_push_entry(es, key@, value);
                }
                items.push(Entry { key, value });
                assert(entries_of(items@) =~= es.push((key@, value)));
                *self = StringMap { items };
                None
            },
        }
    }

    /// Takes the entry under `key` out, if it is present.
    pub fn remove(&mut self, key: &str) -> (former: Option<V>)
        ensures
            final(self)@ == old(self)@.remove(key@),
            match former {
                Some(v) => old(self)@.dom().contains(key@) && v == old(self)@[key@],
                None => !old(self)@.dom().contains(key@),
            },
    {
        let ghost es = self.entries();
        let found = self.find(key);
        let mut items = self.take_items();
        match found {
            Some(i) => {
                proof {
                    lemma_entry_in_map(es, i as int);
                    lemma_remove_entry(es, i as int);
                }
                let e = items.remove(i);
                assert(entries_of(items@) =~= es.remove(i as int));
                *self = StringMap { items };
                Some(e.value)
            },
            None => {
                *self = StringMap { items };
                assert(self@ =~= old(self)@.remove(key@));
                None
            },
        }
    }

    /// Moves the entries out, leaving the collection empty.
    fn take_items(&mut self) -> (items: Vec<Entry<V>>)
        ensures
            entries_of(items@) == old(self).entries(),
            distinct_keys(old(self).entries()),
            final(self).entries().len() == 0,
    {
        proof {
            use_type_invariant(&*self);
        }
        let mut other = StringMap { items: Vec::new() };
        core::mem::swap(self, &mut other);
        other.items
    }

    /// The entries, in order, leaving the collection.
    pub fn into_entries(self) -> (v: Vec<Entry<V>>)
        ensures
            entries_of(v@) == self.entries(),
            distinct_keys(self.entries()),
    {
        proof {
            use_type_invariant(&self);
        }
        self.items
    }
}

impl<V> Default for StringMap<V> {
    /// An empty collection.
    fn default() -> (m: Self)
        ensures
            m.entries() == Seq::<(Seq<char>, V)>::empty(),
            m@ == Map::<Seq<char>, V>::empty(),
    {
        StringMap::new()
    }
}

impl<V: Clone> Clone for StringMap<V> {
    /// A copy with the same keys in the same order, each value cloned.
    fn clone(&self) -> (r: Self)
        ensures
            r.entries().len() == self.entries().len(),
            forall|i: int|
                0 <= i < self.entries().len() ==> (#[trigger] r.entries()[i]).0
                    == self.entries()[i].0 && cloned(self.entries()[i].1, r.entries()[i].1),
    {
        proof {
            use_type_invariant(self);
        }
        let mut items: Vec<Entry<V>> = Vec::new();
        let mut i: usize = 0;
        while i < self.items.len()
            invariant
                i <= self.items.len(),
                items@.len() == i,
                forall|j: int|
                    0 <= j < i ==> (#[trigger] items@[j]).key@ == self.items@[j].key@ && cloned(
                        self.items@[j].value,
                        items@[j].value,
                    ),
            decreases self.items.len() - i,
        {
            let key = self.items[i].key.clone();
            let value = self.items[i].value.clone();
            items.push(Entry { key, value });
            i += 1;
        }
        proof {
            let es = entries_of(items@);
            assert forall|a: int, b: int| 0 <= a < b < es.len() implies (#[trigger] es[a]).0 != (
            #[trigger] es[b]).0 by {
                assert(self.entries()[a].0 != self.entries()[b].0);
            }
        }
        StringMap { items }
    }
}

/// The items of `v` in the opposite order.
pub fn reversed<T>(v: Vec<T>) -> (r: Vec<T>)
    ensures
        r@ == v@.reverse(),
{
    let ghost all = v@;
    let mut v = v;
    let mut r: Vec<T> = Vec::new();
    while v.len() > 0
        invariant
            v@.len() + r@.len() == all.len(),
            v@ == all.take(v@.len() as int),
            forall|j: int| 0 <= j < r@.len() ==> r@[j] == all[all.len() - 1 - j],
        decreases v.len(),
    {
        let x = v.pop().unwrap();
        r.push(x);
    }
    assert(r@ =~= all.reverse());
    r
}

/// The key text and value of each entry.
pub open spec fn entries_of<V>(items: Seq<Entry<V>>) -> Seq<(Seq<char>, V)> {
    items.map_values(|e: Entry<V>| (e.key@, e.value))
}

/// A collection with distinct keys has as many keys as entries.
pub proof fn lemma_map_size<V>(es: Seq<(Seq<char>, V)>)
    requires
        distinct_keys(es),
    ensures
        to_map(es).dom().finite(),
        to_map(es).dom().len() == es.len(),
    decreases es.len(),
{
    if es.len() == 0 {
        assert(to_map(es).dom() =~= Set::<Seq<char>>::empty());
    } else {
        let front = es.drop_last();
        let last = es.last();
        assert forall|i: int, j: int| 0 <= i < j < front.len() implies (#[trigger] front[i]).0 != (
        #[trigger] front[j]).0 by {
            assert(es[i].0 != es[j].0);
        }
        lemma_map_size(front);
        assert(!has_key(front, last.0)) by {
            if has_key(front, last.0) {
                let p = position(front, last.0);
                assert(es[p].0 != es[es.len() - 1].0);
            }
        }
        lemma_push_entry(front, last.0, last.1);
        assert(front.push((last.0, last.1)) =~= es);
        assert(to_map(es).dom() =~= to_map(front).dom().insert(last.0));
    }
}

} // verus!
