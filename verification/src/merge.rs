//! Right-biased merge of optional values and keyed collections.
use vstd::prelude::*;
use crate::keyed::{
    distinct_keys, has_key, lemma_entry_in_map, lemma_take_next, position, reversed, to_map, Entry,
    StringMap,
};

verus! {

/// Values that can take an overlay: what `other` defines wins over `self`.
pub trait Merge: Sized {
    /// Whether `r` is what merging `other` into `self` gives.
    spec fn is_merge(self, other: Self, r: Self) -> bool;

    /// Merges `other` into `self`.
    fn merge(self, other: Self) -> (r: Self)
        ensures
            self.is_merge(other, r),
    ;
}

/// The merge of two optional values: the second if it is defined, else the first.
pub open spec fn merge_options<T>(a: Option<T>, b: Option<T>) -> Option<T> {
    if b is Some {
        b
    } else {
        a
    }
}

impl<T> Merge for Option<T> {
    open spec fn is_merge(self, other: Self, r: Self) -> bool {
        r == merge_options(self, other)
    }

    fn merge(self, other: Self) -> (r: Self)
        ensures
            r == merge_options(self, other),
    {
        match other {
            Some(v) => Some(v),
            None => self,
        }
    }
}

/// Whether the map `r` is the key-wise merge of `b` into `a`: it has the keys
/// of both; a key of both holds a merge of the two values; a key of one side
/// holds that side's value.
pub open spec fn is_map_merge<V: Merge>(
    a: Map<Seq<char>, V>,
    b: Map<Seq<char>, V>,
    r: Map<Seq<char>, V>,
) -> bool {
    &&& r.dom() == a.dom().union(b.dom())
    &&& forall|k: Seq<char>| #[trigger]
        r.dom().contains(k) ==> if a.dom().contains(k) && b.dom().contains(k) {
            a[k].is_merge(b[k], r[k])
        } else if a.dom().contains(k) {
            r[k] == a[k]
        } else {
            r[k] == b[k]
        }
}

impl<V: Merge> Merge for StringMap<V> {
    open spec fn is_merge(self, other: Self, r: Self) -> bool {
        is_map_merge(self@, other@, r@)
    }

    fn merge(self, other: Self) -> (r: Self) {
        let ghost a = self@;
        let ghost b = other@;
        let ghost bes = other.entries();
        let mut merged = self;
        let items = other.into_entries();
        let n = items.len();
        let mut items = reversed(items);
        let mut i: usize = 0;
        assert(bes.take(0) =~= Seq::<(Seq<char>, V)>::empty());
        while i < n
            invariant
                i <= n,
                n == bes.len(),
                b == to_map(bes),
                distinct_keys(bes),
                items@.len() == n - i,
                forall|j: int| 0 <= j < n - i ==> (#[trigger] items@[j]).key@ == bes[n - 1 - j].0
                    && items@[j].value == bes[n - 1 - j].1,
                merged@.dom() == a.dom().union(to_map(bes.take(i as int)).dom()),
                forall|k: Seq<char>| #[trigger]
                    merged@.dom().contains(k) ==> if has_key(bes.take(i as int), k) {
                        if a.dom().contains(k) {
                            a[k].is_merge(b[k], merged@[k])
                        } else {
                            merged@[k] == b[k]
                        }
                    } else {
                        merged@[k] == a[k]
                    },
            decreases n - i,
        {
            let ghost before = merged@;
            let e = items.pop().unwrap();
            let Entry { key, value } = e;
            proof {
                assert(key@ == bes[i as int].0);
                assert(value == bes[i as int].1);
                lemma_entry_in_map(bes, i as int);
                lemma_take_next(bes, i as int);
                assert(!has_key(bes.take(i as int), key@)) by {
                    if has_key(bes.take(i as int), key@) {
                        let p = position(bes.take(i as int), key@);
                        assert(bes.take(i as int)[p] == bes[p]);
                        assert(bes[p].0 != bes[i as int].0);
                    }
                }
            }
            match merged.remove(key.as_str()) {
                Some(mine) => {
                    let v = mine.merge(value);
                    merged.insert(key, v);
                },
                None => {
                    merged.insert(key, value);
                },
            }
            proof {
                assert(merged@.dom() =~= a.dom().union(to_map(bes.take(i + 1)).dom()));
                assert forall|k: Seq<char>| #[trigger]
                    merged@.dom().contains(k) implies if has_key(bes.take(i + 1), k) {
                    if a.dom().contains(k) {
                        a[k].is_merge(b[k], merged@[k])
                    } else {
                        merged@[k] == b[k]
                    }
                } else {
                    merged@[k] == a[k]
                } by {
                    if k != key@ {
                        assert(before.dom().contains(k));
                    }
                }
            }
            i += 1;
        }
        proof {
            assert(bes.take(n as int) =~= bes);
            assert(merged@.dom() =~= a.dom().union(b.dom()));
        }
        merged
    }
}

/// Merging two optional values gives the second if it is defined, else the first.
pub proof fn law_option_merge<T>(a: Option<T>, b: Option<T>, r: Option<T>)
    requires
        a.is_merge(b, r),
    ensures
        b is Some ==> r == b,
        b is None ==> r == a,
{
}

/// The merge of two keyed collections has the keys of both; a shared key holds
/// the merge of the two values, and a key of one side keeps that side's value.
pub proof fn law_map_merge<V: Merge>(a: StringMap<V>, b: StringMap<V>, r: StringMap<V>)
    requires
        a.is_merge(b, r),
    ensures
        r@.dom() == a@.dom().union(b@.dom()),
        forall|k: Seq<char>|
            a@.dom().contains(k) && b@.dom().contains(k) ==> a@[k].is_merge(b@[k], #[trigger] r@[k]),
        forall|k: Seq<char>|
            a@.dom().contains(k) && !b@.dom().contains(k) ==> #[trigger] r@[k] == a@[k],
        forall|k: Seq<char>|
            !a@.dom().contains(k) && b@.dom().contains(k) ==> #[trigger] r@[k] == b@[k],
{
    assert forall|k: Seq<char>| a@.dom().contains(k) && b@.dom().contains(k) implies a@[k].is_merge(
        b@[k],
        #[trigger] r@[k],
    ) by {
        assert(r@.dom().contains(k));
    }
    assert forall|k: Seq<char>|
        a@.dom().contains(k) && !b@.dom().contains(k) implies #[trigger] r@[k] == a@[k] by {
        assert(r@.dom().contains(k));
    }
    assert forall|k: Seq<char>|
        !a@.dom().contains(k) && b@.dom().contains(k) implies #[trigger] r@[k] == b@[k] by {
        assert(r@.dom().contains(k));
    }
}

/// Merging an empty collection into `a` leaves the contents of `a` as they are.
pub proof fn law_merge_empty<V: Merge>(a: StringMap<V>, b: StringMap<V>, r: StringMap<V>)
    requires
        a.is_merge(b, r),
        b@ == Map::<Seq<char>, V>::empty(),
    ensures
        r@ == a@,
{
    assert(r@.dom() =~= a@.dom());
    assert forall|k: Seq<char>| r@.dom().contains(k) implies #[trigger] r@[k] == a@[k] by {}
    assert(r@ =~= a@);
}

} // verus!
