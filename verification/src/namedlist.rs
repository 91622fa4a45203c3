//! A collection of named entries that arrives either as a list or as a map.
//!
//! A list is authoritative: merged over anything, it replaces it. A map is an
//! overlay by name: merged over anything, it adds and overrides entries, and
//! may switch an entry off.
use vstd::prelude::*;
use crate::builder::Build;
use crate::error::Error;
use crate::keyed::{distinct_keys, has_key, lemma_entry_in_map, reversed, to_map, Entry, StringMap};
use crate::merge::{is_map_merge, merge_options, Merge};

verus! {

/// A payload that may be switched off. An unset flag counts as enabled.
#[derive(Clone, Debug)]
pub struct EnabledWrapper<T> {
    pub enabled: Option<bool>,
    pub item: T,
}

/// A payload with its name.
#[derive(Clone, Debug)]
pub struct NameWrapper<T> {
    pub name: String,
    pub item: T,
}

/// Named entries, as a map by name or as a list.
#[derive(Clone, Debug)]
pub enum NamedList<T> {
    MapBacked(StringMap<EnabledWrapper<T>>),
    ListBacked(Vec<NameWrapper<T>>),
}

/// The context of a build, extended by the name of the entry that is built.
pub struct NameParams<T> {
    pub name: String,
    pub params: T,
}

impl<T: Merge> Merge for EnabledWrapper<T> {
    open spec fn is_merge(self, other: Self, r: Self) -> bool {
        &&& r.enabled == merge_options(self.enabled, other.enabled)
        &&& self.item.is_merge(other.item, r.item)
    }

    fn merge(self, other: Self) -> (r: Self) {
        EnabledWrapper {
            enabled: self.enabled.merge(other.enabled),
            item: self.item.merge(other.item),
        }
    }
}

/// The entries of a list by name; of two entries with one name the later stays.
pub open spec fn list_items<T>(xs: Seq<NameWrapper<T>>) -> Map<Seq<char>, T>
    decreases xs.len(),
{
    if xs.len() == 0 {
        Map::empty()
    } else {
        list_items(xs.drop_last()).insert(xs.last().name@, xs.last().item)
    }
}

/// The entries of a list by name, each explicitly enabled.
pub open spec fn list_enabled<T>(xs: Seq<NameWrapper<T>>) -> Map<Seq<char>, EnabledWrapper<T>>
    decreases xs.len(),
{
    if xs.len() == 0 {
        Map::empty()
    } else {
        list_enabled(xs.drop_last()).insert(
            xs.last().name@,
            EnabledWrapper { enabled: Some(true), item: xs.last().item },
        )
    }
}

/// The entries of a map that are not switched off.
pub open spec fn included<T>(m: Map<Seq<char>, EnabledWrapper<T>>) -> Map<Seq<char>, T> {
    Map::new(
        |k: Seq<char>| m.dom().contains(k) && m[k].enabled != Some(false),
        |k: Seq<char>| m[k].item,
    )
}

impl<T> NamedList<T> {
    /// The canonical content: the entries by name that are not switched off.
    pub open spec fn canonical(self) -> Map<Seq<char>, T> {
        match self {
            NamedList::MapBacked(m) => included(m@),
            NamedList::ListBacked(xs) => list_items(xs@),
        }
    }

    /// The content as an overlay by name: a list's entries are all enabled.
    pub open spec fn keyed(self) -> Map<Seq<char>, EnabledWrapper<T>> {
        match self {
            NamedList::MapBacked(m) => m@,
            NamedList::ListBacked(xs) => list_enabled(xs@),
        }
    }

    /// The entries that are not switched off, by name.
    pub fn into_items(self) -> (m: StringMap<T>)
        ensures
            m@ == self.canonical(),
    {
        let mut out: StringMap<T> = StringMap::new();
        match self {
            NamedList::MapBacked(vs) => {
                let ghost src = vs@;
                let ghost es = vs.entries();
                let items = vs.into_entries();
                let n = items.len();
                let mut rest = reversed(items);
                let mut i: usize = 0;
                assert(es.take(0) =~= Seq::<(Seq<char>, EnabledWrapper<T>)>::empty());
                while i < n
                    invariant
                        i <= n,
                        n == es.len(),
                        src == to_map(es),
                        distinct_keys(es),
                        rest@.len() == n - i,
                        forall|j: int|
                            0 <= j < n - i ==> (#[trigger] rest@[j]).key@ == es[n - 1 - j].0
                                && rest@[j].value == es[n - 1 - j].1,
                        forall|k: Seq<char>|
                            out@.dom().contains(k) <==> (has_key(es.take(i as int), k) && (
                            #[trigger] src[k]).enabled != Some(false)),
                        forall|k: Seq<char>| #[trigger]
                            out@.dom().contains(k) ==> out@[k] == src[k].item,
                    decreases n - i,
                {
                    let e = rest.pop().unwrap();
                    let Entry { key, value } = e;
                    proof {
                        lemma_entry_in_map(es, i as int);
                        crate::keyed::lemma_take_next(es, i as int);
                    }
                    let on = match value.enabled {
                        Some(b) => b,
                        None => true,
                    };
                    if on {
                        out.insert(key, value.item);
                    }
                    i += 1;
                }
                proof {
                    assert(es.take(n as int) =~= es);
                    assert(out@ =~= included(src));
                }
            },
            NamedList::ListBacked(xs) => {
                let ghost all = xs@;
                let n = xs.len();
                let mut rest = reversed(xs);
                let mut i: usize = 0;
                assert(all.take(0) =~= Seq::<NameWrapper<T>>::empty());
                while i < n
                    invariant
                        i <= n,
                        n == all.len(),
                        rest@.len() == n - i,
                        forall|j: int| 0 <= j < n - i ==> #[trigger] rest@[j] == all[n - 1 - j],
                        out@ == list_items(all.take(i as int)),
                    decreases n - i,
                {
                    let w = rest.pop().unwrap();
                    let NameWrapper { name, item } = w;
                    proof {
                        assert(all.take(i + 1).drop_last() =~= all.take(i as int));
                    }
                    out.insert(name, item);
                    i += 1;
                }
                proof {
                    assert(all.take(n as int) =~= all);
                }
            },
        }
        out
    }

    /// The entries by name, each with its flag; the entries of a list are
    /// explicitly enabled.
    pub fn into_enabled(self) -> (m: StringMap<EnabledWrapper<T>>)
        ensures
            m@ == self.keyed(),
    {
        match self {
            NamedList::MapBacked(x) => x,
            NamedList::ListBacked(xs) => {
                let mut out: StringMap<EnabledWrapper<T>> = StringMap::new();
                let ghost all = xs@;
                let n = xs.len();
                let mut rest = reversed(xs);
                let mut i: usize = 0;
                assert(all.take(0) =~= Seq::<NameWrapper<T>>::empty());
                while i < n
                    invariant
                        i <= n,
                        n == all.len(),
                        rest@.len() == n - i,
                        forall|j: int| 0 <= j < n - i ==> #[trigger] rest@[j] == all[n - 1 - j],
                        out@ == list_enabled(all.take(i as int)),
                    decreases n - i,
                {
                    let w = rest.pop().unwrap();
                    let NameWrapper { name, item } = w;
                    proof {
                        assert(all.take(i + 1).drop_last() =~= all.take(i as int));
                    }
                    out.insert(name, EnabledWrapper { enabled: Some(true), item });
                    i += 1;
                }
                proof {
                    assert(all.take(n as int) =~= all);
                }
                out
            },
        }
    }
}

/// A document as it arrives: a sequence of named payloads, or a mapping from
/// names to payloads that may carry a flag.
#[derive(Clone, Debug)]
pub enum Document<T> {
    Sequence(Vec<NameWrapper<T>>),
    Mapping(Vec<Entry<EnabledWrapper<T>>>),
}

/// The entries of a mapping by name; of two entries with one name the later
/// stays.
pub open spec fn mapping_entries<V>(es: Seq<Entry<V>>) -> Map<Seq<char>, V>
    decreases es.len(),
{
    if es.len() == 0 {
        Map::empty()
    } else {
        mapping_entries(es.drop_last()).insert(es.last().key@, es.last().value)
    }
}

impl<T> NamedList<T> {
    /// Reads a document by its shape: a sequence becomes a list, with its
    /// entries as they stand; a mapping becomes a map.
    pub fn decode(doc: Document<T>) -> (r: NamedList<T>)
        ensures
            match doc {
                Document::Sequence(xs) => r == NamedList::ListBacked(xs),
                Document::Mapping(es) => r matches NamedList::MapBacked(m) && m@
                    == mapping_entries(es@),
            },
    {
        match doc {
            Document::Sequence(xs) => NamedList::ListBacked(xs),
            Document::Mapping(es) => {
                let mut out: StringMap<EnabledWrapper<T>> = StringMap::new();
                let ghost all = es@;
                let n = es.len();
                let mut rest = reversed(es);
                let mut i: usize = 0;
                assert(all.take(0) =~= Seq::<Entry<EnabledWrapper<T>>>::empty());
                while i < n
                    invariant
                        i <= n,
                        n == all.len(),
                        rest@.len() == n - i,
                        forall|j: int| 0 <= j < n - i ==> #[trigger] rest@[j] == all[n - 1 - j],
                        out@ == mapping_entries(all.take(i as int)),
                    decreases n - i,
                {
                    let e = rest.pop().unwrap();
                    let Entry { key, value } = e;
                    proof {
                        assert(all.take(i + 1).drop_last() =~= all.take(i as int));
                    }
                    out.insert(key, value);
                    i += 1;
                }
                proof {
                    assert(all.take(n as int) =~= all);
                }
                NamedList::MapBacked(out)
            },
        }
    }
}

impl<T: Merge> Merge for NamedList<T> {
    open spec fn is_merge(self, other: Self, r: Self) -> bool {
        match other {
            NamedList::ListBacked(_) => r == other,
            NamedList::MapBacked(o) => r matches NamedList::MapBacked(m) && is_map_merge(
                self.keyed(),
                o@,
                m@,
            ),
        }
    }

    fn merge(self, other: Self) -> (r: Self) {
        match other {
            NamedList::MapBacked(o) => {
                let s = self.into_enabled();
                NamedList::MapBacked(s.merge(o))
            },
            list => list,
        }
    }
}

/// Whether `r` is an outcome of building `item` as the entry `name`, in a
/// context that extends a copy of `params` by that name.
pub open spec fn named_builds<B, P: Clone, S: Build<B, NameParams<P>>>(
    name: Seq<char>,
    item: S,
    params: &P,
    r: Result<B, Error>,
) -> bool {
    exists|np: NameParams<P>|
        np.name@ == name && cloned(*params, np.params) && #[trigger] item.builds(&np, r)
}

/// Whether `r` is an outcome of building the canonical entries `m`: one
/// target for each entry, in some order of the entries, or the failure of an
/// entry.
pub open spec fn entries_build<B, P: Clone, S: Build<B, NameParams<P>>>(
    m: Map<Seq<char>, S>,
    params: &P,
    r: Result<Seq<B>, Error>,
) -> bool {
    match r {
        Ok(out) => exists|es: Seq<(Seq<char>, S)>|
            {
                &&& distinct_keys(es)
                &&& #[trigger] to_map(es) == m
                &&& out.len() == es.len()
                &&& forall|i: int|
                    0 <= i < es.len() ==> named_builds::<B, P, S>(
                        (#[trigger] es[i]).0,
                        es[i].1,
                        params,
                        Ok(out[i]),
                    )
            },
        Err(e) => exists|k: Seq<char>|
            m.dom().contains(k) && named_builds::<B, P, S>(k, #[trigger] m[k], params, Err(e)),
    }
}

impl<B, S, P> Build<Vec<B>, P> for NamedList<S> where P: Clone, S: Build<B, NameParams<P>> {
    open spec fn builds(self, params: &P, r: Result<Vec<B>, Error>) -> bool {
        entries_build::<B, P, S>(self.canonical(), params, crate::builder::seq_result(r))
    }

    fn build(self, params: &P) -> (r: Result<Vec<B>, Error>) {
        let ghost m = self.canonical();
        let entries = self.into_items();
        let ghost es = entries.entries();
        let items = entries.into_entries();
        let n = items.len();
        let mut rest = reversed(items);
        let mut out: Vec<B> = Vec::new();
        let mut i: usize = 0;
        while i < n
            invariant
                i <= n,
                n == es.len(),
                m == self.canonical(),
                m == to_map(es),
                distinct_keys(es),
                rest@.len() == n - i,
                forall|j: int|
                    0 <= j < n - i ==> (#[trigger] rest@[j]).key@ == es[n - 1 - j].0 && rest@[j].value
                        == es[n - 1 - j].1,
                out@.len() == i,
                forall|j: int|
                    0 <= j < i ==> named_builds::<B, P, S>(
                        (#[trigger] es[j]).0,
                        es[j].1,
                        params,
                        Ok(out@[j]),
                    ),
            decreases n - i,
        {
            let e = rest.pop().unwrap();
            let Entry { key, value } = e;
            let np = NameParams { name: key, params: params.clone() };
            proof {
                lemma_entry_in_map(es, i as int);
                assert(cloned(*params, np.params));
            }
            match value.build(&np) {
                Ok(item) => {
                    out.push(item);
                    proof {
                        assert(es[i as int].1.builds(&np, Ok(item)));
                        assert(named_builds::<B, P, S>(es[i as int].0, es[i as int].1, params, Ok(item)));
                    }
                },
                Err(e) => {
                    proof {
                        let k = es[i as int].0;
                        assert(m[k].builds(&np, Err(e)));
                        assert(named_builds::<B, P, S>(k, m[k], params, Err(e)));
                        assert(entries_build::<B, P, S>(m, params, Err::<Seq<B>, Error>(e)));
                    }
                    return Err(e);
                },
            }
            i += 1;
        }
        proof {
            assert(entries_build::<B, P, S>(m, params, Ok::<Seq<B>, Error>(out@)));
        }
        Ok(out)
    }
}

/// Merging a list into any collection gives exactly that list.
pub proof fn law_list_replaces<T: Merge>(a: NamedList<T>, b: NamedList<T>, r: NamedList<T>)
    requires
        a.is_merge(b, r),
        b is ListBacked,
    ensures
        r == b,
{
}

/// Merging a map into any collection gives a map that is the key-wise merge of
/// the two as overlays: the keys of both, with flags merged as optional values
/// and payloads merged as payloads.
pub proof fn law_map_overlays<T: Merge>(a: NamedList<T>, b: NamedList<T>, r: NamedList<T>)
    requires
        a.is_merge(b, r),
        b is MapBacked,
    ensures
        r is MapBacked,
        r.keyed().dom() == a.keyed().dom().union(b.keyed().dom()),
        forall|k: Seq<char>|
            a.keyed().dom().contains(k) && b.keyed().dom().contains(k) ==> {
                &&& (#[trigger] r.keyed()[k]).enabled == merge_options(
                    a.keyed()[k].enabled,
                    b.keyed()[k].enabled,
                )
                &&& a.keyed()[k].item.is_merge(b.keyed()[k].item, r.keyed()[k].item)
            },
        forall|k: Seq<char>|
            a.keyed().dom().contains(k) && !b.keyed().dom().contains(k) ==> #[trigger] r.keyed()[k]
                == a.keyed()[k],
        forall|k: Seq<char>|
            !a.keyed().dom().contains(k) && b.keyed().dom().contains(k) ==> #[trigger] r.keyed()[k]
                == b.keyed()[k],
{
    let rm = r.keyed();
    assert forall|k: Seq<char>|
        a.keyed().dom().contains(k) && b.keyed().dom().contains(k) implies {
        &&& (#[trigger] r.keyed()[k]).enabled == merge_options(
            a.keyed()[k].enabled,
            b.keyed()[k].enabled,
        )
        &&& a.keyed()[k].item.is_merge(b.keyed()[k].item, r.keyed()[k].item)
    } by {
        assert(rm.dom().contains(k));
    }
    assert forall|k: Seq<char>|
        a.keyed().dom().contains(k) && !b.keyed().dom().contains(
            k,
        ) implies #[trigger] r.keyed()[k] == a.keyed()[k] by {
        assert(rm.dom().contains(k));
    }
    assert forall|k: Seq<char>|
        !a.keyed().dom().contains(k) && b.keyed().dom().contains(
            k,
        ) implies #[trigger] r.keyed()[k] == b.keyed()[k] by {
        assert(rm.dom().contains(k));
    }
}

/// In the canonical content of a map, an entry that is switched off is left
/// out, and an entry whose flag is unset or on is kept with its payload.
pub proof fn law_canonical_of_map<T>(m: StringMap<EnabledWrapper<T>>, k: Seq<char>)
    requires
        m@.dom().contains(k),
    ensures
        m@[k].enabled == Some(false) ==> !NamedList::MapBacked(m).canonical().dom().contains(k),
        m@[k].enabled != Some(false) ==> NamedList::MapBacked(m).canonical().dom().contains(k)
            && NamedList::MapBacked(m).canonical()[k] == m@[k].item,
{
}

} // verus!
