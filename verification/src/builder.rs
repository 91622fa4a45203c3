//! Building validated targets from partial sources.
//!
//! A source builds its target from itself and a context; containers of
//! sources build containers of targets, and the first failure is the failure
//! of the whole.
use vstd::prelude::*;
use crate::error::Error;
use crate::keyed::{distinct_keys, has_key, lemma_entry_in_map, reversed, to_map, Entry, StringMap};

verus! {

/// A source that builds a `T` in the context `P`.
pub trait Build<T, P>: Sized {
    /// Whether `r` is an outcome of building `self` with `params`.
    spec fn builds(self, params: &P, r: Result<T, Error>) -> bool;

    /// Builds the target, or says why it cannot be built.
    fn build(self, params: &P) -> (r: Result<T, Error>)
        ensures
            self.builds(params, r),
    ;
}

/// Whether `r` is an outcome of building an optional source.
pub open spec fn option_builds<T, P, S: Build<T, P>>(
    s: Option<S>,
    params: &P,
    r: Result<Option<T>, Error>,
) -> bool {
    match s {
        None => r == Ok::<Option<T>, Error>(None),
        Some(inner) => match r {
            Ok(Some(t)) => inner.builds(params, Ok(t)),
            Ok(None) => false,
            Err(e) => inner.builds(params, Err(e)),
        },
    }
}

impl<T, P, S: Build<T, P>> Build<Option<T>, P> for Option<S> {
    open spec fn builds(self, params: &P, r: Result<Option<T>, Error>) -> bool {
        option_builds(self, params, r)
    }

    fn build(self, params: &P) -> (r: Result<Option<T>, Error>) {
        match self {
            None => Ok(None),
            Some(s) => match s.build(params) {
                Ok(t) => Ok(Some(t)),
                Err(e) => Err(e),
            },
        }
    }
}

/// Whether the element `s` can build some target with `params`.
pub open spec fn can_build<T, P, S: Build<T, P>>(s: S, params: &P) -> bool {
    exists|t: T| s.builds(params, Ok(t))
}

/// Whether `r` is an outcome of building the sources `xs` in order: every
/// target in the order of its source, or the failure of the first source that
/// fails.
pub open spec fn seq_builds<T, P, S: Build<T, P>>(
    xs: Seq<S>,
    params: &P,
    r: Result<Seq<T>, Error>,
) -> bool {
    match r {
        Ok(out) => {
            &&& out.len() == xs.len()
            &&& forall|i: int| 0 <= i < xs.len() ==> (#[trigger] xs[i]).builds(params, Ok(out[i]))
        },
        Err(e) => exists|k: int|
            {
                &&& 0 <= k < xs.len()
                &&& (#[trigger] xs[k]).builds(params, Err(e))
                &&& forall|j: int| 0 <= j < k ==> can_build::<T, P, S>(#[trigger] xs[j], params)
            },
    }
}

/// The model of a built sequence.
pub open spec fn seq_result<T>(r: Result<Vec<T>, Error>) -> Result<Seq<T>, Error> {
    match r {
        Ok(v) => Ok(v@),
        Err(e) => Err(e),
    }
}

impl<T, P, S: Build<T, P>> Build<Vec<T>, P> for Vec<S> {
    open spec fn builds(self, params: &P, r: Result<Vec<T>, Error>) -> bool {
        seq_builds(self@, params, seq_result(r))
    }

    fn build(self, params: &P) -> (r: Result<Vec<T>, Error>) {
        let ghost xs = self@;
        let n = self.len();
        let mut rest = reversed(self);
        let mut out: Vec<T> = Vec::new();
        let mut i: usize = 0;
        while i < n
            invariant
                i <= n,
                xs == self@,
                n == xs.len(),
                rest@.len() == n - i,
                forall|j: int| 0 <= j < n - i ==> #[trigger] rest@[j] == xs[n - 1 - j],
                out@.len() == i,
                forall|j: int| 0 <= j < i ==> (#[trigger] xs[j]).builds(params, Ok(out@[j])),
            decreases n - i,
        {
            let s = rest.pop().unwrap();
            assert(s == xs[i as int]);
            match s.build(params) {
                Ok(t) => {
                    out.push(t);
                },
                Err(e) => {
                    proof {
                        assert forall|j: int| 0 <= j < i implies can_build::<T, P, S>(
                            #[trigger] xs[j],
                            params,
                        ) by {
                            assert(xs[j].builds(params, Ok(out@[j])));
                        }
                        assert(xs[i as int].builds(params, Err(e)));
                        let k = i as int;
                        assert(0 <= k < xs.len() && xs[k].builds(params, Err(e)) && forall|j: int|
                            0 <= j < k ==> can_build::<T, P, S>(#[trigger] xs[j], params));
                        assert(seq_builds(xs, params, Err::<Seq<T>, Error>(e)));
                    }
                    return Err(e);
                },
            }
            i += 1;
        }
        Ok(out)
    }
}

/// Whether `r` is an outcome of building the entries of a keyed collection
/// whose payloads may be absent: the entries with a payload, each under its
/// key, or the failure of one of them.
pub open spec fn map_builds<T, P, S: Build<T, P>>(
    m: Map<Seq<char>, Option<S>>,
    params: &P,
    r: Result<Map<Seq<char>, T>, Error>,
) -> bool {
    match r {
        Ok(out) => {
            &&& forall|k: Seq<char>|
                out.dom().contains(k) <==> (m.dom().contains(k) && #[trigger] m[k] is Some)
            &&& forall|k: Seq<char>| #[trigger]
                out.dom().contains(k) ==> m[k]->0.builds(params, Ok(out[k]))
        },
        Err(e) => exists|k: Seq<char>|
            m.dom().contains(k) && (#[trigger] m[k]) is Some && m[k]->0.builds(params, Err(e)),
    }
}

/// The model of a built keyed collection.
pub open spec fn map_result<T>(r: Result<StringMap<T>, Error>) -> Result<Map<Seq<char>, T>, Error> {
    match r {
        Ok(m) => Ok(m@),
        Err(e) => Err(e),
    }
}

impl<T, P, S: Build<T, P>> Build<StringMap<T>, P> for StringMap<Option<S>> {
    open spec fn builds(self, params: &P, r: Result<StringMap<T>, Error>) -> bool {
        map_builds(self@, params, map_result(r))
    }

    fn build(self, params: &P) -> (r: Result<StringMap<T>, Error>) {
        let ghost m = self@;
        let ghost es = self.entries();
        let items = self.into_entries();
        let n = items.len();
        let mut rest = reversed(items);
        let mut out: StringMap<T> = StringMap::new();
        let mut i: usize = 0;
        assert(es.take(0) =~= Seq::<(Seq<char>, Option<S>)>::empty());
        while i < n
            invariant
                i <= n,
                n == es.len(),
                m == self@,
                m == to_map(es),
                distinct_keys(es),
                rest@.len() == n - i,
                forall|j: int|
                    0 <= j < n - i ==> (#[trigger] rest@[j]).key@ == es[n - 1 - j].0 && rest@[j].value
                        == es[n - 1 - j].1,
                forall|k: Seq<char>|
                    out@.dom().contains(k) <==> (has_key(es.take(i as int), k) && #[trigger] m[k] is Some),
                forall|k: Seq<char>| #[trigger]
                    out@.dom().contains(k) ==> m[k]->0.builds(params, Ok(out@[k])),
            decreases n - i,
        {
            let e = rest.pop().unwrap();
            let Entry { key, value } = e;
            proof {
                lemma_entry_in_map(es, i as int);
                crate::keyed::lemma_take_next(es, i as int);
            }
            match value {
                None => {},
                Some(s) => match s.build(params) {
                    Ok(t) => {
                        out.insert(key, t);
                    },
                    Err(e) => {
                        proof {
                            let k = key@;
                            assert(m.dom().contains(k) && m[k] is Some && m[k]->0.builds(
                                params,
                                Err(e),
                            ));
                            assert(map_builds(m, params, Err::<Map<Seq<char>, T>, Error>(e)));
                        }
                        return Err(e);
                    },
                },
            }
            i += 1;
        }
        proof {
            assert(es.take(n as int) =~= es);
        }
        Ok(out)
    }
}

/// A sequence build that succeeds returns one target for each source, so a
/// shorter sequence is never returned; and if some element cannot build, the
/// whole build fails with the failure of an element.
pub proof fn law_sequence_build<T, P, S: Build<T, P>>(
    xs: Vec<S>,
    params: &P,
    r: Result<Vec<T>, Error>,
    k: int,
)
    requires
        xs.builds(params, r),
        0 <= k < xs@.len(),
    ensures
        r matches Ok(out) ==> out@.len() == xs@.len() && xs@[k].builds(params, Ok(out@[k])),
        !can_build::<T, P, S>(xs@[k], params) ==> r is Err,
        r matches Err(e) ==> exists|j: int|
            0 <= j < xs@.len() && (#[trigger] xs@[j]).builds(params, Err(e)),
{
    if let Ok(out) = r {
        assert(xs@[k].builds(params, Ok(out@[k])));
    }
}

} // verus!
