//! The environment variables of a container, in their source form.
use vstd::prelude::*;
use crate::builder::{map_builds, Build};
use crate::error::Error;
use crate::keyed::{reversed, Entry, StringMap};
use crate::merge::{is_map_merge, Merge};

verus! {

/// A scalar of a document, taken as text whatever it was written as.
#[derive(Clone, Debug, Default, PartialEq, Eq)]
pub struct RelaxedString(pub String);

impl RelaxedString {
    /// The text of the scalar.
    pub fn to_string(&self) -> (r: String)
        ensures
            r@ == self.0@,
    {
        self.0.clone()
    }
}

impl Merge for RelaxedString {
    open spec fn is_merge(self, other: Self, r: Self) -> bool {
        r == other
    }

    fn merge(self, other: Self) -> (r: Self) {
        other
    }
}

impl Build<String, ()> for RelaxedString {
    open spec fn builds(self, params: &(), r: Result<String, Error>) -> bool {
        r matches Ok(s) && s@ == self.0@
    }

    fn build(self, params: &()) -> (r: Result<String, Error>) {
        Ok(self.to_string())
    }
}

impl Build<String, ()> for String {
    open spec fn builds(self, params: &(), r: Result<String, Error>) -> bool {
        r == Ok::<String, Error>(self)
    }

    fn build(self, params: &()) -> (r: Result<String, Error>) {
        Ok(self)
    }
}

/// The environment variables of a container.
#[derive(Clone, Debug, Default)]
pub struct EnvVars {
    pub plain: StringMap<String>,
}

impl EnvVars {
    /// The variables `plain`.
    pub fn new(plain: StringMap<String>) -> (r: EnvVars)
        ensures
            r.plain == plain,
    {
        EnvVars { plain }
    }
}

/// Environment variables as a source states them: a variable without a
/// value is switched off.
#[derive(Clone, Debug, Default)]
pub struct EnvVarsSource(pub StringMap<Option<RelaxedString>>);

impl Build<EnvVars, ()> for EnvVarsSource {
    open spec fn builds(self, params: &(), r: Result<EnvVars, Error>) -> bool {
        match r {
            Ok(env) => map_builds(self.0@, params, Ok(env.plain@)),
            Err(e) => map_builds::<String, (), RelaxedString>(self.0@, params, Err(e)),
        }
    }

    fn build(self, params: &()) -> (r: Result<EnvVars, Error>) {
        let EnvVarsSource(plain) = self;
        match plain.build(&()) {
            Ok(vars) => Ok(EnvVars::new(vars)),
            Err(e) => Err(e),
        }
    }
}

impl Merge for EnvVarsSource {
    open spec fn is_merge(self, other: Self, r: Self) -> bool {
        is_map_merge(self.0@, other.0@, r.0@)
    }

    fn merge(self, other: Self) -> (r: Self) {
        let EnvVarsSource(s) = self;
        let EnvVarsSource(o) = other;
        EnvVarsSource(s.merge(o))
    }
}

/// Whether `out` states every variable of `vs`, each with its value, and no
/// other.
pub open spec fn states_all(vs: Seq<(Seq<char>, String)>, out: Map<Seq<char>, Option<RelaxedString>>) -> bool {
    &&& forall|k: Seq<char>| out.dom().contains(k) <==> crate::keyed::has_key(vs, k)
    &&& forall|i: int|
        0 <= i < vs.len() ==> (out[(#[trigger] vs[i]).0] matches Some(v) && v.0@ == vs[i].1@)
}

impl EnvVarsSource {
    /// The source that states the variables `vs`, each with its value.
    pub fn from(vs: StringMap<String>) -> (r: EnvVarsSource)
        ensures
            states_all(vs.entries(), r.0@),
    {
        let ghost all = vs.entries();
        let items = vs.into_entries();
        let n = items.len();
        let mut rest = reversed(items);
        let mut env: StringMap<Option<RelaxedString>> = StringMap::new();
        let mut i: usize = 0;
        assert(all.take(0) =~= Seq::<(Seq<char>, String)>::empty());
        while i < n
            invariant
                i <= n,
                n == all.len(),
                crate::keyed::distinct_keys(all),
                rest@.len() == n - i,
                forall|j: int|
                    0 <= j < n - i ==> (#[trigger] rest@[j]).key@ == all[n - 1 - j].0
                        && rest@[j].value == all[n - 1 - j].1,
                forall|k: Seq<char>|
                    env@.dom().contains(k) <==> crate::keyed::has_key(all.take(i as int), k),
                forall|j: int|
                    0 <= j < i ==> (env@[(#[trigger] all[j]).0] matches Some(v) && v.0@ == all[j].1@),
            decreases n - i,
        {
            let e = rest.pop().unwrap();
            let Entry { key, value } = e;
            proof {
                crate::keyed::lemma_take_next(all, i as int);
                assert forall|j: int| 0 <= j < i implies (#[trigger] all[j]).0 != key@ by {
                    assert(all[j].0 != all[i as int].0);
                }
            }
            env.insert(key, Some(RelaxedString(value)));
            i += 1;
        }
        assert(all.take(n as int) =~= all);
        EnvVarsSource(env)
    }
}

} // verus!
