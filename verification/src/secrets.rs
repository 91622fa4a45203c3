//! Replacing secret placeholders in the environment of a service.
//!
//! A value that is exactly the vault marker is replaced by the secret read
//! for this region, service and variable. A value that starts with the
//! platform-secret marker is replaced by the name of the platform secret that
//! it refers to. Every other value stays.
use vstd::prelude::*;
use crate::error::Error;
use crate::keyed::{distinct_keys, has_key, position, StringMap};
use crate::text::{
    chars_of,
    has_prefix,
    join2,
    lowercase_of,
    pieces,
    replace_char,
    replaced,
    same_chars,
    split,
    split_on,
    string_of,
    to_lowercase,
};
use crate::vault::{secret_path, Lookup, Vault};

verus! {

/// What becomes of one environment value.
pub enum Resolution {
    /// The value to put in its place.
    Value(Seq<char>),
    /// The record at this path has to be fetched first.
    NeedFetch(Seq<char>),
    /// The value cannot be resolved.
    Fail(Error),
}

/// The outcome of resolving one environment value.
pub enum Resolved {
    Value(String),
    Fetch(String),
    Fail(Error),
}

/// The outcome of resolving a whole environment.
#[derive(Debug)]
pub enum Substituted {
    /// Every value is resolved: the new environment.
    Done(StringMap<String>),
    /// The record at this path has to be fetched and stored first.
    Fetch(String),
}

/// The value that asks for a secret from the vault.
pub open spec fn vault_marker() -> Seq<char> {
    "IN_VAULT"@
}

/// The prefix of a value that refers to a platform secret.
pub open spec fn kube_marker() -> Seq<char> {
    "IN_KUBE_SECRETS"@
}

/// The name of the platform secret for the sub-key `sub`: lower case, with
/// hyphens for underscores, behind a fixed prefix.
pub open spec fn kube_secret_name(sub: Seq<char>) -> Seq<char> {
    "kube-secret-"@ + replaced(lowercase_of(sub), '_', '-')
}

/// The key under which the secret of a variable is read.
pub open spec fn vault_key(region: Seq<char>, service: Seq<char>, name: Seq<char>) -> Seq<char> {
    region + "/"@ + service + "/"@ + name
}

/// What becomes of the value `value` of the variable `name`, which stands at
/// position `at` of the environment.
pub open spec fn resolution(
    vault: Vault,
    region: Seq<char>,
    service: Seq<char>,
    name: Seq<char>,
    value: Seq<char>,
    at: int,
) -> Resolution {
    if value == vault_marker() {
        let key = vault_key(region, service, name);
        if vault.needs_fetch(key) {
            Resolution::NeedFetch(secret_path(key))
        } else if vault.lacks_value(key) {
            Resolution::Fail(Error::SecretNotFound(at as usize))
        } else {
            Resolution::Value(vault.value_of(key))
        }
    } else if kube_marker().is_prefix_of(value) {
        if value == kube_marker() {
            Resolution::Value(kube_secret_name(name))
        } else {
            let parts = split_on(value, ':');
            if parts.len() < 2 || parts[1].len() == 0 {
                Resolution::Fail(Error::InvalidKeyPath(at as usize))
            } else {
                Resolution::Value(kube_secret_name(parts[1]))
            }
        }
    } else {
        Resolution::Value(value)
    }
}

/// The model of an outcome.
pub open spec fn resolved_model(r: Resolved) -> Resolution {
    match r {
        Resolved::Value(s) => Resolution::Value(s@),
        Resolved::Fetch(p) => Resolution::NeedFetch(p@),
        Resolved::Fail(e) => Resolution::Fail(e),
    }
}

/// The name of the platform secret for a sub-key that is already in lower
/// case: hyphens for underscores, behind the fixed prefix.
pub fn kube_secret_reference(lowered: &str) -> (r: String)
    ensures
        r@ == "kube-secret-"@ + replaced(lowered@, '_', '-'),
{
    let v = chars_of(lowered);
    let w = replace_char(&v, '_', '-');
    let tail = string_of(&w);
    join2("kube-secret-", tail.as_str())
}

/// The name of the platform secret for `sub`.
pub fn kube_name(sub: &str) -> (r: String)
    ensures
        r@ == kube_secret_name(sub@),
{
    let lower = to_lowercase(sub);
    kube_secret_reference(lower.as_str())
}

/// Resolves the value `value` of the variable `name` at position `at`.
pub fn resolve_value(
    vault: &Vault,
    region: &str,
    service: &str,
    name: &str,
    value: &String,
    at: usize,
) -> (r: Resolved)
    ensures
        resolved_model(r) == resolution(*vault, region@, service@, name@, value@, at as int),
{
    let v = chars_of(value.as_str());
    let marker = chars_of("IN_VAULT");
    let prefix = chars_of("IN_KUBE_SECRETS");
    if same_chars(&v, &marker) {
        let a = join2(region, "/");
        let b = join2(a.as_str(), service);
        let c = join2(b.as_str(), "/");
        let key = join2(c.as_str(), name);
        match vault.read(key.as_str()) {
            Lookup::Value(s) => Resolved::Value(s),
            Lookup::Fetch(p) => Resolved::Fetch(p),
            Lookup::Missing(_) => Resolved::Fail(Error::SecretNotFound(at)),
        }
    } else if has_prefix(&v, &prefix) {
        if same_chars(&v, &prefix) {
            Resolved::Value(kube_name(name))
        } else {
            let parts = split(&v, ':');
            assert(pieces(parts@).len() == parts@.len());
            if parts.len() < 2 || parts[1].len() == 0 {
                assert(parts@.len() >= 2 ==> pieces(parts@)[1] == parts@[1]@);
                Resolved::Fail(Error::InvalidKeyPath(at))
            } else {
                assert(pieces(parts@)[1] == parts@[1]@);
                let sub = string_of(&parts[1]);
                Resolved::Value(kube_name(sub.as_str()))
            }
        }
    } else {
        Resolved::Value(value.clone())
    }
}

/// What becomes of the entry at position `i` of the environment `es`.
pub open spec fn resolved_at(
    es: Seq<(Seq<char>, String)>,
    vault: Vault,
    region: Seq<char>,
    service: Seq<char>,
    i: int,
) -> Resolution {
    resolution(vault, region, service, es[i].0, es[i].1@, i)
}

/// Whether the entry at position `i` is the first that does not resolve to a
/// value.
pub open spec fn first_blocked(
    es: Seq<(Seq<char>, String)>,
    vault: Vault,
    region: Seq<char>,
    service: Seq<char>,
    i: int,
) -> bool {
    &&& 0 <= i < es.len()
    &&& !(resolved_at(es, vault, region, service, i) is Value)
    &&& forall|j: int| 0 <= j < i ==> #[trigger] resolved_at(es, vault, region, service, j) is Value
}

/// Whether `out` is the environment `es` with every value resolved.
pub open spec fn all_resolved(
    es: Seq<(Seq<char>, String)>,
    vault: Vault,
    region: Seq<char>,
    service: Seq<char>,
    out: Seq<(Seq<char>, String)>,
) -> bool {
    &&& out.len() == es.len()
    &&& forall|i: int|
        0 <= i < es.len() ==> (#[trigger] out[i]).0 == es[i].0 && resolved_at(
            es,
            vault,
            region,
            service,
            i,
        ) == Resolution::Value(out[i].1@)
}

/// Whether `r` is the outcome of resolving the environment `es`: every value
/// resolved, or what the first entry that does not resolve asks for or fails
/// with.
pub open spec fn substitution(
    es: Seq<(Seq<char>, String)>,
    vault: Vault,
    region: Seq<char>,
    service: Seq<char>,
    r: Result<Substituted, Error>,
) -> bool {
    match r {
        Ok(Substituted::Done(out)) => all_resolved(es, vault, region, service, out.entries()),
        Ok(Substituted::Fetch(p)) => exists|i: int| #[trigger]
            first_blocked(es, vault, region, service, i) && resolved_at(
                es,
                vault,
                region,
                service,
                i,
            ) == Resolution::NeedFetch(p@),
        Err(e) => exists|i: int| #[trigger]
            first_blocked(es, vault, region, service, i) && resolved_at(
                es,
                vault,
                region,
                service,
                i,
            ) == Resolution::Fail(e),
    }
}

/// Resolves every value of the environment `env` of `service` in `region`.
pub fn substitute(env: &StringMap<String>, vault: &Vault, region: &str, service: &str) -> (r:
    Result<Substituted, Error>)
    ensures
        substitution(env.entries(), *vault, region@, service@, r),
{
    let ghost es = env.entries();
    proof {
        use_type_invariant(env);
        env.lemma_wf();
    }
    let n = env.len();
    let mut out: StringMap<String> = StringMap::new();
    let mut i: usize = 0;
    while i < n
        invariant
            i <= n,
            n == es.len(),
            es == env.entries(),
            distinct_keys(es),
            out.entries().len() == i,
            forall|j: int|
                0 <= j < i ==> (#[trigger] out.entries()[j]).0 == es[j].0 && resolved_at(
                    es,
                    *vault,
                    region@,
                    service@,
                    j,
                ) == Resolution::Value(out.entries()[j].1@),
        decreases n - i,
    {
        let name = env.key_at(i);
        let value = env.value_at(i);
        let ghost before = out.entries();
        match resolve_value(vault, region, service, name.as_str(), value, i) {
            Resolved::Value(s) => {
                proof {
                    if has_key(before, name@) {
                        let p = position(before, name@);
                        assert(before[p].0 == es[p].0);
                        assert(es[p].0 != es[i as int].0);
                    }
                }
                out.insert(name.clone(), s);
                assert(out.entries() == before.push((name@, s)));
            },
            Resolved::Fetch(p) => {
                proof {
                    assert forall|j: int| 0 <= j < i implies #[trigger] resolved_at(
                        es,
                        *vault,
                        region@,
                        service@,
                        j,
                    ) is Value by {
                        assert(out.entries()[j].0 == es[j].0);
                    }
                    assert(first_blocked(es, *vault, region@, service@, i as int));
                }
                return Ok(Substituted::Fetch(p));
            },
            Resolved::Fail(e) => {
                proof {
                    assert forall|j: int| 0 <= j < i implies #[trigger] resolved_at(
                        es,
                        *vault,
                        region@,
                        service@,
                        j,
                    ) is Value by {
                        assert(out.entries()[j].0 == es[j].0);
                    }
                    assert(first_blocked(es, *vault, region@, service@, i as int));
                }
                return Err(e);
            },
        }
        i += 1;
    }
    Ok(Substituted::Done(out))
}

/// With mocked secrets no value asks for a fetch, and a value that is the
/// vault marker resolves to the mock value.
pub proof fn law_mock_resolution(
    vault: Vault,
    region: Seq<char>,
    service: Seq<char>,
    name: Seq<char>,
    value: Seq<char>,
    at: int,
)
    requires
        vault.mocked(),
    ensures
        !(resolution(vault, region, service, name, value, at) is NeedFetch),
        value == vault_marker() ==> resolution(vault, region, service, name, value, at)
            == Resolution::Value(crate::vault::mock_value()),
{
}

} // verus!
