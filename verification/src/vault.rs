//! A read-through cache of secrets.
//!
//! The cache decides; it does not fetch. A read either yields a value, or
//! names the path that has to be fetched and stored before the read can be
//! answered. A path that was stored is never asked for again.
use vstd::prelude::*;
use crate::keyed::StringMap;
use crate::text::join2;

verus! {

/// One record of the secret store.
#[derive(Clone, Debug)]
pub struct Secret {
    /// The fields of the record.
    pub data: StringMap<String>,
    /// For how long the record stays valid, in seconds.
    pub lease_duration: u64,
}

/// The records fetched so far, by path.
#[derive(Debug)]
pub struct Vault {
    secrets: StringMap<Secret>,
    mock: bool,
}

/// The answer to a read.
#[derive(Clone, Debug)]
pub enum Lookup {
    /// The value of the secret.
    Value(String),
    /// The record at this path has to be fetched and stored first.
    Fetch(String),
    /// The record at this path is there, and lacks the field `value`.
    Missing(String),
}

/// The path in the store under which the key `key` is kept.
pub open spec fn secret_path(key: Seq<char>) -> Seq<char> {
    "secret/"@ + key
}

/// What every read yields once secrets are mocked.
pub open spec fn mock_value() -> Seq<char> {
    "VAULT_VALIDATED"@
}

/// The field of a record that holds the secret.
pub open spec fn value_field() -> Seq<char> {
    "value"@
}

impl Vault {
    /// The records in the cache, by path.
    pub closed spec fn cache(self) -> Map<Seq<char>, Secret> {
        self.secrets@
    }

    /// Whether reads are answered with the mock value.
    pub closed spec fn mocked(self) -> bool {
        self.mock
    }

    /// Whether a read of `key` asks for a fetch.
    pub open spec fn needs_fetch(self, key: Seq<char>) -> bool {
        !self.mocked() && !self.cache().dom().contains(secret_path(key))
    }

    /// Whether a read of `key` finds a record without the field `value`.
    pub open spec fn lacks_value(self, key: Seq<char>) -> bool {
        &&& !self.mocked()
        &&& self.cache().dom().contains(secret_path(key))
        &&& !self.cache()[secret_path(key)].data@.dom().contains(value_field())
    }

    /// The value that a read of `key` yields, where it yields one.
    pub open spec fn value_of(self, key: Seq<char>) -> Seq<char> {
        if self.mocked() {
            mock_value()
        } else {
            self.cache()[secret_path(key)].data@[value_field()]@
        }
    }

    /// An empty cache that is not mocked.
    pub fn new() -> (v: Vault)
        ensures
            v.cache() == Map::<Seq<char>, Secret>::empty(),
            !v.mocked(),
    {
        Vault { secrets: StringMap::new(), mock: false }
    }

    /// From now on every read yields the mock value, and none asks for a fetch.
    pub fn mock_secrets(&mut self)
        ensures
            final(self).mocked(),
            final(self).cache() == old(self).cache(),
    {
        self.mock = true;
    }

    /// Keeps the record fetched from `path`.
    pub fn store(&mut self, path: String, secret: Secret)
        ensures
            final(self).cache() == old(self).cache().insert(path@, secret),
            final(self).mocked() == old(self).mocked(),
    {
        self.secrets.insert(path, secret);
    }

    /// Whether the record at `path` is in the cache.
    pub fn is_cached(&self, path: &str) -> (r: bool)
        ensures
            r == self.cache().dom().contains(path@),
    {
        self.secrets.contains_key(path)
    }

    /// Reads the secret `key`: its value, or the path to fetch first, or the
    /// path of a record that lacks the value.
    pub fn read(&self, key: &str) -> (r: Lookup)
        ensures
            match r {
                Lookup::Fetch(p) => self.needs_fetch(key@) && p@ == secret_path(key@),
                Lookup::Missing(p) => self.lacks_value(key@) && p@ == secret_path(key@),
                Lookup::Value(v) => !self.needs_fetch(key@) && !self.lacks_value(key@) && v@
                    == self.value_of(key@),
            },
    {
        if self.mock {
            return Lookup::Value("VAULT_VALIDATED".to_owned());
        }
        let pth = join2("secret/", key);
        match self.secrets.get(pth.as_str()) {
            None => Lookup::Fetch(pth),
            Some(secret) => match secret.data.get("value") {
                None => Lookup::Missing(pth),
                Some(v) => Lookup::Value(v.clone()),
            },
        }
    }
}

/// Once the record of a key's path is stored, no read of that key asks for a
/// fetch, whatever is stored afterwards.
pub proof fn law_fetch_once(before: Vault, after: Vault, key: Seq<char>)
    requires
        before.cache().dom().contains(secret_path(key)),
        before.cache().dom().subset_of(after.cache().dom()),
    ensures
        !before.needs_fetch(key),
        !after.needs_fetch(key),
{
}

/// With mocked secrets a read of any key asks for no fetch, finds nothing
/// missing, and yields the mock value.
pub proof fn law_mock_reads(v: Vault, key: Seq<char>)
    requires
        v.mocked(),
    ensures
        !v.needs_fetch(key),
        !v.lacks_value(key),
        v.value_of(key) == mock_value(),
{
}

} // verus!
