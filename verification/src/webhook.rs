//! The webhooks of a region: their secrets, and what an audit hook reports.
use vstd::prelude::*;
use crate::error::Error;
use crate::ids::{fresh_id, is_hyphenated_id};
use crate::keyed::StringMap;
use crate::region::{AuditWebhook, Region, Webhook};
use crate::resolver::Progress;
use crate::secrets::{resolved_model, vault_marker, Resolution, Resolved};
use crate::text::{join2, same_text};
use crate::vault::{secret_path, Lookup, Vault};

verus! {

/// What the process environment says of the run that is audited. Each field
/// is one variable, unset or set.
#[derive(Clone, Debug, Default)]
pub struct AuditEnv {
    /// `SHIPCAT_AUDIT_CONTEXT_ID`
    pub context_id: Option<String>,
    /// `SHIPCAT_AUDIT_CONTEXT_LINK`
    pub context_link: Option<String>,
    /// `SHIPCAT_AUDIT_REVISION`
    pub revision: Option<String>,
    /// `BUILD_URL`
    pub build_url: Option<String>,
    /// `GIT_COMMIT`
    pub git_commit: Option<String>,
    /// `BUILD_NUMBER`
    pub build_number: Option<String>,
}

/// The key under which the identifier of the run is reported.
pub open spec fn context_id_key() -> Seq<char> {
    "SHIPCAT_AUDIT_CONTEXT_ID"@
}

/// The key under which the revision is reported.
pub open spec fn revision_key() -> Seq<char> {
    "SHIPCAT_AUDIT_REVISION"@
}

/// The key under which the link to the run is reported.
pub open spec fn context_link_key() -> Seq<char> {
    "SHIPCAT_AUDIT_CONTEXT_LINK"@
}

/// The text of an optional string.
pub open spec fn text_of(s: Option<String>) -> Option<Seq<char>> {
    match s {
        Some(t) => Some(t@),
        None => None,
    }
}

impl AuditEnv {
    /// Whether the run is a build job: URL, commit and number are all set.
    pub open spec fn on_build_server(self) -> bool {
        self.build_url is Some && self.git_commit is Some && self.build_number is Some
    }

    /// The revision to report: the one set for the audit, else the commit of
    /// the build job.
    pub open spec fn audit_revision(self) -> Option<Seq<char>> {
        if self.revision is Some {
            text_of(self.revision)
        } else if self.on_build_server() {
            text_of(self.git_commit)
        } else {
            None
        }
    }

    /// The link to report: the one set for the audit, else the URL of the
    /// build job.
    pub open spec fn audit_link(self) -> Option<Seq<char>> {
        if self.context_link is Some {
            text_of(self.context_link)
        } else if self.on_build_server() {
            text_of(self.build_url)
        } else {
            None
        }
    }
}

/// Whether `r` is what an audit hook reports for the run `env`, with the
/// identifier `id`: a failure if no revision is known; else the identifier,
/// the revision, and the link if one is known.
pub open spec fn audit_report(
    env: AuditEnv,
    id: Seq<char>,
    r: Result<StringMap<String>, Error>,
) -> bool {
    match env.audit_revision() {
        None => r matches Err(e) && e == Error::MissingAuditRevision,
        Some(rev) => r matches Ok(m) && {
            &&& m@.dom().contains(context_id_key()) && m@[context_id_key()]@ == id
            &&& m@.dom().contains(revision_key()) && m@[revision_key()]@ == rev
            &&& match env.audit_link() {
                Some(link) => m@.dom().contains(context_link_key()) && m@[context_link_key()]@
                    == link,
                None => !m@.dom().contains(context_link_key()),
            }
            &&& forall|k: Seq<char>| #[trigger]
                m@.dom().contains(k) ==> k == context_id_key() || k == revision_key() || k
                    == context_link_key()
        },
    }
}

/// What an audit hook reports for the run `env`, where `fallback_id`
/// identifies the run if the environment does not.
pub fn audit_configuration(env: &AuditEnv, fallback_id: String) -> (r: Result<
    StringMap<String>,
    Error,
>)
    ensures
        audit_report(
            *env,
            match env.context_id {
                Some(id) => id@,
                None => fallback_id@,
            },
            r,
        ),
{
    proof {
        reveal_strlit("SHIPCAT_AUDIT_CONTEXT_ID");
        reveal_strlit("SHIPCAT_AUDIT_REVISION");
        reveal_strlit("SHIPCAT_AUDIT_CONTEXT_LINK");
        assert(context_id_key().len() == 24);
        assert(revision_key().len() == 22);
        assert(context_link_key().len() == 26);
    }
    let on_build_server = env.build_url.is_some() && env.git_commit.is_some()
        && env.build_number.is_some();
    let revision: Option<String> = match &env.revision {
        Some(r) => Some(r.clone()),
        None => if on_build_server {
            match &env.git_commit {
                Some(c) => Some(c.clone()),
                None => None,
            }
        } else {
            None
        },
    };
    let link: Option<String> = match &env.context_link {
        Some(l) => Some(l.clone()),
        None => if on_build_server {
            match &env.build_url {
                Some(u) => Some(u.clone()),
                None => None,
            }
        } else {
            None
        },
    };
    let revision = match revision {
        None => {
            return Err(Error::MissingAuditRevision);
        },
        Some(r) => r,
    };
    let id = match &env.context_id {
        Some(i) => i.clone(),
        None => fallback_id,
    };
    let mut whc: StringMap<String> = StringMap::new();
    whc.insert("SHIPCAT_AUDIT_CONTEXT_ID".to_owned(), id);
    whc.insert("SHIPCAT_AUDIT_REVISION".to_owned(), revision);
    match link {
        Some(l) => {
            whc.insert("SHIPCAT_AUDIT_CONTEXT_LINK".to_owned(), l);
        },
        None => {},
    }
    Ok(whc)
}

/// The key under which the token of the audit hook of `region` is kept.
pub open spec fn audit_token_key(region: Seq<char>) -> Seq<char> {
    region + "/shipcat/WEBHOOK_AUDIT_TOKEN"@
}

/// What reading the token of the audit hook of `region` gives.
pub open spec fn token_read(vault: Vault, region: Seq<char>) -> Resolution {
    let key = audit_token_key(region);
    if vault.needs_fetch(key) {
        Resolution::NeedFetch(secret_path(key))
    } else if vault.lacks_value(key) {
        Resolution::Fail(Error::WebhookSecretNotFound)
    } else {
        Resolution::Value(vault.value_of(key))
    }
}

/// Whether `r` reports the reading `res`: done for a value, else what the
/// reading asks for or fails with.
pub open spec fn reports(res: Resolution, r: Result<Progress, Error>) -> bool {
    match res {
        Resolution::Value(_) => r matches Ok(Progress::Done),
        Resolution::NeedFetch(p) => r matches Ok(Progress::Fetch(q)) && q@ == p,
        Resolution::Fail(e) => r == Err::<Progress, Error>(e),
    }
}

/// Reads the token of the audit hook of `region`.
fn read_token(vault: &Vault, region: &str) -> (r: Resolved)
    ensures
        resolved_model(r) == token_read(*vault, region@),
{
    let vkey = join2(region, "/shipcat/WEBHOOK_AUDIT_TOKEN");
    match vault.read(vkey.as_str()) {
        Lookup::Value(s) => Resolved::Value(s),
        Lookup::Fetch(p) => Resolved::Fetch(p),
        Lookup::Missing(_) => Resolved::Fail(Error::WebhookSecretNotFound),
    }
}

impl Webhook {
    /// The token of the hook.
    pub open spec fn token(self) -> Seq<char> {
        match self {
            Webhook::Audit(h) => h.token@,
        }
    }

    /// The endpoint of the hook.
    pub open spec fn endpoint(self) -> String {
        match self {
            Webhook::Audit(h) => h.url,
        }
    }

    /// What becomes of the token of the hook: a token that is the vault
    /// marker is read from the vault; any other stays.
    pub open spec fn token_resolution(self, vault: Vault, region: Seq<char>) -> Resolution {
        if self.token() == vault_marker() {
            token_read(vault, region)
        } else {
            Resolution::Value(self.token())
        }
    }

    /// What becomes of the token of the hook.
    pub fn resolve_token(&self, vault: &Vault, region: &str) -> (r: Resolved)
        ensures
            resolved_model(r) == self.token_resolution(*vault, region@),
    {
        match self {
            Webhook::Audit(h) => {
                if same_text(h.token.as_str(), "IN_VAULT") {
                    read_token(vault, region)
                } else {
                    Resolved::Value(h.token.clone())
                }
            },
        }
    }

    /// Replaces a token that is the vault marker by the secret from the vault.
    pub fn secrets(&mut self, vault: &Vault, region: &str) -> (r: Result<Progress, Error>)
        ensures
            reports(old(self).token_resolution(*vault, region@), r),
            final(self).endpoint() == old(self).endpoint(),
            match old(self).token_resolution(*vault, region@) {
                Resolution::Value(t) => final(self).token() == t,
                _ => *final(self) == *old(self),
            },
    {
        let marked = match &*self {
            Webhook::Audit(h) => same_text(h.token.as_str(), "IN_VAULT"),
        };
        if !marked {
            return Ok(Progress::Done);
        }
        match read_token(vault, region) {
            Resolved::Fail(e) => Err(e),
            Resolved::Fetch(p) => Ok(Progress::Fetch(p)),
            Resolved::Value(s) => {
                match self {
                    Webhook::Audit(h) => {
                        h.token = s;
                    },
                }
                Ok(Progress::Done)
            },
        }
    }

    /// Checks that the secret of the hook can be read.
    pub fn verify_secrets_exist(&self, vault: &Vault, region: &str) -> (r: Result<
        Progress,
        Error,
    >)
        ensures
            reports(token_read(*vault, region@), r),
    {
        match read_token(vault, region) {
            Resolved::Fail(e) => Err(e),
            Resolved::Fetch(p) => Ok(Progress::Fetch(p)),
            Resolved::Value(_) => Ok(Progress::Done),
        }
    }

    /// What the hook reports for the run `env`. A run that the environment
    /// does not identify gets a fresh random identifier in hyphenated form.
    pub fn get_configuration(&self, env: &AuditEnv) -> (r: Result<StringMap<String>, Error>)
        ensures
            match env.context_id {
                Some(id) => audit_report(*env, id@, r),
                None => exists|id: Seq<char>|
                    is_hyphenated_id(id) && #[trigger] audit_report(*env, id, r),
            },
    {
        match self {
            Webhook::Audit(_) => {
                let fallback = match &env.context_id {
                    Some(_) => String::new(),
                    None => fresh_id(),
                };
                let r = audit_configuration(env, fallback);
                proof {
                    if env.context_id is None {
                        assert(is_hyphenated_id(fallback@) && audit_report(*env, fallback@, r));
                    }
                }
                r
            },
        }
    }
}

/// Whether the hook at position `i` is the first whose token does not
/// resolve to a value.
pub open spec fn first_unresolved(
    hooks: Seq<Webhook>,
    vault: Vault,
    region: Seq<char>,
    i: int,
) -> bool {
    &&& 0 <= i < hooks.len()
    &&& !(hooks[i].token_resolution(vault, region) is Value)
    &&& forall|j: int| 0 <= j < i ==> (#[trigger] hooks[j]).token_resolution(vault, region) is Value
}

/// Whether `r` and `new` are what resolving the tokens of `hooks` gives:
/// every token resolved, or what the first that does not resolve asks for or
/// fails with.
pub open spec fn hooks_resolved(
    hooks: Seq<Webhook>,
    vault: Vault,
    region: Seq<char>,
    r: Result<Progress, Error>,
    new: Seq<Webhook>,
) -> bool {
    match r {
        Ok(Progress::Done) => new.len() == hooks.len() && forall|i: int|
            0 <= i < hooks.len() ==> (#[trigger] new[i]).endpoint() == hooks[i].endpoint()
                && hooks[i].token_resolution(vault, region) == Resolution::Value(new[i].token()),
        _ => exists|i: int| #[trigger]
            first_unresolved(hooks, vault, region, i) && reports(
                hooks[i].token_resolution(vault, region),
                r,
            ),
    }
}

impl Region {
    /// Replaces the tokens of the region's webhooks that are the vault marker
    /// by the secrets from the vault. Either every token is resolved, or
    /// nothing changes.
    pub fn secrets(&mut self, vault: &Vault) -> (r: Result<Progress, Error>)
        ensures
            hooks_resolved(old(self).webhooks@, *vault, old(self).name@, r, final(self).webhooks@),
            !(r matches Ok(Progress::Done)) ==> *final(self) == *old(self),
            final(self).name == old(self).name,
            final(self).namespace == old(self).namespace,
            final(self).environment == old(self).environment,
            final(self).reconciliationMode == old(self).reconciliationMode,
            final(self).cluster == old(self).cluster,
            final(self).versioningScheme == old(self).versioningScheme,
            final(self).base_urls == old(self).base_urls,
            final(self).env == old(self).env,
            final(self).kong == old(self).kong,
            final(self).statuscake == old(self).statuscake,
            final(self).ip_whitelist == old(self).ip_whitelist,
            final(self).kafka == old(self).kafka,
            final(self).vault == old(self).vault,
            final(self).logzio == old(self).logzio,
            final(self).grafana == old(self).grafana,
            final(self).sentry == old(self).sentry,
            final(self).locations == old(self).locations,
            final(self).customResources == old(self).customResources,
            final(self).defaults == old(self).defaults,
            final(self).destinationRuleHostRegex == old(self).destinationRuleHostRegex,
    {
        let ghost all = self.webhooks@;
        let mut i: usize = 0;
        while i < self.webhooks.len()
            invariant
                i <= self.webhooks@.len(),
                *self == *old(self),
                all == self.webhooks@,
                forall|j: int|
                    0 <= j < i ==> (#[trigger] all[j]).token_resolution(*vault, self.name@) is Value,
            decreases self.webhooks@.len() - i,
        {
            match self.webhooks[i].resolve_token(vault, self.name.as_str()) {
                Resolved::Value(_) => {},
                Resolved::Fetch(p) => {
                    assert(first_unresolved(all, *vault, self.name@, i as int));
                    return Ok(Progress::Fetch(p));
                },
                Resolved::Fail(e) => {
                    assert(first_unresolved(all, *vault, self.name@, i as int));
                    return Err(e);
                },
            }
            i += 1;
        }
        let mut k: usize = 0;
        while k < self.webhooks.len()
            invariant
                k <= self.webhooks@.len(),
                self.webhooks@.len() == all.len(),
                all == old(self).webhooks@,
                self.name == old(self).name,
                self.namespace == old(self).namespace,
                self.environment == old(self).environment,
                self.reconciliationMode == old(self).reconciliationMode,
                self.cluster == old(self).cluster,
                self.versioningScheme == old(self).versioningScheme,
                self.base_urls == old(self).base_urls,
                self.env == old(self).env,
                self.kong == old(self).kong,
                self.statuscake == old(self).statuscake,
                self.ip_whitelist == old(self).ip_whitelist,
                self.kafka == old(self).kafka,
                self.vault == old(self).vault,
                self.logzio == old(self).logzio,
                self.grafana == old(self).grafana,
                self.sentry == old(self).sentry,
                self.locations == old(self).locations,
                self.customResources == old(self).customResources,
                self.defaults == old(self).defaults,
                self.destinationRuleHostRegex == old(self).destinationRuleHostRegex,
                forall|j: int|
                    0 <= j < all.len() ==> (#[trigger] all[j]).token_resolution(
                        *vault,
                        self.name@,
                    ) is Value,
                forall|j: int| k <= j < all.len() ==> #[trigger] self.webhooks@[j] == all[j],
                forall|j: int|
                    0 <= j < k ==> (#[trigger] self.webhooks@[j]).endpoint() == all[j].endpoint()
                        && all[j].token_resolution(*vault, self.name@) == Resolution::Value(
                        self.webhooks@[j].token(),
                    ),
            decreases self.webhooks@.len() - k,
        {
            assert(all[k as int].token_resolution(*vault, self.name@) is Value);
            let _ = self.webhooks[k].secrets(vault, self.name.as_str());
            k += 1;
        }
        Ok(Progress::Done)
    }

    /// Checks that the secrets of the region's webhooks can be read.
    pub fn verify_secrets_exist(&self, vault: &Vault) -> (r: Result<Progress, Error>)
        ensures
            self.webhooks@.len() == 0 ==> r matches Ok(Progress::Done),
            self.webhooks@.len() > 0 ==> reports(token_read(*vault, self.name@), r),
    {
        let mut i: usize = 0;
        while i < self.webhooks.len()
            invariant
                i <= self.webhooks.len(),
                i > 0 ==> token_read(*vault, self.name@) is Value,
            decreases self.webhooks.len() - i,
        {
            match self.webhooks[i].verify_secrets_exist(vault, self.name.as_str()) {
                Ok(Progress::Done) => {},
                other => {
                    return other;
                },
            }
            i += 1;
        }
        Ok(Progress::Done)
    }
}

} // verus!
