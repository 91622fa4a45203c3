//! The configuration of a region, and the links that it gives for a service.
use vstd::prelude::*;
use crate::error::Error;
use crate::keyed::StringMap;
use crate::kong::{Authorization, Kong};
use crate::patterns::{pattern_found, search};
use crate::text::{chars_of, contains_char, join2, join3, same_text, string_of, trim_char, trimmed};
use crate::versions::{is_semver, parses_as_semver};

verus! {

/// The shape of a git sha: forty characters, each a hexadecimal digit or a
/// hyphen.
pub const GIT_SHA_PATTERN: &'static str = "^[0-9a-f\\-]{40}$";

/// How versions are written in a region.
#[derive(Clone, Copy, Debug, PartialEq, Eq, Structural)]
pub enum VersionScheme {
    /// A version is semver, without a leading `v`.
    Semver,
    /// A version is semver or a git sha of forty characters.
    GitShaOrSemver,
}

impl Default for VersionScheme {
    fn default() -> (r: VersionScheme)
        ensures
            r == VersionScheme::Semver,
    {
        VersionScheme::Semver
    }
}

/// The outcome of checking a version under `scheme`, given whether the search
/// for the git sha shape found it (`None`: the pattern was refused) and
/// whether the version is semver.
pub open spec fn version_outcome(scheme: VersionScheme, sha: Option<bool>, semver: bool) -> Result<
    (),
    Error,
> {
    match scheme {
        VersionScheme::Semver => if semver {
            Ok(())
        } else {
            Err(Error::NotSemver)
        },
        VersionScheme::GitShaOrSemver => match sha {
            None => Err(Error::BadPattern),
            Some(found) => if found || semver {
                Ok(())
            } else {
                Err(Error::IllegalTag)
            },
        },
    }
}

/// Checks a version under `scheme`, given what the two syntax checks gave.
pub fn check_version(scheme: VersionScheme, sha: Option<bool>, semver: bool) -> (r: Result<
    (),
    Error,
>)
    ensures
        r == version_outcome(scheme, sha, semver),
{
    match scheme {
        VersionScheme::Semver => if semver {
            Ok(())
        } else {
            Err(Error::NotSemver)
        },
        VersionScheme::GitShaOrSemver => match sha {
            None => Err(Error::BadPattern),
            Some(found) => if found || semver {
                Ok(())
            } else {
                Err(Error::IllegalTag)
            },
        },
    }
}

impl VersionScheme {
    /// Checks that `ver` is a version of this scheme.
    pub fn verify(&self, ver: &str) -> (r: Result<(), Error>)
        ensures
            r == version_outcome(*self, pattern_found(GIT_SHA_PATTERN@, ver@), is_semver(ver@)),
    {
        let sha = search(GIT_SHA_PATTERN, ver);
        let semver = parses_as_semver(ver);
        check_version(*self, sha, semver)
    }
}

/// Where the secrets of a region are kept.
#[derive(Clone, Debug, Default)]
pub struct VaultConfig {
    /// URL of the vault, up to and including the port.
    pub url: String,
    /// Folder of the region under `secret/`.
    pub folder: String,
}

impl VaultConfig {
    /// The outcome of checking the vault configuration: URL and folder must
    /// be set, and the folder must hold no slash.
    pub open spec fn verify_outcome(self) -> Result<(), Error> {
        if self.url@ == ""@ {
            Err(Error::MissingVaultUrl)
        } else if self.folder@ == ""@ {
            Err(Error::MissingVaultFolder)
        } else if self.folder@.contains('/') {
            Err(Error::VaultFolderWithSlash)
        } else {
            Ok(())
        }
    }

    /// Checks the vault configuration of the region `region`.
    pub fn verify(&self, region: &str) -> (r: Result<(), Error>)
        ensures
            r == self.verify_outcome(),
    {
        if same_text(self.url.as_str(), "") {
            return Err(Error::MissingVaultUrl);
        }
        if same_text(self.folder.as_str(), "") {
            return Err(Error::MissingVaultFolder);
        }
        if contains_char(self.folder.as_str(), '/') {
            return Err(Error::VaultFolderWithSlash);
        }
        Ok(())
    }
}

/// The names of the services among `names_and_teams` that `team` owns, in
/// order.
pub open spec fn owned_by(names_and_teams: Seq<(String, String)>, team: Seq<char>) -> Seq<String> {
    names_and_teams.filter(|p: (String, String)| p.1@ == team).map_values(
        |p: (String, String)| p.0,
    )
}

/// The services that `team` owns, from pairs of service name and owning team.
pub fn owned_manifests(names_and_teams: Vec<(String, String)>, team: &str) -> (r: Vec<String>)
    ensures
        r@ == owned_by(names_and_teams@, team@),
{
    let ghost all = names_and_teams@;
    let ghost pred = |p: (String, String)| p.1@ == team@;
    let n = names_and_teams.len();
    let mut rest = crate::keyed::reversed(names_and_teams);
    let mut out: Vec<String> = Vec::new();
    let mut i: usize = 0;
    assert(all.take(0) =~= Seq::<(String, String)>::empty());
    proof {
        reveal(Seq::filter);
    }
    while i < n
        invariant
            i <= n,
            n == all.len(),
            pred == (|p: (String, String)| p.1@ == team@),
            rest@.len() == n - i,
            forall|j: int| 0 <= j < n - i ==> #[trigger] rest@[j] == all[n - 1 - j],
            out@ == all.take(i as int).filter(pred).map_values(|p: (String, String)| p.0),
        decreases n - i,
    {
        let p = rest.pop().unwrap();
        proof {
            reveal(Seq::filter);
            assert(all.take(i + 1).drop_last() =~= all.take(i as int));
            assert(all.take(i + 1).last() == p);
        }
        let (name, owner) = p;
        if same_text(owner.as_str(), team) {
            out.push(name);
            assert(out@ =~= all.take(i + 1).filter(pred).map_values(|p: (String, String)| p.0));
        } else {
            assert(out@ =~= all.take(i + 1).filter(pred).map_values(|p: (String, String)| p.0));
        }
        i += 1;
    }
    assert(all.take(n as int) =~= all);
    out
}

/// The message brokers of a region.
#[allow(non_snake_case)]
#[derive(Clone, Debug, Default)]
pub struct KafkaConfig {
    /// Brokers, as `hostname:port`.
    pub brokers: Vec<String>,
    /// Zookeepers, as `hostname:port`.
    pub zk: Vec<String>,
    /// Environment variables for broker properties.
    pub propertyEnvMapping: StringMap<String>,
}

/// Where audited events are sent.
#[derive(Clone, Debug)]
pub struct AuditWebhook {
    /// Endpoint.
    pub url: String,
    /// Credential.
    pub token: String,
}

/// A hook that is triggered after an action.
#[derive(Clone, Debug)]
pub enum Webhook {
    /// Audit of the action.
    Audit(AuditWebhook),
}

/// Where the configuration of a region is read from.
#[derive(Clone, Copy, Debug, PartialEq, Eq, Structural)]
pub enum ConfigState {
    /// From the region's own resource.
    Filtered,
    /// From the resource shared by all regions.
    UnionisedBase,
    /// From disk.
    File,
}

/// How custom resources are deployed in a region.
#[allow(non_snake_case)]
#[derive(Clone, Debug)]
pub struct CRSettings {
    pub shipcatConfig: ConfigState,
}

/// A consumer that authenticates with a signed token.
#[derive(Clone, Debug)]
pub struct KongJwtConsumer {
    pub kid: String,
    pub public_key: String,
}

/// Consumers that need no credentials.
#[derive(Clone, Debug)]
pub struct KongAnonymousConsumers {
    pub anonymous: StringMap<String>,
}

/// A consumer that authenticates with client credentials.
#[derive(Clone, Debug)]
pub struct KongOauthConsumer {
    pub oauth_client_id: String,
    pub oauth_client_secret: String,
    pub username: String,
}

/// Where the gateway logs to.
#[derive(Clone, Debug, Default)]
pub struct KongTcpLogConfig {
    pub enabled: bool,
    pub host: String,
    pub port: String,
}

/// The gateway of a region.
#[derive(Clone, Debug, Default)]
pub struct KongConfig {
    /// Suffix of the hosts that the gateway serves.
    pub base_url: String,
    /// URL of the gateway's configuration API.
    pub config_url: String,
    /// For how long a token is valid, in seconds.
    pub kong_token_expiration: u32,
    pub tcp_log: KongTcpLogConfig,
    pub jwt_consumers: StringMap<KongJwtConsumer>,
    pub internal_ips_whitelist: Vec<String>,
    pub extra_apis: StringMap<Kong>,
}

impl KongConfig {
    /// Checks the gateway configuration; nothing is asked of it.
    pub fn verify(&self) -> (r: Result<(), Error>)
        ensures
            r is Ok,
    {
        Ok(())
    }
}

/// The uptime monitoring of a region.
#[derive(Clone, Debug, Default)]
pub struct StatuscakeConfig {
    pub contact_group: Option<String>,
    pub extra_tags: Option<String>,
}

/// The log search of a region.
#[derive(Clone, Debug, Default)]
pub struct LogzIoConfig {
    pub url: String,
    pub account_id: String,
}

/// The dashboards of a region.
#[derive(Clone, Debug, Default)]
pub struct GrafanaConfig {
    pub url: String,
    pub services_dashboard_id: String,
}

/// The error tracking of a region.
#[derive(Clone, Debug, Default)]
pub struct SentryConfig {
    pub url: String,
}

/// What the services of a region get unless they say otherwise.
#[derive(Clone, Debug, Default)]
pub struct DefaultConfig {
    pub kong: DefaultKongConfig,
}

/// The gateway settings that services of a region get by default.
#[allow(non_snake_case)]
#[derive(Clone, Debug, Default)]
pub struct DefaultKongConfig {
    pub authorization: Option<Authorization>,
    pub authorizationEnabled: bool,
}

/// The kind of environment that a region is.
#[derive(Clone, Copy, Debug, PartialEq, Eq, PartialOrd, Ord, Structural)]
pub enum Environment {
    Prod,
    Preprod,
    Staging,
    Dev,
    Test,
    Example,
}

impl Environment {
    /// The name of the environment, in lower case.
    pub open spec fn name(self) -> Seq<char> {
        match self {
            Environment::Prod => "prod"@,
            Environment::Preprod => "preprod"@,
            Environment::Staging => "staging"@,
            Environment::Dev => "dev"@,
            Environment::Test => "test"@,
            Environment::Example => "example"@,
        }
    }

    /// The name of the environment, in lower case.
    pub fn to_string(&self) -> (r: String)
        ensures
            r@ == self.name(),
    {
        match self {
            Environment::Prod => "prod".to_owned(),
            Environment::Preprod => "preprod".to_owned(),
            Environment::Staging => "staging".to_owned(),
            Environment::Dev => "dev".to_owned(),
            Environment::Test => "test".to_owned(),
            Environment::Example => "example".to_owned(),
        }
    }
}

/// Who owns what is deployed in a region.
#[derive(Clone, Copy, Debug, PartialEq, Eq, Structural)]
pub enum ReconciliationMode {
    /// Deployed resources belong to the custom resource of their service.
    CrdOwned,
}

impl Default for ReconciliationMode {
    fn default() -> (r: ReconciliationMode)
        ensures
            r == ReconciliationMode::CrdOwned,
    {
        ReconciliationMode::CrdOwned
    }
}

/// A region: a namespace in a cluster, with what surrounds it.
#[allow(non_snake_case)]
#[derive(Clone, Debug)]
pub struct Region {
    pub name: String,
    pub namespace: String,
    pub environment: Environment,
    pub reconciliationMode: ReconciliationMode,
    pub cluster: String,
    pub versioningScheme: VersionScheme,
    pub base_urls: StringMap<String>,
    pub env: StringMap<String>,
    pub kong: Option<KongConfig>,
    pub statuscake: Option<StatuscakeConfig>,
    pub ip_whitelist: Vec<String>,
    pub kafka: KafkaConfig,
    pub vault: VaultConfig,
    pub logzio: Option<LogzIoConfig>,
    pub grafana: Option<GrafanaConfig>,
    pub sentry: Option<SentryConfig>,
    pub locations: Vec<String>,
    pub webhooks: Vec<Webhook>,
    pub customResources: Option<CRSettings>,
    pub defaults: DefaultConfig,
    /// The pattern that hosts of destination rules have to match.
    pub destinationRuleHostRegex: Option<String>,
}

/// `s` without the slashes at its ends.
fn trim_slashes(s: &str) -> (r: String)
    ensures
        r@ == trimmed(s@, '/'),
{
    let v = chars_of(s);
    let t = trim_char(&v, '/');
    string_of(&t)
}

impl Region {
    /// Where the secrets of the service `app` are listed.
    pub open spec fn vault_url_spec(self, app: Seq<char>) -> Seq<char> {
        trimmed(self.vault.url@, '/') + "/ui/vault/secrets/secret/list/"@ + self.name@ + "/"@ + app
            + "/"@
    }

    /// Where the secrets of the service `app` are listed.
    pub fn vault_url(&self, app: &str) -> (r: String)
        ensures
            r@ == self.vault_url_spec(app@),
    {
        let base = trim_slashes(self.vault.url.as_str());
        let a = join3(base.as_str(), "/ui/vault/secrets/secret/list/", self.name.as_str());
        let b = join3(a.as_str(), "/", app);
        join2(b.as_str(), "/")
    }

    /// Where the dashboard of the service `app` is, given the dashboards.
    pub open spec fn grafana_link(self, gf: GrafanaConfig, app: Seq<char>) -> Seq<char> {
        trimmed(gf.url@, '/') + "/d/"@ + gf.services_dashboard_id@
            + "/kubernetes-services?var-cluster="@ + self.cluster@ + "&var-namespace="@
            + self.namespace@ + "&var-deployment="@ + app
    }

    /// Where the dashboard of the service `app` is, if the region has dashboards.
    pub fn grafana_url(&self, app: &str) -> (r: Option<String>)
        ensures
            match self.grafana {
                None => r is None,
                Some(gf) => r matches Some(s) && s@ == self.grafana_link(gf, app@),
            },
    {
        match &self.grafana {
            None => None,
            Some(gf) => {
                let base = trim_slashes(gf.url.as_str());
                let a = join3(base.as_str(), "/d/", gf.services_dashboard_id.as_str());
                let b = join3(a.as_str(), "/kubernetes-services?var-cluster=", self.cluster.as_str());
                let c = join3(b.as_str(), "&var-namespace=", self.namespace.as_str());
                Some(join3(c.as_str(), "&var-deployment=", app))
            },
        }
    }

    /// Where the errors of the project `slug` are tracked, if the region
    /// tracks errors.
    pub fn sentry_url(&self, slug: &str) -> (r: Option<String>)
        ensures
            match self.sentry {
                None => r is None,
                Some(s) => r matches Some(u) && u@ == s.url@ + "/sentry/"@ + slug@,
            },
    {
        match &self.sentry {
            None => None,
            Some(s) => Some(join3(s.url.as_str(), "/sentry/", slug)),
        }
    }

    /// Where the logs of the service `app` are searched, given the log search.
    pub open spec fn logzio_link(self, lio: LogzIoConfig, app: Seq<char>) -> Seq<char> {
        trimmed(lio.url@, '/') + "/"@ + app + "-"@ + self.name@ + "?&switchToAccountId="@
            + lio.account_id@
    }

    /// Where the logs of the service `app` are searched, if the region has a
    /// log search.
    pub fn logzio_url(&self, app: &str) -> (r: Option<String>)
        ensures
            match self.logzio {
                None => r is None,
                Some(lio) => r matches Some(s) && s@ == self.logzio_link(lio, app@),
            },
    {
        match &self.logzio {
            None => None,
            Some(lio) => {
                let base = trim_slashes(lio.url.as_str());
                let a = join3(base.as_str(), "/", app);
                let b = join3(a.as_str(), "-", self.name.as_str());
                Some(join3(b.as_str(), "?&switchToAccountId=", lio.account_id.as_str()))
            },
        }
    }

    /// Where the service overview is, seen from the region `region_name` that
    /// the process runs in: nowhere if that region is not known; a fixed
    /// address from the operations region; else below the base URL for
    /// external services, if the region has one.
    pub open spec fn raftcat_link(self, region_name: Option<Seq<char>>) -> Option<Seq<char>> {
        match region_name {
            None => None,
            Some(n) => if n == "dev-ops"@ {
                Some("https://raftcat.ops.babylontech.co.uk/raftcat/"@)
            } else if self.base_urls@.dom().contains("external_services"@) {
                Some(self.base_urls@["external_services"@]@ + "/raftcat/"@)
            } else {
                None
            },
        }
    }

    /// Where the service overview is, seen from the region `region_name`.
    pub fn raftcat_url(&self, region_name: Option<&str>) -> (r: Option<String>)
        ensures
            match self.raftcat_link(
                match region_name {
                    Some(n) => Some(n@),
                    None => None,
                },
            ) {
                None => r is None,
                Some(link) => r matches Some(s) && s@ == link,
            },
    {
        let name = match region_name {
            None => {
                return None;
            },
            Some(n) => n,
        };
        if same_text(name, "dev-ops") {
            Some("https://raftcat.ops.babylontech.co.uk/raftcat/".to_owned())
        } else {
            match self.base_urls.get("external_services") {
                None => None,
                Some(base) => Some(join2(base.as_str(), "/raftcat/")),
            }
        }
    }
}

} // verus!
