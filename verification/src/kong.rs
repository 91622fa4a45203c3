//! The gateway entry of a service: its source form, and how the entry is
//! built from it for a region.
use vstd::prelude::*;
use crate::builder::Build;
use crate::error::Error;
use crate::keyed::{reversed, StringMap};
use crate::merge::{is_map_merge, merge_options, Merge};
use crate::region::Region;
use crate::text::{contains_char, join2, join3};

verus! {

/// How callers of a service authenticate.
#[derive(Clone, Copy, Debug, PartialEq, Eq, Structural)]
pub enum Authentication {
    /// Callers need not authenticate.
    Open,
    /// Callers present an OAuth2 token.
    OAuth2,
    /// Callers present a signed token.
    Jwt,
}

impl Default for Authentication {
    fn default() -> (r: Authentication)
        ensures
            r == Authentication::OAuth2,
    {
        Authentication::OAuth2
    }
}

/// Cross-origin settings of a service.
#[derive(Clone, Debug, Default)]
pub struct Cors {
    pub enabled: bool,
    pub origin: String,
    pub headers: String,
    pub methods: String,
    pub credentials: bool,
    pub preflight_continue: bool,
}

/// The header that carries the authenticated caller upstream.
#[derive(Clone, Debug, Default)]
pub struct BabylonAuthHeader {
    pub enabled: bool,
    pub auth_service: String,
    pub cache_timeout_sec: u32,
    pub http_timeout_msec: u32,
}

/// Who may call a service.
#[derive(Clone, Debug, Default)]
pub struct Authorization {
    pub allowed_audiences: Vec<String>,
    pub allow_anonymous: bool,
    pub allow_cookies: bool,
    pub allow_invalid_tokens: bool,
    pub required_scopes: Vec<String>,
}

/// The source form of an authorization: every field may be left out.
#[derive(Clone, Debug, Default)]
pub struct AuthorizationSource {
    pub allowed_audiences: Option<Vec<String>>,
    pub allow_anonymous: Option<bool>,
    pub allow_cookies: Option<bool>,
    pub allow_invalid_tokens: Option<bool>,
    pub required_scopes: Option<Vec<String>>,
}

/// A source that can be switched off. An unset flag counts as enabled.
#[derive(Clone, Debug, Default)]
pub struct Enabled<T> {
    pub enabled: Option<bool>,
    pub item: T,
}

/// The items of an optional list; none if the list is left out.
pub open spec fn list_or_empty(v: Option<Vec<String>>, out: Vec<String>) -> bool {
    match v {
        Some(list) => out == list,
        None => out@.len() == 0,
    }
}

/// Whether `a` is the authorization that `s` states, with what is left out
/// switched off or empty.
pub open spec fn authorization_of(s: AuthorizationSource, a: Authorization) -> bool {
    &&& list_or_empty(s.allowed_audiences, a.allowed_audiences)
    &&& list_or_empty(s.required_scopes, a.required_scopes)
    &&& a.allow_anonymous == (s.allow_anonymous == Some(true))
    &&& a.allow_cookies == (s.allow_cookies == Some(true))
    &&& a.allow_invalid_tokens == (s.allow_invalid_tokens == Some(true))
}

fn flag(b: Option<bool>) -> (r: bool)
    ensures
        r == (b == Some(true)),
{
    match b {
        Some(v) => v,
        None => false,
    }
}

fn list_of(v: Option<Vec<String>>) -> (r: Vec<String>)
    ensures
        list_or_empty(v, r),
{
    match v {
        Some(list) => list,
        None => Vec::new(),
    }
}

impl Build<Authorization, ()> for AuthorizationSource {
    open spec fn builds(self, params: &(), r: Result<Authorization, Error>) -> bool {
        r matches Ok(a) && authorization_of(self, a)
    }

    fn build(self, params: &()) -> (r: Result<Authorization, Error>) {
        Ok(
            Authorization {
                allowed_audiences: list_of(self.allowed_audiences),
                allow_anonymous: flag(self.allow_anonymous),
                allow_cookies: flag(self.allow_cookies),
                allow_invalid_tokens: flag(self.allow_invalid_tokens),
                required_scopes: list_of(self.required_scopes),
            },
        )
    }
}

impl<T, P, S: Build<T, P>> Build<Option<T>, P> for Enabled<S> {
    open spec fn builds(self, params: &P, r: Result<Option<T>, Error>) -> bool {
        if self.enabled == Some(false) {
            r == Ok::<Option<T>, Error>(None)
        } else {
            match r {
                Ok(Some(t)) => self.item.builds(params, Ok(t)),
                Ok(None) => false,
                Err(e) => self.item.builds(params, Err(e)),
            }
        }
    }

    fn build(self, params: &P) -> (r: Result<Option<T>, Error>) {
        let on = match self.enabled {
            Some(b) => b,
            None => true,
        };
        if !on {
            return Ok(None);
        }
        match self.item.build(params) {
            Ok(t) => Ok(Some(t)),
            Err(e) => Err(e),
        }
    }
}

/// The gateway entry of a service.
#[allow(non_snake_case)]
#[derive(Clone, Debug, Default)]
pub struct Kong {
    pub name: String,
    pub upstream_url: String,
    pub upstream_service: Option<String>,
    pub internal: bool,
    pub publiclyAccessible: bool,
    pub uris: Option<String>,
    pub hosts: Vec<String>,
    pub authorization: Option<Authorization>,
    pub strip_uri: bool,
    pub preserve_host: bool,
    pub cors: Option<Cors>,
    pub additional_internal_ips: Vec<String>,
    pub babylon_auth_header: Option<BabylonAuthHeader>,
    pub upstream_connect_timeout: Option<u32>,
    pub upstream_send_timeout: Option<u32>,
    pub upstream_read_timeout: Option<u32>,
    pub add_headers: StringMap<String>,
    pub auth: Authentication,
}

/// The source form of a gateway entry: what a service states of it.
#[derive(Clone, Debug, Default)]
pub struct KongSource {
    pub upstream_url: Option<String>,
    pub uris: Option<String>,
    pub hosts: Option<Vec<String>>,
    pub strip_uri: Option<bool>,
    pub preserve_host: Option<bool>,
    pub cors: Option<Cors>,
    pub additional_internal_ips: Option<Vec<String>>,
    pub internal: Option<bool>,
    pub publicly_accessible: Option<bool>,
    pub auth: Option<Authentication>,
    pub babylon_auth_header: Option<BabylonAuthHeader>,
    pub authorization: Enabled<AuthorizationSource>,
    pub upstream_connect_timeout: Option<u32>,
    pub upstream_send_timeout: Option<u32>,
    pub upstream_read_timeout: Option<u32>,
    pub add_headers: StringMap<String>,
}

/// The context in which a gateway entry is built.
#[derive(Clone, Debug)]
pub struct KongBuildParams {
    pub service: String,
    pub region: Region,
}

impl Merge for String {
    open spec fn is_merge(self, other: Self, r: Self) -> bool {
        r == other
    }

    fn merge(self, other: Self) -> (r: Self) {
        other
    }
}

/// Whether `r` is the field-wise merge of the authorization source `b` into `a`.
pub open spec fn authorization_merge(
    a: AuthorizationSource,
    b: AuthorizationSource,
    r: AuthorizationSource,
) -> bool {
    &&& r.allowed_audiences == merge_options(a.allowed_audiences, b.allowed_audiences)
    &&& r.allow_anonymous == merge_options(a.allow_anonymous, b.allow_anonymous)
    &&& r.allow_cookies == merge_options(a.allow_cookies, b.allow_cookies)
    &&& r.allow_invalid_tokens == merge_options(a.allow_invalid_tokens, b.allow_invalid_tokens)
    &&& r.required_scopes == merge_options(a.required_scopes, b.required_scopes)
}

impl Merge for AuthorizationSource {
    open spec fn is_merge(self, other: Self, r: Self) -> bool {
        authorization_merge(self, other, r)
    }

    fn merge(self, other: Self) -> (r: Self) {
        AuthorizationSource {
            allowed_audiences: self.allowed_audiences.merge(other.allowed_audiences),
            allow_anonymous: self.allow_anonymous.merge(other.allow_anonymous),
            allow_cookies: self.allow_cookies.merge(other.allow_cookies),
            allow_invalid_tokens: self.allow_invalid_tokens.merge(other.allow_invalid_tokens),
            required_scopes: self.required_scopes.merge(other.required_scopes),
        }
    }
}

impl<T: Merge> Merge for Enabled<T> {
    open spec fn is_merge(self, other: Self, r: Self) -> bool {
        &&& r.enabled == merge_options(self.enabled, other.enabled)
        &&& self.item.is_merge(other.item, r.item)
    }

    fn merge(self, other: Self) -> (r: Self) {
        Enabled { enabled: self.enabled.merge(other.enabled), item: self.item.merge(other.item) }
    }
}

impl Merge for KongSource {
    open spec fn is_merge(self, other: Self, r: Self) -> bool {
        &&& r.upstream_url == merge_options(self.upstream_url, other.upstream_url)
        &&& r.uris == merge_options(self.uris, other.uris)
        &&& r.hosts == merge_options(self.hosts, other.hosts)
        &&& r.strip_uri == merge_options(self.strip_uri, other.strip_uri)
        &&& r.preserve_host == merge_options(self.preserve_host, other.preserve_host)
        &&& r.cors == merge_options(self.cors, other.cors)
        &&& r.additional_internal_ips == merge_options(
            self.additional_internal_ips,
            other.additional_internal_ips,
        )
        &&& r.internal == merge_options(self.internal, other.internal)
        &&& r.publicly_accessible == merge_options(
            self.publicly_accessible,
            other.publicly_accessible,
        )
        &&& r.auth == merge_options(self.auth, other.auth)
        &&& r.babylon_auth_header == merge_options(
            self.babylon_auth_header,
            other.babylon_auth_header,
        )
        &&& r.authorization.enabled == merge_options(
            self.authorization.enabled,
            other.authorization.enabled,
        )
        &&& authorization_merge(
            self.authorization.item,
            other.authorization.item,
            r.authorization.item,
        )
        &&& r.upstream_connect_timeout == merge_options(
            self.upstream_connect_timeout,
            other.upstream_connect_timeout,
        )
        &&& r.upstream_send_timeout == merge_options(
            self.upstream_send_timeout,
            other.upstream_send_timeout,
        )
        &&& r.upstream_read_timeout == merge_options(
            self.upstream_read_timeout,
            other.upstream_read_timeout,
        )
        &&& is_map_merge(self.add_headers@, other.add_headers@, r.add_headers@)
    }

    fn merge(self, other: Self) -> (r: Self) {
        KongSource {
            upstream_url: self.upstream_url.merge(other.upstream_url),
            uris: self.uris.merge(other.uris),
            hosts: self.hosts.merge(other.hosts),
            strip_uri: self.strip_uri.merge(other.strip_uri),
            preserve_host: self.preserve_host.merge(other.preserve_host),
            cors: self.cors.merge(other.cors),
            additional_internal_ips: self.additional_internal_ips.merge(
                other.additional_internal_ips,
            ),
            internal: self.internal.merge(other.internal),
            publicly_accessible: self.publicly_accessible.merge(other.publicly_accessible),
            auth: self.auth.merge(other.auth),
            babylon_auth_header: self.babylon_auth_header.merge(other.babylon_auth_header),
            authorization: self.authorization.merge(other.authorization),
            upstream_connect_timeout: self.upstream_connect_timeout.merge(
                other.upstream_connect_timeout,
            ),
            upstream_send_timeout: self.upstream_send_timeout.merge(other.upstream_send_timeout),
            upstream_read_timeout: self.upstream_read_timeout.merge(other.upstream_read_timeout),
            add_headers: self.add_headers.merge(other.add_headers),
        }
    }
}

/// The address of a service inside the cluster.
pub open spec fn cluster_address(service: Seq<char>, namespace: Seq<char>) -> Seq<char> {
    "http://"@ + service + "."@ + namespace + ".svc.cluster.local"@
}

/// The host `h` as the gateway serves it: a host without a dot gets the
/// gateway's base suffix.
pub open spec fn qualified_host(h: Seq<char>, base: Seq<char>) -> Seq<char> {
    if h.contains('.') {
        h
    } else {
        h + base
    }
}

/// Whether `out` are the hosts `hosts`, each qualified.
pub open spec fn hosts_qualified(hosts: Seq<String>, base: Seq<char>, out: Seq<String>) -> bool {
    &&& out.len() == hosts.len()
    &&& forall|i: int|
        0 <= i < hosts.len() ==> (#[trigger] out[i])@ == qualified_host(hosts[i]@, base)
}

/// The hosts that a source states; none if it states none.
pub open spec fn stated_hosts(hosts: Option<Vec<String>>) -> Seq<String> {
    match hosts {
        Some(v) => v@,
        None => Seq::empty(),
    }
}

/// The outcome of combining the authentication that a source states with
/// the authorization that it builds: with an authorization, the
/// authentication must be unset or JWT, and is JWT; without one, it is what
/// the source states, or OAuth2.
pub open spec fn auth_outcome(auth: Option<Authentication>, authz: Option<Authorization>) -> Result<
    (Authentication, Option<Authorization>),
    Error,
> {
    match authz {
        Some(a) => match auth {
            None => Ok((Authentication::Jwt, Some(a))),
            Some(Authentication::Jwt) => Ok((Authentication::Jwt, Some(a))),
            Some(_) => Err(Error::AuthConflict),
        },
        None => match auth {
            Some(x) => Ok((x, None)),
            None => Ok((Authentication::OAuth2, None)),
        },
    }
}

/// Combines the authentication that a source states with the authorization
/// that it built.
pub fn combine_auth(auth: Option<Authentication>, authz: Option<Authorization>) -> (r: Result<
    (Authentication, Option<Authorization>),
    Error,
>)
    ensures
        r == auth_outcome(auth, authz),
{
    match authz {
        Some(a) => match auth {
            None => Ok((Authentication::Jwt, Some(a))),
            Some(Authentication::Jwt) => Ok((Authentication::Jwt, Some(a))),
            Some(_) => Err(Error::AuthConflict),
        },
        None => match auth {
            Some(x) => Ok((x, None)),
            None => Ok((Authentication::OAuth2, None)),
        },
    }
}

fn or_false(b: Option<bool>) -> (r: bool)
    ensures
        r == (b == Some(true)),
{
    match b {
        Some(v) => v,
        None => false,
    }
}

/// Whether `k` is the gateway entry that `s` states for `service` in a
/// region with the namespace `namespace`, with the hosts `hosts`, the
/// authentication `auth` and the authorization `authz`.
pub open spec fn entry_of(
    s: KongSource,
    service: Seq<char>,
    namespace: Seq<char>,
    hosts: Vec<String>,
    auth: Authentication,
    authz: Option<Authorization>,
    k: Kong,
) -> bool {
    &&& k.name@ == service
    &&& k.upstream_url@ == s.upstream_address(service, namespace)
    &&& k.preserve_host == (s.preserve_host != Some(false))
    &&& if k.preserve_host {
        k.upstream_service matches Some(u) && u@ == service
    } else {
        k.upstream_service is None
    }
    &&& k.internal == (s.internal == Some(true))
    &&& k.publiclyAccessible == (s.publicly_accessible == Some(true))
    &&& k.uris == s.uris
    &&& k.hosts == hosts
    &&& k.authorization == authz
    &&& k.strip_uri == (s.strip_uri == Some(true))
    &&& k.cors == s.cors
    &&& list_or_empty(s.additional_internal_ips, k.additional_internal_ips)
    &&& k.babylon_auth_header == s.babylon_auth_header
    &&& k.upstream_connect_timeout == s.upstream_connect_timeout
    &&& k.upstream_send_timeout == s.upstream_send_timeout
    &&& k.upstream_read_timeout == s.upstream_read_timeout
    &&& k.add_headers == s.add_headers
    &&& k.auth == auth
}

/// Whether `r` is an outcome of building the gateway entry of `s` for
/// `service` in `region`: no entry where the region has no gateway or the
/// source states neither hosts nor paths; else the entry, or the failure of
/// its authorization.
pub open spec fn kong_builds(
    s: KongSource,
    service: Seq<char>,
    region: Region,
    r: Result<Option<Kong>, Error>,
) -> bool {
    match region.kong {
        None => r == Ok::<Option<Kong>, Error>(None),
        Some(gateway) => if stated_hosts(s.hosts).len() == 0 && s.uris is None {
            r == Ok::<Option<Kong>, Error>(None)
        } else {
            exists|built: Result<Option<Authorization>, Error>|
                {
                    &&& #[trigger] s.authorization.builds(&(), built)
                    &&& match built {
                        Err(e) => r == Err::<Option<Kong>, Error>(e),
                        Ok(authz) => match auth_outcome(s.auth, authz) {
                            Err(e) => r == Err::<Option<Kong>, Error>(e),
                            Ok((auth, authorization)) => r matches Ok(Some(k)) && exists|
                                hosts: Vec<String>,
                            |
                                {
                                    &&& hosts_qualified(
                                        stated_hosts(s.hosts),
                                        gateway.base_url@,
                                        hosts@,
                                    )
                                    &&& #[trigger] entry_of(
                                        s,
                                        service,
                                        region.namespace@,
                                        hosts,
                                        auth,
                                        authorization,
                                        k,
                                    )
                                },
                        },
                    }
                }
        },
    }
}

impl KongSource {
    /// The address that the gateway forwards to: the one stated, else the
    /// address of the service inside the cluster.
    pub open spec fn upstream_address(self, service: Seq<char>, namespace: Seq<char>) -> Seq<
        char,
    > {
        match self.upstream_url {
            Some(u) => u@,
            None => cluster_address(service, namespace),
        }
    }

    /// The address that the gateway forwards to.
    pub fn build_upstream_url(&self, service: &str, namespace: &str) -> (r: String)
        ensures
            r@ == self.upstream_address(service@, namespace@),
    {
        match &self.upstream_url {
            Some(u) => u.clone(),
            None => {
                let a = join3("http://", service, ".");
                join3(a.as_str(), namespace, ".svc.cluster.local")
            },
        }
    }

    /// Combines the stated authentication with the authorization, once built.
    pub fn build_auth(auth: Option<Authentication>, authz: Enabled<AuthorizationSource>) -> (r:
        Result<(Authentication, Option<Authorization>), Error>)
        ensures
            exists|built: Result<Option<Authorization>, Error>|
                {
                    &&& #[trigger] authz.builds(&(), built)
                    &&& match built {
                        Err(e) => r == Err::<(Authentication, Option<Authorization>), Error>(e),
                        Ok(a) => r == auth_outcome(auth, a),
                    }
                },
    {
        let built = authz.build(&());
        let ghost b0 = built;
        let r = match built {
            Err(e) => Err(e),
            Ok(a) => combine_auth(auth, a),
        };
        proof {
            assert(authz.builds(&(), b0));
        }
        r
    }

    /// The hosts of the entry, each qualified with the gateway's base suffix
    /// where it has no dot.
    pub fn build_hosts(hosts: Option<Vec<String>>, base_url: &str) -> (r: Result<
        Vec<String>,
        Error,
    >)
        ensures
            r matches Ok(out) && hosts_qualified(stated_hosts(hosts), base_url@, out@),
    {
        let list = match hosts {
            Some(v) => v,
            None => Vec::new(),
        };
        let ghost all = list@;
        let n = list.len();
        let mut rest = reversed(list);
        let mut out: Vec<String> = Vec::new();
        let mut i: usize = 0;
        while i < n
            invariant
                i <= n,
                n == all.len(),
                rest@.len() == n - i,
                forall|j: int| 0 <= j < n - i ==> #[trigger] rest@[j] == all[n - 1 - j],
                out@.len() == i,
                forall|j: int|
                    0 <= j < i ==> (#[trigger] out@[j])@ == qualified_host(all[j]@, base_url@),
            decreases n - i,
        {
            let h = rest.pop().unwrap();
            if contains_char(h.as_str(), '.') {
                out.push(h);
            } else {
                out.push(join2(h.as_str(), base_url));
            }
            i += 1;
        }
        Ok(out)
    }
}

impl Build<Option<Kong>, KongBuildParams> for KongSource {
    open spec fn builds(self, params: &KongBuildParams, r: Result<Option<Kong>, Error>) -> bool {
        kong_builds(self, params.service@, params.region, r)
    }

    fn build(self, params: &KongBuildParams) -> (r: Result<Option<Kong>, Error>) {
        let gateway = match &params.region.kong {
            None => {
                return Ok(None);
            },
            Some(k) => k,
        };
        let ghost src = self;
        let upstream_url = self.build_upstream_url(
            params.service.as_str(),
            params.region.namespace.as_str(),
        );
        let KongSource {
            upstream_url: _,
            uris,
            hosts,
            strip_uri,
            preserve_host,
            cors,
            additional_internal_ips,
            internal,
            publicly_accessible,
            auth,
            babylon_auth_header,
            authorization,
            upstream_connect_timeout,
            upstream_send_timeout,
            upstream_read_timeout,
            add_headers,
        } = self;
        let hosts = match KongSource::build_hosts(hosts, gateway.base_url.as_str()) {
            Ok(h) => h,
            Err(e) => {
                return Err(e);
            },
        };
        if hosts.len() == 0 && uris.is_none() {
            return Ok(None);
        }
        let built = authorization.build(&());
        let ghost b0 = built;
        let authz = match built {
            Ok(a) => a,
            Err(e) => {
                assert(kong_builds(src, params.service@, params.region, Err(e)));
                return Err(e);
            },
        };
        let (auth, authorization) = match combine_auth(auth, authz) {
            Ok(p) => p,
            Err(e) => {
                assert(kong_builds(src, params.service@, params.region, Err(e)));
                return Err(e);
            },
        };
        let preserve_host = match preserve_host {
            Some(b) => b,
            None => true,
        };
        let k = Kong {
            name: params.service.clone(),
            upstream_url,
            upstream_service: if preserve_host {
                Some(params.service.clone())
            } else {
                None
            },
            internal: or_false(internal),
            publiclyAccessible: or_false(publicly_accessible),
            uris,
            hosts,
            authorization,
            strip_uri: or_false(strip_uri),
            preserve_host,
            cors,
            additional_internal_ips: match additional_internal_ips {
                Some(v) => v,
                None => Vec::new(),
            },
            babylon_auth_header,
            upstream_connect_timeout,
            upstream_send_timeout,
            upstream_read_timeout,
            add_headers,
            auth,
        };
        proof {
            assert(entry_of(
                src,
                params.service@,
                params.region.namespace@,
                hosts,
                auth,
                authorization,
                k,
            ));
            assert(src.authorization.builds(&(), b0));
            assert(kong_builds(src, params.service@, params.region, Ok(Some(k))));
        }
        Ok(Some(k))
    }
}

} // verus!
