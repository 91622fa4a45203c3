use shipcat::builder::Build;
use shipcat::error::Error;
use shipcat::keyed::StringMap;
use shipcat::kong::{
    combine_auth, Authentication, Authorization, AuthorizationSource, Enabled, KongBuildParams,
    KongSource,
};
use shipcat::merge::Merge;
use shipcat::region::{
    DefaultConfig, Environment, KafkaConfig, KongConfig, ReconciliationMode, Region, VaultConfig,
    VersionScheme,
};

fn region(with_gateway: bool) -> Region {
    Region {
        name: "dev-uk".into(),
        namespace: "apps".into(),
        environment: Environment::Dev,
        reconciliationMode: ReconciliationMode::default(),
        cluster: "kops-uk".into(),
        versioningScheme: VersionScheme::default(),
        base_urls: StringMap::new(),
        env: StringMap::new(),
        kong: if with_gateway {
            Some(KongConfig { base_url: ".dev.example.com".into(), ..Default::default() })
        } else {
            None
        },
        statuscake: None,
        ip_whitelist: vec![],
        kafka: KafkaConfig::default(),
        vault: VaultConfig::default(),
        logzio: None,
        grafana: None,
        sentry: None,
        locations: vec![],
        webhooks: vec![],
        customResources: None,
        defaults: DefaultConfig::default(),
        destinationRuleHostRegex: None,
    }
}

fn params(with_gateway: bool) -> KongBuildParams {
    KongBuildParams { service: "svc".into(), region: region(with_gateway) }
}

fn disabled() -> Enabled<AuthorizationSource> {
    Enabled { enabled: Some(false), item: AuthorizationSource::default() }
}

fn source() -> KongSource {
    KongSource {
        hosts: Some(vec!["svc".into(), "svc.example.org".into()]),
        authorization: disabled(),
        ..Default::default()
    }
}

#[test]
fn no_gateway_no_entry() {
    assert!(matches!(source().build(&params(false)), Ok(None)));
}

#[test]
fn neither_hosts_nor_paths_no_entry() {
    let src = KongSource { authorization: disabled(), ..Default::default() };
    assert!(matches!(src.build(&params(true)), Ok(None)));
    let src = KongSource { hosts: Some(vec![]), authorization: disabled(), ..Default::default() };
    assert!(matches!(src.build(&params(true)), Ok(None)));
}

#[test]
fn entry_with_defaults() {
    let k = source().build(&params(true)).unwrap().unwrap();
    assert_eq!(k.name, "svc");
    assert_eq!(k.upstream_url, "http://svc.apps.svc.cluster.local");
    assert_eq!(k.upstream_service, Some("svc".to_string()));
    assert!(k.preserve_host);
    assert!(!k.internal);
    assert!(!k.publiclyAccessible);
    assert!(!k.strip_uri);
    assert_eq!(k.hosts, vec!["svc.dev.example.com", "svc.example.org"]);
    assert_eq!(k.uris, None);
    assert!(k.authorization.is_none());
    assert_eq!(k.auth, Authentication::OAuth2);
    assert!(k.additional_internal_ips.is_empty());
}

#[test]
fn entry_with_what_is_stated() {
    let src = KongSource {
        upstream_url: Some("http://elsewhere".into()),
        uris: Some("/api".into()),
        preserve_host: Some(false),
        internal: Some(true),
        strip_uri: Some(true),
        auth: Some(Authentication::Open),
        additional_internal_ips: Some(vec!["10.0.0.1".into()]),
        upstream_read_timeout: Some(30),
        authorization: disabled(),
        ..Default::default()
    };
    let k = src.build(&params(true)).unwrap().unwrap();
    assert_eq!(k.upstream_url, "http://elsewhere");
    assert_eq!(k.upstream_service, None);
    assert!(!k.preserve_host);
    assert!(k.internal);
    assert!(k.strip_uri);
    assert_eq!(k.uris, Some("/api".to_string()));
    assert!(k.hosts.is_empty());
    assert_eq!(k.auth, Authentication::Open);
    assert_eq!(k.additional_internal_ips, vec!["10.0.0.1"]);
    assert_eq!(k.upstream_read_timeout, Some(30));
}

#[test]
fn authorization_asks_for_jwt() {
    let authz = || Enabled {
        enabled: None,
        item: AuthorizationSource { allowed_audiences: Some(vec!["aud".into()]), ..Default::default() },
    };
    let src = KongSource { authorization: authz(), ..source() };
    let k = src.build(&params(true)).unwrap().unwrap();
    assert_eq!(k.auth, Authentication::Jwt);
    assert_eq!(k.authorization.unwrap().allowed_audiences, vec!["aud"]);

    let src = KongSource { authorization: authz(), auth: Some(Authentication::Jwt), ..source() };
    assert_eq!(src.build(&params(true)).unwrap().unwrap().auth, Authentication::Jwt);

    let src = KongSource { authorization: authz(), auth: Some(Authentication::OAuth2), ..source() };
    assert!(matches!(src.build(&params(true)), Err(Error::AuthConflict)));
}

#[test]
fn auth_combinations() {
    let a = Authorization::default;
    assert!(matches!(combine_auth(None, Some(a())), Ok((Authentication::Jwt, Some(_)))));
    assert!(matches!(
        combine_auth(Some(Authentication::Jwt), Some(a())),
        Ok((Authentication::Jwt, Some(_)))
    ));
    assert!(matches!(combine_auth(Some(Authentication::Open), Some(a())), Err(Error::AuthConflict)));
    assert!(matches!(combine_auth(Some(Authentication::OAuth2), Some(a())), Err(Error::AuthConflict)));
    assert!(matches!(combine_auth(Some(Authentication::Open), None), Ok((Authentication::Open, None))));
    assert!(matches!(combine_auth(None, None), Ok((Authentication::OAuth2, None))));
    assert!(matches!(
        KongSource::build_auth(Some(Authentication::OAuth2), disabled()),
        Ok((Authentication::OAuth2, None))
    ));
}

#[test]
fn hosts_and_upstream() {
    let hosts = KongSource::build_hosts(Some(vec!["a".into(), "b.c".into(), "".into()]), ".base");
    assert_eq!(hosts, Ok(vec!["a.base".to_string(), "b.c".to_string(), ".base".to_string()]));
    assert_eq!(KongSource::build_hosts(None, ".base"), Ok(vec![]));
    let src = KongSource::default();
    assert_eq!(src.build_upstream_url("svc", "ns"), "http://svc.ns.svc.cluster.local");
    let src = KongSource { upstream_url: Some("http://x".into()), ..Default::default() };
    assert_eq!(src.build_upstream_url("svc", "ns"), "http://x");
}

#[test]
fn sources_merge_field_by_field() {
    let mut headers_a = StringMap::new();
    headers_a.insert("X-A".to_string(), "a".to_string());
    headers_a.insert("X-Both".to_string(), "a".to_string());
    let mut headers_b = StringMap::new();
    headers_b.insert("X-Both".to_string(), "b".to_string());
    let a = KongSource {
        uris: Some("/a".into()),
        internal: Some(true),
        add_headers: headers_a,
        authorization: Enabled {
            enabled: Some(true),
            item: AuthorizationSource { allow_cookies: Some(true), ..Default::default() },
        },
        ..Default::default()
    };
    let b = KongSource {
        uris: Some("/b".into()),
        strip_uri: Some(true),
        add_headers: headers_b,
        authorization: Enabled {
            enabled: None,
            item: AuthorizationSource { allow_anonymous: Some(true), ..Default::default() },
        },
        ..Default::default()
    };
    let m = a.merge(b);
    assert_eq!(m.uris, Some("/b".to_string()));
    assert_eq!(m.internal, Some(true));
    assert_eq!(m.strip_uri, Some(true));
    assert_eq!(m.authorization.enabled, Some(true));
    assert_eq!(m.authorization.item.allow_cookies, Some(true));
    assert_eq!(m.authorization.item.allow_anonymous, Some(true));
    assert_eq!(m.add_headers.get("X-A"), Some(&"a".to_string()));
    assert_eq!(m.add_headers.get("X-Both"), Some(&"b".to_string()));
    assert_eq!(m.add_headers.len(), 2);
}
