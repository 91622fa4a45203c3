use shipcat::error::Error;
use shipcat::keyed::StringMap;
use shipcat::manifest::{Manifest, ResourceLimit, ResourceRequest, Resources};
use shipcat::resolver::{validate, Completion, Progress, RegionCase};
use shipcat::vault::{Secret, Vault};

fn env(pairs: Vec<(&str, &str)>) -> StringMap<String> {
    let mut m = StringMap::new();
    for (k, v) in pairs {
        m.insert(k.to_string(), v.to_string());
    }
    m
}

fn overlay(pairs: Vec<(&str, &str)>) -> Manifest {
    let mut mf = Manifest::new("", "");
    mf.env = env(pairs);
    mf
}

fn service() -> Manifest {
    let mut mf = Manifest::new("svc", "services/svc/shipcat.yml");
    mf.resources = Some(Resources {
        requests: Some(ResourceRequest { cpu: "100m".into(), memory: "128Mi".into() }),
        limits: Some(ResourceLimit { cpu: "1".into(), memory: "1Gi".into() }),
    });
    mf.regions = vec!["dev-uk".to_string()];
    mf
}

#[test]
fn service_override_wins_over_region_defaults() {
    let mut mf = service();
    let locals = overlay(vec![("LOG_LEVEL", "debug")]);
    let globals = overlay(vec![("LOG_LEVEL", "info"), ("REGION_ONLY", "x")]);
    let r = mf.fill("dev-uk", Some(locals), Some(globals), None);
    assert!(matches!(r, Ok(Progress::Done)));
    assert_eq!(mf.env.get("LOG_LEVEL"), Some(&"debug".to_string()));
    assert_eq!(mf.env.get("REGION_ONLY"), Some(&"x".to_string()));
}

#[test]
fn manifest_value_wins_over_every_override() {
    let mut mf = service();
    mf.env = env(vec![("LOG_LEVEL", "trace")]);
    let locals = overlay(vec![("LOG_LEVEL", "debug")]);
    let globals = overlay(vec![("LOG_LEVEL", "info")]);
    mf.fill("dev-uk", Some(locals), Some(globals), None).unwrap();
    assert_eq!(mf.env.get("LOG_LEVEL"), Some(&"trace".to_string()));
}

#[test]
fn region_defaults_fill_what_is_left() {
    let mut mf = service();
    let globals = overlay(vec![("LOG_LEVEL", "info")]);
    mf.fill("dev-uk", None, Some(globals), None).unwrap();
    assert_eq!(mf.env.get("LOG_LEVEL"), Some(&"info".to_string()));
}

#[test]
fn fill_names_namespace_and_location() {
    let mut mf = service();
    assert!(matches!(mf.fill("dev-uk", None, None, None), Ok(Progress::Done)));
    assert_eq!(mf._namespace, "dev");
    assert_eq!(mf._location, "uk");
    assert_eq!(mf.image.clone().unwrap().name, Some("svc".to_string()));
}

#[test]
fn region_must_have_two_parts() {
    assert!(matches!(service().fill("dev", None, None, None), Err(Error::InvalidRegion)));
    assert!(matches!(service().fill("dev-uk-2", None, None, None), Err(Error::InvalidRegion)));
    assert!(matches!(service().fill("", None, None, None), Err(Error::InvalidRegion)));
    let mut mf = service();
    assert!(matches!(mf.fill("dev-", None, None, None), Ok(Progress::Done)));
    assert_eq!(mf._namespace, "dev");
    assert_eq!(mf._location, "");
}

#[test]
fn secrets_in_overrides_are_resolved_after_the_merge() {
    let mut vault = Vault::new();
    let mut data = StringMap::new();
    data.insert("value".to_string(), "s3cret".to_string());
    let mut mf = service();
    let globals = overlay(vec![("TOKEN", "IN_VAULT")]);
    match mf.fill("dev-uk", None, Some(globals.clone()), Some(&vault)) {
        Ok(Progress::Fetch(p)) => {
            assert_eq!(p, "secret/dev-uk/svc/TOKEN");
            vault.store(p, Secret { data, lease_duration: 0 });
        }
        other => panic!("{:?}", other),
    }
    match Manifest::completed(service(), "dev-uk", None, Some(globals), Some(&vault)) {
        Ok(Completion::Ready(m)) => assert_eq!(m.env.get("TOKEN"), Some(&"s3cret".to_string())),
        other => panic!("{:?}", other),
    }
}

fn case(mf: Manifest, region: &str) -> RegionCase {
    RegionCase { manifest: mf, region: region.to_string(), locals: None, globals: None }
}

#[test]
fn validate_checks_every_region() {
    let services = vec!["svc".to_string()];
    let regions = vec!["dev-uk".to_string(), "dev-ops".to_string()];
    let mut mf = service();
    mf.regions = vec!["dev-uk".to_string(), "dev-ops".to_string()];
    let cases = vec![case(mf.clone(), "dev-uk"), case(mf.clone(), "dev-ops")];
    assert_eq!(validate(cases, false, &services, &regions), Ok(()));
    assert_eq!(validate(vec![], true, &services, &regions), Ok(()));

    let cases = vec![case(mf.clone(), "dev-uk"), case(mf.clone(), "nowhere")];
    assert_eq!(validate(cases, false, &services, &regions), Err(Error::InvalidRegion));

    let mut broken = mf.clone();
    broken.name = String::new();
    let cases = vec![case(mf.clone(), "dev-uk"), case(broken, "dev-ops")];
    assert_eq!(validate(cases, false, &services, &regions), Err(Error::EmptyName));
}

#[test]
fn validate_with_secrets_needs_no_store() {
    let services = vec!["svc".to_string()];
    let regions = vec!["dev-uk".to_string()];
    let mut mf = service();
    mf.env = env(vec![("TOKEN", "IN_VAULT"), ("KEY", "IN_KUBE_SECRETS")]);
    assert_eq!(validate(vec![case(mf.clone(), "dev-uk")], true, &services, &regions), Ok(()));
    assert_eq!(validate(vec![case(mf.clone(), "dev-uk")], false, &services, &regions), Ok(()));
    mf.env = env(vec![("KEY", "IN_KUBE_SECRETS:")]);
    assert_eq!(
        validate(vec![case(mf.clone(), "dev-uk")], true, &services, &regions),
        Err(Error::InvalidKeyPath(0))
    );
    assert_eq!(validate(vec![case(mf, "dev-uk")], false, &services, &regions), Ok(()));
}
