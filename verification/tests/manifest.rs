use shipcat::keyed::StringMap;
use shipcat::manifest::{
    health_check_url_default, health_check_wait_time_default, health_port_name_default,
    replica_count_default, volume_default_mode, volume_key, volume_mount_read_only, ConfigMap,
    Dependency, Image, InitContainer, Manifest, Volume, VolumeMount,
};
use std::collections::BTreeMap;

fn env_of(m: &Manifest) -> BTreeMap<String, String> {
    m.env.clone().into_entries().into_iter().map(|e| (e.key, e.value)).collect()
}

fn with_env(name: &str, pairs: Vec<(&str, &str)>) -> Manifest {
    let mut mf = Manifest::new(name, "");
    let mut env = StringMap::new();
    for (k, v) in pairs {
        env.insert(k.to_string(), v.to_string());
    }
    mf.env = env;
    mf
}

#[test]
fn defaults() {
    assert!(!volume_mount_read_only());
    assert_eq!(volume_key(), "value");
    assert_eq!(volume_default_mode(), 0o644);
    assert_eq!(health_check_url_default(), "/health");
    assert_eq!(health_check_wait_time_default(), 30);
    assert_eq!(health_port_name_default(), "http");
    assert_eq!(replica_count_default(), 2);
}

#[test]
fn new_manifest_has_name_and_path_only() {
    let mf = Manifest::new("svc", "services/svc/shipcat.yml");
    assert_eq!(mf.name, "svc");
    assert_eq!(mf._path, "services/svc/shipcat.yml");
    assert!(mf.image.is_none());
    assert!(mf.env.is_empty());
    assert!(mf.regions.is_empty());
    assert!(!mf.disabled);
}

#[test]
fn image_reference() {
    let image = |repo: Option<&str>, tag: Option<&str>| Image {
        name: Some("svc".into()),
        repository: repo.map(|s| s.to_string()),
        tag: tag.map(|s| s.to_string()),
    };
    assert_eq!(image(None, None).to_string(), "svc:latest");
    assert_eq!(image(Some(""), None).to_string(), "svc:latest");
    assert_eq!(image(Some("quay.io/org"), Some("1.2.3")).to_string(), "quay.io/org/svc:1.2.3");
    assert_eq!(image(None, Some("abc")).to_string(), "svc:abc");
}

#[test]
fn implicits_fill_image_config_name_and_api() {
    let mut mf = Manifest::new("svc", "");
    mf.configs = Some(ConfigMap { name: None, mount: "/config/".into(), files: vec![] });
    mf.dependencies = vec![
        Dependency { name: "a".into(), api: None },
        Dependency { name: "b".into(), api: Some("v2".into()) },
    ];
    assert!(mf.implicits().is_ok());
    let image = mf.image.clone().unwrap();
    assert_eq!(image.name, Some("svc".to_string()));
    assert_eq!(image.repository, None);
    assert_eq!(image.tag, None);
    assert_eq!(mf.configs.clone().unwrap().name, Some("svc-config".to_string()));
    assert_eq!(mf.configs.clone().unwrap().mount, "/config/");
    assert_eq!(mf.dependencies[0].name, "a");
    assert_eq!(mf.dependencies[0].api, Some("v1".to_string()));
    assert_eq!(mf.dependencies[1].name, "b");
    assert_eq!(mf.dependencies[1].api, Some("v2".to_string()));
}

#[test]
fn implicits_keep_what_is_set() {
    let mut mf = Manifest::new("svc", "");
    mf.image = Some(Image { name: Some("other".into()), repository: Some("r".into()), tag: None });
    mf.configs = Some(ConfigMap { name: Some("mine".into()), mount: "/c/".into(), files: vec![] });
    mf.implicits().unwrap();
    let image = mf.image.clone().unwrap();
    assert_eq!(image.name, Some("other".to_string()));
    assert_eq!(image.repository, Some("r".to_string()));
    assert_eq!(mf.configs.clone().unwrap().name, Some("mine".to_string()));
}

#[test]
fn basic_applies_implicits() {
    let mf = Manifest::basic(Manifest::new("svc", "p")).unwrap();
    assert_eq!(mf.image.unwrap().name, Some("svc".to_string()));
    assert_eq!(mf._path, "p");
}

#[test]
fn gaps_in_env_are_filled_and_set_values_stay() {
    let mut mf = with_env("svc", vec![("A", "mine"), ("B", "mine")]);
    let over = with_env("ignored", vec![("B", "theirs"), ("C", "theirs")]);
    mf.merge(over).unwrap();
    let env = env_of(&mf);
    assert_eq!(env.len(), 3);
    assert_eq!(env["A"], "mine");
    assert_eq!(env["B"], "mine");
    assert_eq!(env["C"], "theirs");
    assert_eq!(mf.name, "svc");
}

#[test]
fn gaps_in_image_are_filled() {
    let mut mf = Manifest::new("svc", "");
    mf.implicits().unwrap();
    let mut over = Manifest::new("", "");
    over.image = Some(Image {
        name: Some("not-taken".into()),
        repository: Some("quay.io/org".into()),
        tag: Some("1.0".into()),
    });
    mf.merge(over).unwrap();
    let image = mf.image.clone().unwrap();
    assert_eq!(image.name, Some("svc".to_string()));
    assert_eq!(image.repository, Some("quay.io/org".to_string()));
    assert_eq!(image.tag, Some("1.0".to_string()));

    let mut again = Manifest::new("", "");
    again.image = Some(Image { name: None, repository: Some("other".into()), tag: Some("2.0".into()) });
    mf.merge(again).unwrap();
    let image = mf.image.clone().unwrap();
    assert_eq!(image.repository, Some("quay.io/org".to_string()));
    assert_eq!(image.tag, Some("1.0".to_string()));
}

#[test]
fn lists_are_taken_whole_only_where_empty() {
    let mount = |n: &str| VolumeMount { name: n.into(), mount_path: "/m".into(), sub_path: None, read_only: false };
    let init = |n: &str| InitContainer { name: n.into(), image: "i".into(), command: vec![] };
    let volume = |n: &str| Volume { name: n.into(), projected: None, secret: None };

    let mut mf = Manifest::new("svc", "");
    mf.volume_mounts = vec![mount("mine")];
    let mut over = Manifest::new("", "");
    over.volume_mounts = vec![mount("a"), mount("b")];
    over.init_containers = vec![init("x")];
    over.volumes = vec![volume("v1"), volume("v2")];
    mf.merge(over).unwrap();
    assert_eq!(mf.volume_mounts.len(), 1);
    assert_eq!(mf.volume_mounts[0].name, "mine");
    assert_eq!(mf.init_containers.len(), 1);
    assert_eq!(mf.init_containers[0].name, "x");
    assert_eq!(mf.volumes.len(), 2);
    assert_eq!(mf.volumes[1].name, "v2");
}

#[test]
fn implicits_name_an_unnamed_image() {
    let mut mf = Manifest::new("svc", "");
    mf.image = Some(Image { name: None, repository: Some("quay.io/org".into()), tag: Some("1.0".into()) });
    mf.implicits().unwrap();
    let image = mf.image.clone().unwrap();
    assert_eq!(image.name, Some("svc".to_string()));
    assert_eq!(image.repository, Some("quay.io/org".to_string()));
    assert_eq!(image.tag, Some("1.0".to_string()));
    assert_eq!(image.to_string(), "quay.io/org/svc:1.0");
}

#[test]
fn implicits_twice_change_nothing_more() {
    let mut mf = Manifest::new("svc", "");
    mf.image = Some(Image { name: None, repository: None, tag: Some("1.0".into()) });
    mf.configs = Some(ConfigMap { name: None, mount: "/config/".into(), files: vec![] });
    mf.dependencies = vec![Dependency { name: "a".into(), api: None }];
    mf.implicits().unwrap();
    let once = format!("{:?}", mf);
    mf.implicits().unwrap();
    assert_eq!(format!("{:?}", mf), once);
    mf.name = "renamed".into();
    mf.implicits().unwrap();
    assert_eq!(mf.image.clone().unwrap().name, Some("svc".to_string()));
    assert_eq!(mf.configs.clone().unwrap().name, Some("svc-config".to_string()));
}
