use shipcat::error::{Category, Error};
use shipcat::manifest::{
    ConfigMap, ConfigMappedFile, Dependency, HealthCheck, InitContainer, Manifest, ResourceLimit,
    ResourceRequest, Resources,
};
use shipcat::quantity::{parse_cpu, parse_memory, scaled, Quantity};
use shipcat::validation::{
    api_version_ok, check_init_container, check_resources, contains_name, Warning,
};

fn resources(req_cpu: &str, req_mem: &str, lim_cpu: &str, lim_mem: &str) -> Option<Resources> {
    Some(Resources {
        requests: Some(ResourceRequest { cpu: req_cpu.into(), memory: req_mem.into() }),
        limits: Some(ResourceLimit { cpu: lim_cpu.into(), memory: lim_mem.into() }),
    })
}

fn valid() -> Manifest {
    let mut mf = Manifest::new("svc", "services/svc/shipcat.yml");
    mf.resources = resources("100m", "512Mi", "1", "1Gi");
    mf.regions = vec!["dev-uk".to_string()];
    mf
}

fn known() -> (Vec<String>, Vec<String>) {
    (vec!["svc".to_string(), "other".to_string()], vec!["dev-uk".to_string()])
}

fn check(mf: &Manifest) -> Result<(), Error> {
    let (services, regions) = known();
    mf.verify(&services, &regions)
}

#[test]
fn cpu_request_above_limit_fails() {
    let mut mf = valid();
    mf.resources = resources("2000m", "512Mi", "1", "1Gi");
    assert_eq!(check(&mf), Err(Error::CpuRequestAboveLimit));
}

#[test]
fn memory_request_below_limit_passes() {
    let mut mf = valid();
    mf.resources = resources("500m", "512Mi", "1", "1Gi");
    assert_eq!(check(&mf), Ok(()));
}

#[test]
fn memory_request_above_limit_fails() {
    let mut mf = valid();
    mf.resources = resources("500m", "2Gi", "1", "1Gi");
    assert_eq!(check(&mf), Err(Error::MemoryRequestAboveLimit));
}

#[test]
fn cpu_amounts() {
    assert_eq!(parse_cpu("2000m"), Ok(Quantity { num: 2000, scale: 3 }));
    assert_eq!(parse_cpu("1"), Ok(Quantity { num: 1, scale: 0 }));
    assert_eq!(parse_cpu("2k"), Ok(Quantity { num: 2000, scale: 0 }));
    assert_eq!(parse_cpu("0.5"), Ok(Quantity { num: 5, scale: 1 }));
    assert_eq!(parse_cpu("1.25"), Ok(Quantity { num: 125, scale: 2 }));
    assert_eq!(parse_cpu(".5"), Ok(Quantity { num: 5, scale: 1 }));
    assert_eq!(parse_cpu("5."), Ok(Quantity { num: 5, scale: 0 }));
    assert_eq!(parse_cpu("1.5m"), Ok(Quantity { num: 15, scale: 4 }));
    assert_eq!(parse_cpu("0"), Ok(Quantity { num: 0, scale: 0 }));
}

#[test]
fn memory_amounts() {
    assert_eq!(parse_memory("512Mi"), Ok(Quantity { num: 536870912, scale: 0 }));
    assert_eq!(parse_memory("1Gi"), Ok(Quantity { num: 1073741824, scale: 0 }));
    assert_eq!(parse_memory("3Ki"), Ok(Quantity { num: 3 * 1024, scale: 0 }));
    assert_eq!(parse_memory("3k"), Ok(Quantity { num: 3000, scale: 0 }));
    assert_eq!(parse_memory("3M"), Ok(Quantity { num: 3_000_000, scale: 0 }));
    assert_eq!(parse_memory("3G"), Ok(Quantity { num: 3_000_000_000, scale: 0 }));
    assert_eq!(parse_memory("1024"), Ok(Quantity { num: 1024, scale: 0 }));
    assert_eq!(parse_memory("1.5Gi"), Ok(Quantity { num: 15 * 1024 * 1024 * 1024, scale: 1 }));
}

#[test]
fn long_numbers_are_weighed() {
    assert_eq!(parse_memory("1000000000000"), Ok(Quantity { num: 1_000_000_000_000, scale: 0 }));
    assert_eq!(parse_memory("1234567890123"), Ok(Quantity { num: 1_234_567_890_123, scale: 0 }));
    assert_eq!(
        parse_memory("1000000000000Gi"),
        Ok(Quantity { num: 1_000_000_000_000 * 1_073_741_824, scale: 0 })
    );
    assert_eq!(
        parse_memory("340282366920938463463374607431768211455"),
        Ok(Quantity { num: u128::MAX, scale: 0 })
    );
    assert_eq!(
        parse_cpu("0.123456789012345678901234567890123456"),
        Ok(Quantity { num: 123456789012345678901234567890123456, scale: 36 })
    );
}

#[test]
fn zeros_that_do_not_count() {
    let zeros = "0".repeat(100);
    assert_eq!(parse_cpu(&format!("{}1", zeros)), Ok(Quantity { num: 1, scale: 0 }));
    assert_eq!(parse_cpu(&format!("1.5{}", zeros)), Ok(Quantity { num: 15, scale: 1 }));
    assert_eq!(parse_cpu(&format!("2.{}", zeros)), Ok(Quantity { num: 2, scale: 0 }));
    assert_eq!(parse_cpu(&format!("{}.{}", zeros, zeros)), Ok(Quantity { num: 0, scale: 0 }));
    assert_eq!(parse_cpu(&format!("0.{}1", zeros)), Ok(Quantity { num: 1, scale: 101 }));
    assert_eq!(parse_cpu("1.050"), Ok(Quantity { num: 105, scale: 2 }));
    assert_eq!(parse_cpu("10.0m"), Ok(Quantity { num: 10, scale: 3 }));
    assert_eq!(parse_memory(&format!("{}512.{}Mi", zeros, zeros)), Ok(Quantity { num: 536870912, scale: 0 }));
}

#[test]
fn amounts_that_are_turned_away() {
    assert_eq!(parse_cpu(""), Err(Error::InvalidNumber));
    assert_eq!(parse_cpu("m"), Err(Error::InvalidNumber));
    assert_eq!(parse_cpu("."), Err(Error::InvalidNumber));
    assert_eq!(parse_cpu("1.2.3"), Err(Error::InvalidNumber));
    assert_eq!(parse_cpu("1Mi"), Err(Error::UnknownUnit));
    assert_eq!(parse_cpu("1 m"), Err(Error::UnknownUnit));
    assert_eq!(parse_memory("1m"), Err(Error::UnknownUnit));
    assert_eq!(parse_memory("1GiB"), Err(Error::UnknownUnit));
    assert_eq!(parse_memory("x1"), Err(Error::InvalidNumber));
}

#[test]
fn amounts_beyond_128_bits() {
    assert_eq!(
        parse_memory("340282366920938463463374607431768211456"),
        Err(Error::NumberTooLarge)
    );
    assert_eq!(
        parse_memory("340282366920938463463374607431768211455k"),
        Err(Error::NumberTooLarge)
    );
    assert_eq!(parse_cpu(&"9".repeat(60)), Err(Error::NumberTooLarge));
    assert_eq!(parse_cpu(&format!("0.{}", "1".repeat(40))), Err(Error::NumberTooLarge));
    assert_eq!(parse_cpu(&format!("{}x", "9".repeat(60))), Err(Error::UnknownUnit));
    assert_eq!(parse_cpu(&format!("{}.1.", "9".repeat(60))), Err(Error::InvalidNumber));
}

#[test]
fn amounts_compare_as_fractions() {
    let half = parse_cpu("500m").unwrap();
    let also_half = parse_cpu("0.5").unwrap();
    let one = parse_cpu("1").unwrap();
    assert!(half.le(&also_half));
    assert!(also_half.le(&half));
    assert!(half.le(&one));
    assert!(!one.le(&half));
    assert!(one.exceeds(0));
    assert!(!one.exceeds(1));
    assert!(half.exceeds(0));
    assert!(!parse_cpu("0").unwrap().exceeds(0));
    let tiny = Quantity { num: 1, scale: 200 };
    let huge = Quantity { num: u128::MAX, scale: 0 };
    assert!(tiny.le(&huge));
    assert!(!huge.le(&tiny));
    assert!(tiny.le(&tiny));
    assert!(huge.le(&huge));
    assert!(tiny.exceeds(0));
    assert!(!tiny.exceeds(1));
    assert!(huge.exceeds(u64::MAX));
    assert!(!Quantity { num: 0, scale: u128::MAX }.exceeds(0));
    assert!(Quantity { num: 0, scale: u128::MAX }.le(&tiny));
    assert!(!Quantity { num: 3, scale: 1 }.le(&Quantity { num: 29, scale: 2 }));
    assert!(Quantity { num: 3, scale: 1 }.le(&Quantity { num: 30, scale: 2 }));
}

#[test]
fn resource_ceilings() {
    assert_eq!(check_resources(&resources("10", "1Gi", "20", "2Gi")), Ok(()));
    assert_eq!(
        check_resources(&resources("10001m", "1Gi", "20", "2Gi")),
        Err(Error::CpuRequestTooHigh)
    );
    assert_eq!(check_resources(&resources("1", "10Gi", "2", "20Gi")), Ok(()));
    assert_eq!(
        check_resources(&resources("1", "10241Mi", "2", "20Gi")),
        Err(Error::MemoryRequestTooHigh)
    );
    assert_eq!(
        check_resources(&resources("1", "1Gi", "20001m", "2Gi")),
        Err(Error::CpuLimitTooHigh)
    );
    assert_eq!(
        check_resources(&resources("1", "1Gi", "2", "21Gi")),
        Err(Error::MemoryLimitTooHigh)
    );
}

#[test]
fn resources_must_be_declared_and_readable() {
    assert_eq!(check_resources(&None), Err(Error::MissingResources));
    assert_eq!(
        check_resources(&Some(Resources { requests: None, limits: None })),
        Err(Error::MissingResources)
    );
    assert_eq!(check_resources(&resources("1", "lots", "2", "1Gi")), Err(Error::InvalidNumber));
    assert_eq!(check_resources(&resources("1", "1Gi", "2x", "1Gi")), Err(Error::UnknownUnit));
}

#[test]
fn name_must_not_be_empty() {
    let mut mf = valid();
    mf.name = String::new();
    assert_eq!(check(&mf), Err(Error::EmptyName));
}

#[test]
fn config_mount_checks() {
    let config = |mount: &str, files: Vec<&str>| {
        Some(ConfigMap {
            name: Some("svc-config".into()),
            mount: mount.into(),
            files: files
                .into_iter()
                .map(|f| ConfigMappedFile { name: f.into(), dest: "out".into() })
                .collect(),
        })
    };
    let mut mf = valid();
    mf.configs = config("/config/", vec!["a.j2", "b.yml.j2"]);
    assert_eq!(check(&mf), Ok(()));
    mf.configs = config("", vec![]);
    assert_eq!(check(&mf), Err(Error::EmptyMountPath));
    mf.configs = config("~", vec![]);
    assert_eq!(check(&mf), Err(Error::EmptyMountPath));
    mf.configs = config("/config", vec![]);
    assert_eq!(check(&mf), Err(Error::MountPathWithoutSlash));
    mf.configs = config("/config/", vec!["a.j2", "b.yml", "c.txt"]);
    assert_eq!(check(&mf), Err(Error::ConfigFileNotTemplate(1)));
}

#[test]
fn dependency_checks() {
    let dep = |name: &str, api: Option<&str>| Dependency { name: name.into(), api: api.map(|a| a.into()) };
    let mut mf = valid();
    mf.dependencies = vec![dep("other", Some("v1")), dep("svc", Some("2"))];
    assert_eq!(check(&mf), Ok(()));
    mf.dependencies = vec![dep("other", Some("v1")), dep("nobody", Some("v1"))];
    assert_eq!(check(&mf), Err(Error::UnknownDependency(1)));
    mf.dependencies = vec![dep("other", None)];
    assert_eq!(check(&mf), Err(Error::MissingApiVersion(0)));
    mf.dependencies = vec![dep("other", Some("one"))];
    assert_eq!(check(&mf), Err(Error::InvalidApiVersion(0)));
}

#[test]
fn api_versions() {
    assert!(api_version_ok("v1"));
    assert!(api_version_ok("1"));
    assert!(api_version_ok("v+12"));
    assert!(api_version_ok("v0"));
    assert!(api_version_ok("18446744073709551615"));
    assert!(!api_version_ok("18446744073709551616"));
    assert!(!api_version_ok("v"));
    assert!(!api_version_ok(""));
    assert!(!api_version_ok("vv1"));
    assert!(!api_version_ok("v1.0"));
    assert!(!api_version_ok("v-1"));
    assert!(!api_version_ok("+"));
}

#[test]
fn region_checks() {
    let mut mf = valid();
    mf.regions = vec![];
    assert_eq!(check(&mf), Err(Error::NoRegions));
    mf.regions = vec!["dev-uk".to_string(), "mars-north".to_string()];
    assert_eq!(check(&mf), Err(Error::UnsupportedRegion(1)));
}

#[test]
fn init_container_checks() {
    let init = |image: &str, command: Vec<&str>| InitContainer {
        name: "init".into(),
        image: image.into(),
        command: command.into_iter().map(|c| c.to_string()).collect(),
    };
    let mut mf = valid();
    mf.init_containers = vec![init("registry/name:1", vec!["run"])];
    assert_eq!(check(&mf), Ok(()));
    mf.init_containers = vec![init("busybox", vec!["run"]), init("1234", vec!["run"])];
    assert_eq!(check(&mf), Err(Error::InitContainerImage(1)));
    mf.init_containers = vec![init("busybox", vec![])];
    assert_eq!(check(&mf), Err(Error::InitContainerCommand(0)));
}

#[test]
fn init_container_outcomes() {
    let c = InitContainer { name: "i".into(), image: "x".into(), command: vec!["run".into()] };
    assert_eq!(check_init_container(&c, 3, None), Err(Error::BadPattern));
    assert_eq!(check_init_container(&c, 3, Some(false)), Err(Error::InitContainerImage(3)));
    assert_eq!(check_init_container(&c, 3, Some(true)), Ok(()));
    let c = InitContainer { name: "i".into(), image: "x".into(), command: vec![] };
    assert_eq!(check_init_container(&c, 3, Some(true)), Err(Error::InitContainerCommand(3)));
}

#[test]
fn health_check_is_needed_with_a_port() {
    let mut mf = valid();
    mf.httpPort = Some(8080);
    assert_eq!(check(&mf), Err(Error::MissingHealthCheck));
    mf.health = Some(HealthCheck { uri: "/health".into(), wait: 30, port: "http".into() });
    assert_eq!(check(&mf), Ok(()));
    mf.httpPort = None;
    assert_eq!(check(&mf), Ok(()));
    mf.health = None;
    assert_eq!(check(&mf), Ok(()));
}

#[test]
fn checks_fail_in_order() {
    let mut mf = valid();
    mf.resources = resources("2", "512Mi", "1", "1Gi");
    mf.regions = vec![];
    mf.httpPort = Some(80);
    assert_eq!(check(&mf), Err(Error::CpuRequestAboveLimit));
    mf.name = String::new();
    assert_eq!(check(&mf), Err(Error::EmptyName));
}

#[test]
fn names_are_found_in_lists() {
    let list = vec!["a".to_string(), "b".to_string()];
    assert!(contains_name(&list, "b"));
    assert!(!contains_name(&list, "c"));
    assert!(!contains_name(&vec![], "a"));
}

#[test]
fn remarks_are_no_failures() {
    let mut mf = valid();
    assert_eq!(check(&mf), Ok(()));
    assert_eq!(mf.warnings(), vec![Warning::NoConfigs, Warning::NoHttpPort, Warning::NoHealthCheck]);
    mf.httpPort = Some(80);
    mf.health = Some(HealthCheck { uri: "/health".into(), wait: 30, port: "http".into() });
    assert_eq!(mf.warnings(), vec![Warning::NoConfigs]);
    mf.configs = Some(ConfigMap { name: None, mount: "/c/".into(), files: vec![] });
    assert_eq!(mf.warnings(), vec![]);
}

#[test]
fn single_checks() {
    let (services, _) = known();
    let dep = Dependency { name: "other".into(), api: Some("v3".into()) };
    assert_eq!(shipcat::validation::check_dependency(&dep, 4, &services), Ok(()));
    let dep = Dependency { name: "nobody".into(), api: Some("v3".into()) };
    assert_eq!(
        shipcat::validation::check_dependency(&dep, 4, &services),
        Err(Error::UnknownDependency(4))
    );
    assert_eq!(shipcat::validation::check_configs(&None), Ok(()));
    let one = Quantity { num: 1, scale: 0 };
    let two = Quantity { num: 2, scale: 0 };
    assert_eq!(shipcat::validation::check_amounts(&one, &two, &one, &two), Ok(()));
    assert_eq!(
        shipcat::validation::check_amounts(&two, &one, &one, &two),
        Err(Error::CpuRequestAboveLimit)
    );
    assert_eq!(
        shipcat::validation::check_amounts(&one, &two, &two, &one),
        Err(Error::MemoryRequestAboveLimit)
    );
}

#[test]
fn failures_in_words() {
    assert_eq!(Error::EmptyName.message(), "Name cannot be empty");
    assert_eq!(Error::CpuRequestAboveLimit.message(), "Requested more CPU than what was limited");
    assert_eq!(Error::UnknownDependency(3).message(), "Dependency does not exist in services/");
    assert_eq!(Error::UnknownDependency(3).position(), Some(3));
    assert_eq!(Error::InvalidKeyPath(0).position(), Some(0));
    assert_eq!(Error::EmptyName.position(), None);
    assert_eq!(Error::MissingAuditRevision.message(), "SHIPCAT_AUDIT_REVISION not specified");
}

#[test]
fn failures_by_kind() {
    assert_eq!(Error::EmptyName.category(), Category::Validation);
    assert_eq!(Error::CpuLimitTooHigh.category(), Category::Validation);
    assert_eq!(Error::NotSemver.category(), Category::Validation);
    assert_eq!(Error::InvalidKeyPath(2).category(), Category::Config);
    assert_eq!(Error::InvalidRegion.category(), Category::Config);
    assert_eq!(Error::AuthConflict.category(), Category::Config);
    assert_eq!(Error::SecretNotFound(1).category(), Category::Secret);
    assert_eq!(Error::WebhookSecretNotFound.category(), Category::Secret);
}

#[test]
fn powers_of_ten() {
    assert_eq!(scaled(7, 0), Some(7));
    assert_eq!(scaled(7, 3), Some(7000));
    assert_eq!(scaled(0, u128::MAX), Some(0));
    assert_eq!(scaled(1, 38), Some(100_000_000_000_000_000_000_000_000_000_000_000_000));
    assert_eq!(scaled(1, 39), None);
    assert_eq!(scaled(4, 38), None);
    assert_eq!(scaled(3, 38), Some(300_000_000_000_000_000_000_000_000_000_000_000_000));
    assert_eq!(scaled(1, u128::MAX), None);
}
