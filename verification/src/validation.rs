//! The checks that a resolved manifest has to pass.
use vstd::prelude::*;
use crate::error::Error;
use crate::manifest::{ConfigMap, ConfigMappedFile, Dependency, InitContainer, Manifest, Resources};
use crate::patterns::{pattern_found, search};
use crate::quantity::{cpu_of, is_digit, memory_of, parse_cpu, parse_memory, Quantity};
use crate::text::{chars_of, ends_with, same_text};

verus! {

/// The shape that the image of an init container must show somewhere:
/// `registry/name:tag`, registry and tag optional.
pub const IMAGE_PATTERN: &'static str = "(?:[a-z]+/)?([a-z]+)(?::[0-9]+)?";

/// The most cores that may be requested.
pub const MAX_CPU_REQUEST: u64 = 10;

/// The highest CPU limit, in cores.
pub const MAX_CPU_LIMIT: u64 = 20;

/// The most memory that may be requested, in bytes: ten GiB.
pub const MAX_MEMORY_REQUEST: u64 = 10_737_418_240;

/// The highest memory limit, in bytes: twenty GiB.
pub const MAX_MEMORY_LIMIT: u64 = 21_474_836_480;

/// The outcome of checking the elements of `xs` in order: the failure of the
/// first element that fails.
pub open spec fn first_error<T>(
    xs: Seq<T>,
    check: spec_fn(T, int) -> Result<(), Error>,
) -> Result<(), Error>
    decreases xs.len(),
{
    if xs.len() == 0 {
        Ok(())
    } else {
        match first_error(xs.drop_last(), check) {
            Err(e) => Err(e),
            Ok(()) => check(xs.last(), xs.len() - 1),
        }
    }
}

/// A failure among the first `k` elements is the failure of the whole.
pub proof fn lemma_first_error_prefix<T>(
    xs: Seq<T>,
    check: spec_fn(T, int) -> Result<(), Error>,
    k: int,
)
    requires
        0 <= k <= xs.len(),
        first_error(xs.take(k), check) is Err,
    ensures
        first_error(xs, check) == first_error(xs.take(k), check),
    decreases xs.len() - k,
{
    if k < xs.len() {
        assert(xs.take(k + 1).drop_last() =~= xs.take(k));
        lemma_first_error_prefix(xs, check, k + 1);
    } else {
        assert(xs.take(k) =~= xs);
    }
}

/// The texts of a list of strings.
pub open spec fn names(list: Seq<String>) -> Seq<Seq<char>> {
    list.map_values(|s: String| s@)
}

/// Whether `name` is in `list`.
pub fn contains_name(list: &Vec<String>, name: &str) -> (r: bool)
    ensures
        r == names(list@).contains(name@),
{
    let mut i: usize = 0;
    while i < list.len()
        invariant
            i <= list.len(),
            forall|j: int| 0 <= j < i ==> names(list@)[j] != name@,
        decreases list.len() - i,
    {
        if same_text(list[i].as_str(), name) {
            assert(names(list@)[i as int] == name@);
            return true;
        }
        i += 1;
    }
    false
}

/// The outcome of checking requests against limits: both must be declared
/// and readable, no request may exceed its limit, and none may exceed its
/// ceiling.
pub open spec fn resources_outcome(resources: Option<Resources>) -> Result<(), Error> {
    match resources {
        None => Err(Error::MissingResources),
        Some(res) => match (res.requests, res.limits) {
            (Some(req), Some(lim)) => match memory_of(req.memory@) {
                Err(e) => Err(e),
                Ok(req_memory) => match memory_of(lim.memory@) {
                    Err(e) => Err(e),
                    Ok(lim_memory) => match cpu_of(req.cpu@) {
                        Err(e) => Err(e),
                        Ok(req_cpu) => match cpu_of(lim.cpu@) {
                            Err(e) => Err(e),
                            Ok(lim_cpu) => amounts_outcome(
                                req_cpu,
                                lim_cpu,
                                req_memory,
                                lim_memory,
                            ),
                        },
                    },
                },
            },
            _ => Err(Error::MissingResources),
        },
    }
}

/// The outcome of weighing requests against limits and ceilings.
pub open spec fn amounts_outcome(
    req_cpu: Quantity,
    lim_cpu: Quantity,
    req_memory: Quantity,
    lim_memory: Quantity,
) -> Result<(), Error> {
    if !req_cpu.le_spec(lim_cpu) {
        Err(Error::CpuRequestAboveLimit)
    } else if !req_memory.le_spec(lim_memory) {
        Err(Error::MemoryRequestAboveLimit)
    } else if req_cpu.exceeds_spec(MAX_CPU_REQUEST) {
        Err(Error::CpuRequestTooHigh)
    } else if req_memory.exceeds_spec(MAX_MEMORY_REQUEST) {
        Err(Error::MemoryRequestTooHigh)
    } else if lim_cpu.exceeds_spec(MAX_CPU_LIMIT) {
        Err(Error::CpuLimitTooHigh)
    } else if lim_memory.exceeds_spec(MAX_MEMORY_LIMIT) {
        Err(Error::MemoryLimitTooHigh)
    } else {
        Ok(())
    }
}

/// Weighs requests against limits and ceilings.
pub fn check_amounts(
    req_cpu: &Quantity,
    lim_cpu: &Quantity,
    req_memory: &Quantity,
    lim_memory: &Quantity,
) -> (r: Result<(), Error>)
    ensures
        r == amounts_outcome(*req_cpu, *lim_cpu, *req_memory, *lim_memory),
{
    if !req_cpu.le(lim_cpu) {
        Err(Error::CpuRequestAboveLimit)
    } else if !req_memory.le(lim_memory) {
        Err(Error::MemoryRequestAboveLimit)
    } else if req_cpu.exceeds(MAX_CPU_REQUEST) {
        Err(Error::CpuRequestTooHigh)
    } else if req_memory.exceeds(MAX_MEMORY_REQUEST) {
        Err(Error::MemoryRequestTooHigh)
    } else if lim_cpu.exceeds(MAX_CPU_LIMIT) {
        Err(Error::CpuLimitTooHigh)
    } else if lim_memory.exceeds(MAX_MEMORY_LIMIT) {
        Err(Error::MemoryLimitTooHigh)
    } else {
        Ok(())
    }
}

/// Checks requests against limits.
pub fn check_resources(resources: &Option<Resources>) -> (r: Result<(), Error>)
    ensures
        r == resources_outcome(*resources),
{
    let res = match resources {
        None => {
            return Err(Error::MissingResources);
        },
        Some(res) => res,
    };
    let (req, lim) = match (&res.requests, &res.limits) {
        (Some(req), Some(lim)) => (req, lim),
        _ => {
            return Err(Error::MissingResources);
        },
    };
    let req_memory = match parse_memory(req.memory.as_str()) {
        Ok(q) => q,
        Err(e) => {
            return Err(e);
        },
    };
    let lim_memory = match parse_memory(lim.memory.as_str()) {
        Ok(q) => q,
        Err(e) => {
            return Err(e);
        },
    };
    let req_cpu = match parse_cpu(req.cpu.as_str()) {
        Ok(q) => q,
        Err(e) => {
            return Err(e);
        },
    };
    let lim_cpu = match parse_cpu(lim.cpu.as_str()) {
        Ok(q) => q,
        Err(e) => {
            return Err(e);
        },
    };
    check_amounts(&req_cpu, &lim_cpu, &req_memory, &lim_memory)
}

/// The outcome of checking one config file: its name must end with the
/// template extension.
pub open spec fn file_outcome(f: ConfigMappedFile, at: int) -> Result<(), Error> {
    if ".j2"@.is_suffix_of(f.name@) {
        Ok(())
    } else {
        Err(Error::ConfigFileNotTemplate(at as usize))
    }
}

/// The outcome of checking the config mount, if one is declared: its path
/// must not be empty or `~`, must end with a slash, and every file must be a
/// template.
pub open spec fn configs_outcome(configs: Option<ConfigMap>) -> Result<(), Error> {
    match configs {
        None => Ok(()),
        Some(c) => if c.mount@ == ""@ || c.mount@ == "~"@ {
            Err(Error::EmptyMountPath)
        } else if !"/"@.is_suffix_of(c.mount@) {
            Err(Error::MountPathWithoutSlash)
        } else {
            first_error(c.files@, |f: ConfigMappedFile, at: int| file_outcome(f, at))
        },
    }
}

/// Checks the config mount.
pub fn check_configs(configs: &Option<ConfigMap>) -> (r: Result<(), Error>)
    ensures
        r == configs_outcome(*configs),
{
    let c = match configs {
        None => {
            return Ok(());
        },
        Some(c) => c,
    };
    if same_text(c.mount.as_str(), "") || same_text(c.mount.as_str(), "~") {
        return Err(Error::EmptyMountPath);
    }
    if !ends_with(c.mount.as_str(), "/") {
        return Err(Error::MountPathWithoutSlash);
    }
    let ghost check = |f: ConfigMappedFile, at: int| file_outcome(f, at);
    let mut i: usize = 0;
    assert(c.files@.take(0) =~= Seq::<ConfigMappedFile>::empty());
    assert(configs_outcome(*configs) == first_error(c.files@, check));
    while i < c.files.len()
        invariant
            i <= c.files.len(),
            configs_outcome(*configs) == first_error(c.files@, check),
            check == (|f: ConfigMappedFile, at: int| file_outcome(f, at)),
            first_error(c.files@.take(i as int), check) == Ok::<(), Error>(()),
        decreases c.files.len() - i,
    {
        proof {
            assert(c.files@.take(i + 1).drop_last() =~= c.files@.take(i as int));
            assert(c.files@.take(i + 1).last() == c.files@[i as int]);
        }
        if !ends_with(c.files[i].name.as_str(), ".j2") {
            proof {
                lemma_first_error_prefix(c.files@, check, i + 1);
            }
            return Err(Error::ConfigFileNotTemplate(i));
        }
        i += 1;
    }
    assert(c.files@.take(i as int) =~= c.files@);
    Ok(())
}

/// The number that the digits `ds` spell.
pub open spec fn decimal_value(ds: Seq<char>) -> nat
    decreases ds.len(),
{
    if ds.len() == 0 {
        0
    } else {
        decimal_value(ds.drop_last()) * 10 + (ds.last() as u32 - '0' as u32) as nat
    }
}

/// Whether `ds` is one or more digits that spell a number of at most 64 bits.
pub open spec fn is_natural(ds: Seq<char>) -> bool {
    &&& ds.len() > 0
    &&& forall|i: int| 0 <= i < ds.len() ==> is_digit(#[trigger] ds[i])
    &&& decimal_value(ds) <= u64::MAX
}

/// Whether `s` is a non-negative integer: digits, after an optional `+`.
pub open spec fn is_unsigned_number(s: Seq<char>) -> bool {
    if s.len() > 0 && s[0] == '+' {
        is_natural(s.skip(1))
    } else {
        is_natural(s)
    }
}

/// Whether `api` is an API version: a non-negative integer, after an
/// optional leading `v`.
pub open spec fn is_api_version(api: Seq<char>) -> bool {
    if api.len() > 0 && api[0] == 'v' {
        is_unsigned_number(api.skip(1))
    } else {
        is_unsigned_number(api)
    }
}

/// Whether the characters of `v` from `start` on are a natural number.
fn natural_from(v: &Vec<char>, start: usize) -> (r: bool)
    requires
        start <= v@.len(),
    ensures
        r == is_natural(v@.skip(start as int)),
{
    let ghost ds = v@.skip(start as int);
    if start == v.len() {
        return false;
    }
    let mut acc: u64 = 0;
    let mut i: usize = start;
    assert(ds.take(0) =~= Seq::<char>::empty());
    while i < v.len()
        invariant
            start <= i <= v.len(),
            ds == v@.skip(start as int),
            forall|j: int| 0 <= j < i - start ==> is_digit(#[trigger] ds[j]),
            acc == decimal_value(ds.take(i - start)),
        decreases v.len() - i,
    {
        let c = v[i];
        assert(ds[i - start] == c);
        proof {
            assert(ds.take(i - start + 1).drop_last() =~= ds.take(i - start));
            assert(ds.take(i - start + 1).last() == c);
        }
        if !('0' <= c && c <= '9') {
            return false;
        }
        let d: u64 = (c as u32 - '0' as u32) as u64;
        if acc > (u64::MAX - d) / 10 {
            proof {
                lemma_decimal_grows(ds, i - start + 1);
            }
            return false;
        }
        acc = acc * 10 + d;
        i += 1;
    }
    assert(ds.take(i - start) =~= ds);
    true
}

/// A number is at least any of its prefixes read as a number.
pub proof fn lemma_decimal_grows(ds: Seq<char>, k: int)
    requires
        0 <= k <= ds.len(),
        forall|j: int| 0 <= j < k ==> is_digit(#[trigger] ds[j]),
    ensures
        is_natural(ds) ==> decimal_value(ds.take(k)) <= decimal_value(ds),
    decreases ds.len() - k,
{
    if k < ds.len() {
        if is_natural(ds) {
            assert(is_digit(ds[k]));
            assert(ds.take(k + 1).drop_last() =~= ds.take(k));
            lemma_decimal_grows(ds, k + 1);
        }
    } else {
        assert(ds.take(k) =~= ds);
    }
}

/// Whether `api` is an API version.
pub fn api_version_ok(api: &str) -> (r: bool)
    ensures
        r == is_api_version(api@),
{
    let v = chars_of(api);
    let mut start: usize = 0;
    if v.len() > 0 && v[0] == 'v' {
        start = 1;
    }
    assert(v@.skip(0) =~= v@);
    let ghost rest = v@.skip(start as int);
    if start < v.len() && v[start] == '+' {
        assert(rest[0] == '+');
        assert(rest.skip(1) =~= v@.skip(start + 1));
        natural_from(&v, start + 1)
    } else {
        assert(!(rest.len() > 0 && rest[0] == '+'));
        natural_from(&v, start)
    }
}

/// The outcome of checking one dependency: it must name a known service and
/// carry an API version.
pub open spec fn dependency_outcome(d: Dependency, at: int, services: Seq<Seq<char>>) -> Result<
    (),
    Error,
> {
    if !services.contains(d.name@) {
        Err(Error::UnknownDependency(at as usize))
    } else {
        match d.api {
            None => Err(Error::MissingApiVersion(at as usize)),
            Some(api) => if is_api_version(api@) {
                Ok(())
            } else {
                Err(Error::InvalidApiVersion(at as usize))
            },
        }
    }
}

/// Checks the dependency at position `at`.
pub fn check_dependency(d: &Dependency, at: usize, services: &Vec<String>) -> (r: Result<
    (),
    Error,
>)
    ensures
        r == dependency_outcome(*d, at as int, names(services@)),
{
    if !contains_name(services, d.name.as_str()) {
        return Err(Error::UnknownDependency(at));
    }
    match &d.api {
        None => Err(Error::MissingApiVersion(at)),
        Some(api) => if api_version_ok(api.as_str()) {
            Ok(())
        } else {
            Err(Error::InvalidApiVersion(at))
        },
    }
}

/// The outcome of checking one region: it must have a defaults file.
pub open spec fn region_outcome(region: String, at: int, region_files: Seq<Seq<char>>) -> Result<
    (),
    Error,
> {
    if region_files.contains(region@) {
        Ok(())
    } else {
        Err(Error::UnsupportedRegion(at as usize))
    }
}

/// The outcome of checking one init container, given what the search for the
/// image shape in its image gave: the shape must be found, and the command
/// must not be empty.
pub open spec fn init_container_outcome(c: InitContainer, at: int, shape: Option<bool>) -> Result<
    (),
    Error,
> {
    match shape {
        None => Err(Error::BadPattern),
        Some(found) => if !found {
            Err(Error::InitContainerImage(at as usize))
        } else if c.command@.len() == 0 {
            Err(Error::InitContainerCommand(at as usize))
        } else {
            Ok(())
        },
    }
}

/// Checks the init container at position `at`, given what the search for the
/// image shape in its image gave.
pub fn check_init_container(c: &InitContainer, at: usize, shape: Option<bool>) -> (r: Result<
    (),
    Error,
>)
    ensures
        r == init_container_outcome(*c, at as int, shape),
{
    match shape {
        None => Err(Error::BadPattern),
        Some(found) => if !found {
            Err(Error::InitContainerImage(at))
        } else if c.command.len() == 0 {
            Err(Error::InitContainerCommand(at))
        } else {
            Ok(())
        },
    }
}

/// Something about a manifest that is worth a remark and is no failure.
#[derive(Clone, Copy, Debug, PartialEq, Eq, Structural)]
pub enum Warning {
    /// No config mount is declared.
    NoConfigs,
    /// No HTTP port is exposed.
    NoHttpPort,
    /// No health check is set.
    NoHealthCheck,
}

/// The check of one init container against the image shape.
pub open spec fn init_container_check() -> spec_fn(InitContainer, int) -> Result<(), Error> {
    |c: InitContainer, at: int|
        init_container_outcome(c, at, pattern_found(IMAGE_PATTERN@, c.image@))
}

impl Manifest {
    /// The outcome of validating the manifest, where `services` are the
    /// services that exist and `region_files` the regions that have a
    /// defaults file: the failure of the first check that fails, in the order
    /// name, resources, config mount, dependencies, regions, init containers,
    /// health check.
    pub open spec fn verify_outcome(
        self,
        services: Seq<Seq<char>>,
        region_files: Seq<Seq<char>>,
    ) -> Result<(), Error> {
        if self.name@ == ""@ {
            Err(Error::EmptyName)
        } else if resources_outcome(self.resources) is Err {
            resources_outcome(self.resources)
        } else if configs_outcome(self.configs) is Err {
            configs_outcome(self.configs)
        } else if first_error(
            self.dependencies@,
            |d: Dependency, at: int| dependency_outcome(d, at, services),
        ) is Err {
            first_error(
                self.dependencies@,
                |d: Dependency, at: int| dependency_outcome(d, at, services),
            )
        } else if first_error(
            self.regions@,
            |r: String, at: int| region_outcome(r, at, region_files),
        ) is Err {
            first_error(self.regions@, |r: String, at: int| region_outcome(r, at, region_files))
        } else if self.regions@.len() == 0 {
            Err(Error::NoRegions)
        } else if first_error(self.init_containers@, init_container_check()) is Err {
            first_error(self.init_containers@, init_container_check())
        } else if self.httpPort is Some && self.health is None {
            Err(Error::MissingHealthCheck)
        } else {
            Ok(())
        }
    }

    /// The remarks that the manifest earns: one for each of config mount,
    /// HTTP port and health check that is left out, in that order.
    pub open spec fn remarks(self) -> Seq<Warning> {
        (if self.configs is None {
            seq![Warning::NoConfigs]
        } else {
            Seq::empty()
        }) + (if self.httpPort is None {
            seq![Warning::NoHttpPort]
        } else {
            Seq::empty()
        }) + (if self.health is None {
            seq![Warning::NoHealthCheck]
        } else {
            Seq::empty()
        })
    }

    /// The remarks that the manifest earns. None of them fails a validation.
    pub fn warnings(&self) -> (w: Vec<Warning>)
        ensures
            w@ == self.remarks(),
    {
        let mut w: Vec<Warning> = Vec::new();
        if self.configs.is_none() {
            w.push(Warning::NoConfigs);
        }
        if self.httpPort.is_none() {
            w.push(Warning::NoHttpPort);
        }
        if self.health.is_none() {
            w.push(Warning::NoHealthCheck);
        }
        assert(w@ =~= self.remarks());
        w
    }

    /// Checks the dependencies.
    fn check_dependencies(&self, services: &Vec<String>) -> (r: Result<(), Error>)
        ensures
            r == first_error(
                self.dependencies@,
                |d: Dependency, at: int| dependency_outcome(d, at, names(services@)),
            ),
    {
        let ghost check = |d: Dependency, at: int| dependency_outcome(d, at, names(services@));
        let mut i: usize = 0;
        assert(self.dependencies@.take(0) =~= Seq::<Dependency>::empty());
        while i < self.dependencies.len()
            invariant
                i <= self.dependencies.len(),
                check == (|d: Dependency, at: int| dependency_outcome(d, at, names(services@))),
                first_error(self.dependencies@.take(i as int), check) == Ok::<(), Error>(()),
            decreases self.dependencies.len() - i,
        {
            proof {
                assert(self.dependencies@.take(i + 1).drop_last() =~= self.dependencies@.take(
                    i as int,
                ));
                assert(self.dependencies@.take(i + 1).last() == self.dependencies@[i as int]);
            }
            match check_dependency(&self.dependencies[i], i, services) {
                Ok(()) => {},
                Err(e) => {
                    proof {
                        lemma_first_error_prefix(self.dependencies@, check, i + 1);
                    }
                    return Err(e);
                },
            }
            i += 1;
        }
        assert(self.dependencies@.take(i as int) =~= self.dependencies@);
        Ok(())
    }

    /// Checks the regions.
    fn check_regions(&self, region_files: &Vec<String>) -> (r: Result<(), Error>)
        ensures
            r == first_error(
                self.regions@,
                |r: String, at: int| region_outcome(r, at, names(region_files@)),
            ),
    {
        let ghost check = |r: String, at: int| region_outcome(r, at, names(region_files@));
        let mut i: usize = 0;
        assert(self.regions@.take(0) =~= Seq::<String>::empty());
        while i < self.regions.len()
            invariant
                i <= self.regions.len(),
                check == (|r: String, at: int| region_outcome(r, at, names(region_files@))),
                first_error(self.regions@.take(i as int), check) == Ok::<(), Error>(()),
            decreases self.regions.len() - i,
        {
            proof {
                assert(self.regions@.take(i + 1).drop_last() =~= self.regions@.take(i as int));
                assert(self.regions@.take(i + 1).last() == self.regions@[i as int]);
            }
            if !contains_name(region_files, self.regions[i].as_str()) {
                proof {
                    lemma_first_error_prefix(self.regions@, check, i + 1);
                }
                return Err(Error::UnsupportedRegion(i));
            }
            i += 1;
        }
        assert(self.regions@.take(i as int) =~= self.regions@);
        Ok(())
    }

    /// Checks the init containers.
    fn check_init_containers(&self) -> (r: Result<(), Error>)
        ensures
            r == first_error(self.init_containers@, init_container_check()),
    {
        let ghost check = init_container_check();
        let mut i: usize = 0;
        assert(self.init_containers@.take(0) =~= Seq::<InitContainer>::empty());
        while i < self.init_containers.len()
            invariant
                i <= self.init_containers.len(),
                check == init_container_check(),
                first_error(self.init_containers@.take(i as int), check) == Ok::<(), Error>(()),
            decreases self.init_containers.len() - i,
        {
            proof {
                assert(self.init_containers@.take(i + 1).drop_last()
                    =~= self.init_containers@.take(i as int));
                assert(self.init_containers@.take(i + 1).last() == self.init_containers@[i as int]);
            }
            let c = &self.init_containers[i];
            let shape = search(IMAGE_PATTERN, c.image.as_str());
            match check_init_container(c, i, shape) {
                Ok(()) => {},
                Err(e) => {
                    proof {
                        lemma_first_error_prefix(self.init_containers@, check, i + 1);
                    }
                    return Err(e);
                },
            }
            i += 1;
        }
        assert(self.init_containers@.take(i as int) =~= self.init_containers@);
        Ok(())
    }

    /// Validates the manifest. `services` are the services that exist, and
    /// `region_files` the regions that have a defaults file.
    pub fn verify(&self, services: &Vec<String>, region_files: &Vec<String>) -> (r: Result<
        (),
        Error,
    >)
        ensures
            r == self.verify_outcome(names(services@), names(region_files@)),
    {
        if same_text(self.name.as_str(), "") {
            return Err(Error::EmptyName);
        }
        match check_resources(&self.resources) {
            Ok(()) => {},
            Err(e) => {
                return Err(e);
            },
        }
        match check_configs(&self.configs) {
            Ok(()) => {},
            Err(e) => {
                return Err(e);
            },
        }
        match self.check_dependencies(services) {
            Ok(()) => {},
            Err(e) => {
                return Err(e);
            },
        }
        match self.check_regions(region_files) {
            Ok(()) => {},
            Err(e) => {
                return Err(e);
            },
        }
        if self.regions.len() == 0 {
            return Err(Error::NoRegions);
        }
        match self.check_init_containers() {
            Ok(()) => {},
            Err(e) => {
                return Err(e);
            },
        }
        if self.httpPort.is_some() && self.health.is_none() {
            return Err(Error::MissingHealthCheck);
        }
        Ok(())
    }
}

} // verus!
