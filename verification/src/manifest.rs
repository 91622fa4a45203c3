//! The deployment manifest of a service, its implicit defaults, and the
//! filling of its gaps from override documents.
use vstd::prelude::*;
use crate::error::Error;
use crate::keyed::{distinct_keys, has_key, reversed, to_map, Entry, StringMap};
use crate::text::{join2, join3, same_text};

verus! {

/// The resources that a service asks for.
#[derive(Clone, Debug, Default)]
pub struct ResourceRequest {
    /// CPU request, such as `500m`.
    pub cpu: String,
    /// Memory request, such as `512Mi`.
    pub memory: String,
}

/// The resources that a service may not exceed.
#[derive(Clone, Debug, Default)]
pub struct ResourceLimit {
    /// CPU limit.
    pub cpu: String,
    /// Memory limit.
    pub memory: String,
}

/// Requests and limits.
#[derive(Clone, Debug, Default)]
pub struct Resources {
    pub requests: Option<ResourceRequest>,
    pub limits: Option<ResourceLimit>,
}

/// A templated file of the config map.
#[derive(Clone, Debug, Default)]
pub struct ConfigMappedFile {
    /// Name of the template.
    pub name: String,
    /// Name of the file inside the container.
    pub dest: String,
}

/// Config files mounted into the container.
#[derive(Clone, Debug, Default)]
pub struct ConfigMap {
    /// Name of the mount; derived from the service name when left out.
    pub name: Option<String>,
    /// Directory in the container where the files appear.
    pub mount: String,
    /// The files.
    pub files: Vec<ConfigMappedFile>,
}

/// A dashboard to generate.
#[derive(Clone, Debug, Default)]
pub struct Dashboard {
    /// Metrics to track.
    pub rows: Vec<String>,
}

/// Metric polling.
#[derive(Clone, Debug, Default)]
pub struct Prometheus {
    pub enabled: bool,
    pub path: String,
}

/// A service that this service relies on.
#[derive(Clone, Debug, Default)]
pub struct Dependency {
    /// Name of the service relied upon.
    pub name: String,
    /// API version relied upon; `v1` when left out.
    pub api: Option<String>,
}

/// The image to run.
#[derive(Clone, Debug, Default)]
pub struct Image {
    /// Name of the image; the service name when left out.
    pub name: Option<String>,
    /// Repository to fetch the image from.
    pub repository: Option<String>,
    /// Tag of the image; `latest` when left out.
    pub tag: Option<String>,
}

/// A volume mounted into the container.
#[derive(Clone, Debug, Default)]
pub struct VolumeMount {
    pub name: String,
    pub mount_path: String,
    pub sub_path: Option<String>,
    pub read_only: bool,
}

/// A container that runs before the service starts.
#[derive(Clone, Debug, Default)]
pub struct InitContainer {
    pub name: String,
    pub image: String,
    pub command: Vec<String>,
}

/// One item of a secret volume.
#[derive(Clone, Debug)]
pub struct VolumeSecretItem {
    pub key: String,
    pub path: String,
    pub mode: u32,
}

/// A secret mounted as a volume.
#[derive(Clone, Debug, Default)]
pub struct VolumeSecretDetail {
    pub name: String,
    pub items: Vec<VolumeSecretItem>,
}

/// A source of a projected volume.
#[derive(Clone, Debug, Default)]
pub struct VolumeSecret {
    pub secret: Option<VolumeSecretDetail>,
}

/// A volume that combines several sources.
#[derive(Clone, Debug, Default)]
pub struct ProjectedVolumeSecret {
    pub sources: Vec<VolumeSecret>,
}

/// A volume.
#[derive(Clone, Debug, Default)]
pub struct Volume {
    pub name: String,
    pub projected: Option<ProjectedVolumeSecret>,
    pub secret: Option<VolumeSecretDetail>,
}

/// Options for reading secrets.
#[derive(Clone, Debug)]
pub struct VaultOpts {
    /// The name under which the secrets are kept, if not the service name.
    pub name: String,
}

/// Where and how to check that the service is healthy.
#[derive(Clone, Debug, Default)]
pub struct HealthCheck {
    pub uri: String,
    pub wait: u32,
    pub port: String,
}

/// Who owns a service, and where its code is.
#[derive(Clone, Debug, Default)]
pub struct Metadata {
    /// The team that owns the service.
    pub team: String,
    /// The repository of the service.
    pub repo: String,
}

/// The deployment descriptor of one service.
#[allow(non_snake_case)]
#[derive(Clone, Debug, Default)]
pub struct Manifest {
    /// Name of the service.
    pub name: String,
    /// Whether the service is left out of deployments.
    pub disabled: bool,
    /// The image, if it differs from the service name.
    pub image: Option<Image>,
    /// The version to deploy; the running version is kept when left out.
    pub version: Option<String>,
    /// Who owns the service.
    pub metadata: Option<Metadata>,
    /// The command, if not the image's own.
    pub command: Option<String>,
    /// Resource requests and limits.
    pub resources: Option<Resources>,
    /// How many replicas run.
    pub replicaCount: u32,
    /// Environment variables.
    pub env: StringMap<String>,
    /// Config files.
    pub configs: Option<ConfigMap>,
    /// Volume mounts.
    pub volume_mounts: Vec<VolumeMount>,
    /// Init containers.
    pub init_containers: Vec<InitContainer>,
    /// The HTTP port that is exposed.
    pub httpPort: Option<u32>,
    /// Options for reading secrets.
    pub vault: Option<VaultOpts>,
    /// Health check.
    pub health: Option<HealthCheck>,
    /// Services relied upon.
    pub dependencies: Vec<Dependency>,
    /// Regions that the service is deployed to.
    pub regions: Vec<String>,
    /// Volumes.
    pub volumes: Vec<Volume>,
    /// Metric polling.
    pub prometheus: Option<Prometheus>,
    /// Dashboards, by name.
    pub dashboards: StringMap<Dashboard>,
    /// Where the manifest was read from.
    pub _path: String,
    /// The namespace that the manifest is resolved for.
    pub _namespace: String,
    /// The location that the manifest is resolved for.
    pub _location: String,
}

/// Volume mounts are writable unless said otherwise.
pub fn volume_mount_read_only() -> (r: bool)
    ensures
        !r,
{
    false
}

/// The key of a secret volume item that names none.
pub fn volume_key() -> (r: String)
    ensures
        r@ == "value"@,
{
    "value".to_owned()
}

/// The mode of a secret volume item that names none: `0644`.
pub fn volume_default_mode() -> (r: u32)
    ensures
        r == 420,
{
    420
}

/// The path of a health check that names none.
pub fn health_check_url_default() -> (r: String)
    ensures
        r@ == "/health"@,
{
    "/health".to_owned()
}

/// The seconds that a health check waits after boot if it names none.
pub fn health_check_wait_time_default() -> (r: u32)
    ensures
        r == 30,
{
    30
}

/// The port name of a health check that names none.
pub fn health_port_name_default() -> (r: String)
    ensures
        r@ == "http"@,
{
    "http".to_owned()
}

/// The number of replicas of a service that names none.
pub fn replica_count_default() -> (r: u32)
    ensures
        r == 2,
{
    2
}

impl Image {
    /// The reference of the image with a name: `repository/name:tag`, without
    /// the repository part where none or an empty one is given, and with the
    /// tag `latest` where none is given.
    pub open spec fn reference(self) -> Seq<char> {
        let prefix = match self.repository {
            Some(r) => if r@.len() == 0 {
                r@
            } else {
                r@ + "/"@
            },
            None => ""@,
        };
        let suffix = match self.tag {
            Some(t) => t@,
            None => "latest"@,
        };
        prefix + self.name->0@ + ":"@ + suffix
    }

    /// The reference of the image, as text.
    pub fn to_string(&self) -> (r: String)
        requires
            self.name is Some,
        ensures
            r@ == self.reference(),
    {
        proof {
            reveal_strlit("");
        }
        let prefix = match &self.repository {
            Some(s) => {
                if same_text(s.as_str(), "") {
                    s.clone()
                } else {
                    assert(s@.len() != 0) by {
                        if s@.len() == 0 {
                            assert(s@ =~= ""@);
                        }
                    }
                    join2(s.as_str(), "/")
                }
            },
            None => "".to_owned(),
        };
        let suffix = match &self.tag {
            Some(t) => t.clone(),
            None => "latest".to_owned(),
        };
        let name = match &self.name {
            Some(n) => n,
            None => {
                return prefix;
            },
        };
        let head = join3(prefix.as_str(), name.as_str(), ":");
        join2(head.as_str(), suffix.as_str())
    }
}

/// Whether `a` and `b` agree on the fields that resolution never changes.
pub open spec fn same_base(a: Manifest, b: Manifest) -> bool {
    &&& a.name == b.name
    &&& a.disabled == b.disabled
    &&& a.version == b.version
    &&& a.metadata == b.metadata
    &&& a.command == b.command
    &&& a.resources == b.resources
    &&& a.replicaCount == b.replicaCount
    &&& a.httpPort == b.httpPort
    &&& a.vault == b.vault
    &&& a.health == b.health
    &&& a.regions == b.regions
    &&& a.prometheus == b.prometheus
    &&& a.dashboards == b.dashboards
    &&& a._path == b._path
}

/// Whether `d` is the dependency `s` with its API version defaulted to `v1`.
pub open spec fn dependency_defaulted(s: Dependency, d: Dependency) -> bool {
    &&& d.name == s.name
    &&& match s.api {
        Some(_) => d.api == s.api,
        None => d.api matches Some(v) && v@ == "v1"@,
    }
}

/// Whether `image` is the image of `old` with its default: an image without
/// a name, or no image at all, is named after the service. Repository and
/// tag stay as they are; where there was no image, there are none.
pub open spec fn implicit_image(old: Manifest, image: Option<Image>) -> bool {
    match old.image {
        Some(img) => image matches Some(new) && new.repository == img.repository && new.tag
            == img.tag && match img.name {
            Some(_) => new.name == img.name,
            None => new.name matches Some(n) && n@ == old.name@,
        },
        None => image matches Some(new) && new.repository is None && new.tag is None && (
        new.name matches Some(n) && n@ == old.name@),
    }
}

/// Whether `configs` is the config mount of `old` with its default: a mount
/// without a name is named after the service.
pub open spec fn implicit_configs(old: Manifest, configs: Option<ConfigMap>) -> bool {
    match old.configs {
        None => configs is None,
        Some(c) => configs matches Some(d) && d.mount == c.mount && d.files == c.files
            && match c.name {
            Some(_) => d.name == c.name,
            None => d.name matches Some(n) && n@ == old.name@ + "-config"@,
        },
    }
}

/// Whether `new` is `old` with the implicit defaults filled in: the image
/// name is the service name, the config mount is named after the service, and
/// every dependency has an API version.
pub open spec fn implicits_applied(old: Manifest, new: Manifest) -> bool {
    &&& same_base(old, new)
    &&& new.env == old.env
    &&& new.volume_mounts == old.volume_mounts
    &&& new.init_containers == old.init_containers
    &&& new.volumes == old.volumes
    &&& new._namespace == old._namespace
    &&& new._location == old._location
    &&& implicit_image(old, new.image)
    &&& implicit_configs(old, new.configs)
    &&& new.dependencies@.len() == old.dependencies@.len()
    &&& forall|i: int|
        0 <= i < old.dependencies@.len() ==> dependency_defaulted(
            old.dependencies@[i],
            #[trigger] new.dependencies@[i],
        )
}

/// Implicit defaults are filled in once: applied to a manifest that has
/// them, they change nothing.
pub proof fn law_implicits_once(a: Manifest, b: Manifest, c: Manifest)
    requires
        implicits_applied(a, b),
        implicits_applied(b, c),
    ensures
        same_base(b, c),
        c.image == b.image,
        c.configs == b.configs,
        c.dependencies@ == b.dependencies@,
        c.env == b.env,
        c.volume_mounts == b.volume_mounts,
        c.init_containers == b.init_containers,
        c.volumes == b.volumes,
{
    assert forall|i: int| 0 <= i < b.dependencies@.len() implies c.dependencies@[i]
        == b.dependencies@[i] by {
        assert(dependency_defaulted(a.dependencies@[i], b.dependencies@[i]));
        assert(dependency_defaulted(b.dependencies@[i], c.dependencies@[i]));
    }
    assert(c.dependencies@ =~= b.dependencies@);
}

/// The entries of `base`, followed by the entries of `over` whose keys `base`
/// does not have.
pub open spec fn gap_entries<V>(base: Seq<(Seq<char>, V)>, over: Seq<(Seq<char>, V)>) -> Seq<
    (Seq<char>, V),
>
    decreases over.len(),
{
    if over.len() == 0 {
        base
    } else {
        let before = gap_entries(base, over.drop_last());
        if has_key(before, over.last().0) {
            before
        } else {
            before.push(over.last())
        }
    }
}

/// Filling gaps keeps keys unique, and gives the map of the override with
/// every entry of the base put over it.
pub proof fn lemma_gap_entries<V>(base: Seq<(Seq<char>, V)>, over: Seq<(Seq<char>, V)>)
    requires
        distinct_keys(base),
        distinct_keys(over),
    ensures
        distinct_keys(gap_entries(base, over)),
        to_map(gap_entries(base, over)) == to_map(over).union_prefer_right(to_map(base)),
    decreases over.len(),
{
    if over.len() == 0 {
        assert(to_map(over).dom() =~= Set::<Seq<char>>::empty());
        assert(to_map(base) =~= to_map(over).union_prefer_right(to_map(base)));
    } else {
        let front = over.drop_last();
        let last = over.last();
        assert forall|i: int, j: int| 0 <= i < j < front.len() implies (#[trigger] front[i]).0 != (
        #[trigger] front[j]).0 by {
            assert(over[i].0 != over[j].0);
        }
        lemma_gap_entries(base, front);
        let before = gap_entries(base, front);
        assert(!has_key(front, last.0)) by {
            if has_key(front, last.0) {
                let p = crate::keyed::position(front, last.0);
                assert(over[p].0 != over[over.len() - 1].0);
            }
        }
        crate::keyed::lemma_push_entry(front, last.0, last.1);
        assert(front.push((last.0, last.1)) =~= over);
        if has_key(before, last.0) {
            assert(to_map(before).dom().contains(last.0));
            assert(to_map(base).dom().contains(last.0));
            assert(to_map(before) =~= to_map(over).union_prefer_right(to_map(base)));
        } else {
            crate::keyed::lemma_push_entry(before, last.0, last.1);
            assert(!to_map(base).dom().contains(last.0)) by {
                if to_map(base).dom().contains(last.0) {
                    assert(to_map(before).dom().contains(last.0));
                }
            }
            assert(to_map(before.push(last)) =~= to_map(over).union_prefer_right(to_map(base)));
        }
    }
}

/// Whether `new` is the image `cur` with its repository and tag, where unset,
/// taken from `over`.
pub open spec fn image_filled(cur: Image, over: Image, new: Image) -> bool {
    &&& new.name == cur.name
    &&& new.repository == if cur.repository is None {
        over.repository
    } else {
        cur.repository
    }
    &&& new.tag == if cur.tag is None {
        over.tag
    } else {
        cur.tag
    }
}

/// Whether `new` is `old` with its gaps filled from the override `over`:
/// environment variables that `old` lacks, the image's repository and tag
/// where unset, and the volume mounts, init containers and volumes where
/// `old` has none. Nothing else is taken from `over`.
pub open spec fn gaps_filled(old: Manifest, over: Manifest, new: Manifest) -> bool {
    &&& same_base(old, new)
    &&& new.configs == old.configs
    &&& new.dependencies == old.dependencies
    &&& new._namespace == old._namespace
    &&& new._location == old._location
    &&& new.env.entries() == gap_entries(old.env.entries(), over.env.entries())
    &&& match over.image {
        None => new.image == old.image,
        Some(img) => old.image matches Some(cur) && new.image matches Some(n) && image_filled(
            cur,
            img,
            n,
        ),
    }
    &&& new.volume_mounts == if old.volume_mounts@.len() == 0 {
        over.volume_mounts
    } else {
        old.volume_mounts
    }
    &&& new.init_containers == if old.init_containers@.len() == 0 {
        over.init_containers
    } else {
        old.init_containers
    }
    &&& new.volumes == if old.volumes@.len() == 0 {
        over.volumes
    } else {
        old.volumes
    }
}

impl Manifest {
    /// A manifest of the service `name`, read from `location`, with nothing
    /// else set.
    pub fn new(name: &str, location: &str) -> (m: Manifest)
        ensures
            m.name@ == name@,
            m._path@ == location@,
            !m.disabled,
            m.image is None,
            m.version is None,
            m.metadata is None,
            m.command is None,
            m.resources is None,
            m.replicaCount == 0,
            m.env@ == Map::<Seq<char>, String>::empty(),
            m.configs is None,
            m.volume_mounts@.len() == 0,
            m.init_containers@.len() == 0,
            m.httpPort is None,
            m.vault is None,
            m.health is None,
            m.dependencies@.len() == 0,
            m.regions@.len() == 0,
            m.volumes@.len() == 0,
            m.prometheus is None,
            m.dashboards@ == Map::<Seq<char>, Dashboard>::empty(),
            m._namespace@.len() == 0,
            m._location@.len() == 0,
    {
        Manifest {
            name: name.to_owned(),
            disabled: false,
            image: None,
            version: None,
            metadata: None,
            command: None,
            resources: None,
            replicaCount: 0,
            env: StringMap::new(),
            configs: None,
            volume_mounts: Vec::new(),
            init_containers: Vec::new(),
            httpPort: None,
            vault: None,
            health: None,
            dependencies: Vec::new(),
            regions: Vec::new(),
            volumes: Vec::new(),
            prometheus: None,
            dashboards: StringMap::new(),
            _path: location.to_owned(),
            _namespace: String::new(),
            _location: String::new(),
        }
    }

    /// Fills in the implicit defaults. What is set stays as it is, so a
    /// second call changes nothing.
    pub fn implicits(&mut self) -> (r: Result<(), Error>)
        ensures
            r is Ok,
            implicits_applied(*old(self), *final(self)),
            final(self).image matches Some(img) && img.name is Some,
    {
        match &mut self.image {
            Some(img) => {
                if img.name.is_none() {
                    img.name = Some(self.name.clone());
                }
            },
            None => {
                self.image = Some(
                    Image { name: Some(self.name.clone()), repository: None, tag: None },
                );
            },
        }
        match &mut self.configs {
            Some(cfg) => {
                if cfg.name.is_none() {
                    cfg.name = Some(join2(self.name.as_str(), "-config"));
                }
            },
            None => {},
        }
        let ghost all = self.dependencies@;
        let mut i: usize = 0;
        while i < self.dependencies.len()
            invariant
                i <= self.dependencies@.len(),
                self.dependencies@.len() == all.len(),
                all == old(self).dependencies@,
                same_base(*old(self), *self),
                self.env == old(self).env,
                self.volume_mounts == old(self).volume_mounts,
                self.init_containers == old(self).init_containers,
                self.volumes == old(self).volumes,
                self._namespace == old(self)._namespace,
                self._location == old(self)._location,
                implicit_image(*old(self), self.image),
                implicit_configs(*old(self), self.configs),
                forall|j: int|
                    0 <= j < i ==> dependency_defaulted(all[j], #[trigger] self.dependencies@[j]),
                forall|j: int| i <= j < all.len() ==> #[trigger] self.dependencies@[j] == all[j],
            decreases self.dependencies@.len() - i,
        {
            if self.dependencies[i].api.is_none() {
                self.dependencies[i].api = Some("v1".to_owned());
            }
            i += 1;
        }
        Ok(())
    }

    /// Fills the gaps of the manifest from the override `mf`.
    pub fn merge(&mut self, mf: Manifest) -> (r: Result<(), Error>)
        requires
            mf.image is Some ==> old(self).image is Some,
        ensures
            r is Ok,
            gaps_filled(*old(self), mf, *final(self)),
    {
        let Manifest { env, image, volume_mounts, init_containers, volumes, .. } = mf;
        let ghost base = self.env.entries();
        let ghost over = env.entries();
        let items = env.into_entries();
        let n = items.len();
        let mut rest = reversed(items);
        let mut i: usize = 0;
        assert(over.take(0) =~= Seq::<(Seq<char>, String)>::empty());
        while i < n
            invariant
                i <= n,
                n == over.len(),
                rest@.len() == n - i,
                forall|j: int|
                    0 <= j < n - i ==> (#[trigger] rest@[j]).key@ == over[n - 1 - j].0
                        && rest@[j].value == over[n - 1 - j].1,
                self.env.entries() == gap_entries(base, over.take(i as int)),
                same_base(*old(self), *self),
                self.configs == old(self).configs,
                self.dependencies == old(self).dependencies,
                self._namespace == old(self)._namespace,
                self._location == old(self)._location,
                self.image == old(self).image,
                self.volume_mounts == old(self).volume_mounts,
                self.init_containers == old(self).init_containers,
                self.volumes == old(self).volumes,
            decreases n - i,
        {
            let e = rest.pop().unwrap();
            let Entry { key, value } = e;
            proof {
                assert(over.take(i + 1).drop_last() =~= over.take(i as int));
                assert(over.take(i + 1).last() == over[i as int]);
            }
            if !self.env.contains_key(key.as_str()) {
                self.env.insert(key, value);
            }
            i += 1;
        }
        assert(over.take(n as int) =~= over);
        match image {
            None => {},
            Some(img) => match &mut self.image {
                None => {},
                Some(cur) => {
                    if cur.repository.is_none() {
                        cur.repository = img.repository;
                    }
                    if cur.tag.is_none() {
                        cur.tag = img.tag;
                    }
                },
            },
        }
        if self.volume_mounts.len() == 0 {
            self.volume_mounts = volume_mounts;
        }
        if self.init_containers.len() == 0 {
            self.init_containers = init_containers;
        }
        if self.volumes.len() == 0 {
            self.volumes = volumes;
        }
        Ok(())
    }
}

} // verus!
