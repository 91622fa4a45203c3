//! Views over the manifests and configurations that a cluster holds.
//!
//! Each function takes a snapshot of the resources and answers one question
//! of the service overview.
use vstd::prelude::*;
use crate::keyed::{reversed, StringMap};
use crate::manifest::{Dependency, Manifest};
use crate::text::{join2, join3, same_text};

verus! {

/// A resource of the cluster: its name there, and what it specifies.
#[derive(Clone, Debug)]
pub struct Crd<T> {
    pub name: String,
    pub spec: T,
}

/// The name of the configuration that all regions share.
pub open spec fn federated_name() -> Seq<char> {
    "unionised"@
}

/// The name of the configuration to read in `region`: the shared one if it
/// is among `names`, else the region's own.
pub fn config_name(names: &Vec<String>, region: &str) -> (r: String)
    ensures
        r@ == if exists|i: int| 0 <= i < names@.len() && (#[trigger] names@[i])@ == federated_name() {
            federated_name()
        } else {
            region@
        },
{
    let mut i: usize = 0;
    while i < names.len()
        invariant
            i <= names.len(),
            forall|j: int| 0 <= j < i ==> (#[trigger] names@[j])@ != federated_name(),
        decreases names.len() - i,
    {
        if same_text(names[i].as_str(), "unionised") {
            return "unionised".to_owned();
        }
        i += 1;
    }
    region.to_owned()
}

/// The name under which a configuration for `regions` is kept: the name of
/// its one region, or the shared name if it covers more or fewer.
pub fn config_resource_name(regions: &Vec<String>) -> (r: String)
    ensures
        r@ == if regions@.len() == 1 {
            regions@[0]@
        } else {
            federated_name()
        },
{
    if regions.len() == 1 {
        regions[0].clone()
    } else {
        "unionised".to_owned()
    }
}

/// The path under which the resources of a kind are listed.
pub fn crd_list_path(resource: &str, group: &str, namespace: &str) -> (r: String)
    ensures
        r@ == "/apis/"@ + group@ + "/v1/namespaces/"@ + namespace@ + "/"@ + resource@ + "?"@,
{
    let a = join3("/apis/", group, "/v1/namespaces/");
    let b = join3(a.as_str(), namespace, "/");
    join3(b.as_str(), resource, "?")
}

/// The path of the resource `name` of a kind.
pub fn crd_entry_path(resource: &str, group: &str, namespace: &str, name: &str) -> (r: String)
    ensures
        r@ == "/apis/"@ + group@ + "/v1/namespaces/"@ + namespace@ + "/"@ + resource@ + "/"@
            + name@ + "?"@,
{
    let a = join3("/apis/", group, "/v1/namespaces/");
    let b = join3(a.as_str(), namespace, "/");
    let c = join3(b.as_str(), resource, "/");
    join2(c.as_str(), name).concat("?")
}

/// The manifests of `crds` by service name; of two with one name the later
/// stays.
pub open spec fn by_service(crds: Seq<Crd<Manifest>>) -> Map<Seq<char>, Manifest>
    decreases crds.len(),
{
    if crds.len() == 0 {
        Map::empty()
    } else {
        by_service(crds.drop_last()).insert(crds.last().spec.name@, crds.last().spec)
    }
}

/// The manifests by service name.
pub fn get_manifests(crds: Vec<Crd<Manifest>>) -> (r: StringMap<Manifest>)
    ensures
        r@ == by_service(crds@),
{
    let ghost all = crds@;
    let n = crds.len();
    let mut rest = reversed(crds);
    let mut out: StringMap<Manifest> = StringMap::new();
    let mut i: usize = 0;
    assert(all.take(0) =~= Seq::<Crd<Manifest>>::empty());
    while i < n
        invariant
            i <= n,
            n == all.len(),
            rest@.len() == n - i,
            forall|j: int| 0 <= j < n - i ==> #[trigger] rest@[j] == all[n - 1 - j],
            out@ == by_service(all.take(i as int)),
        decreases n - i,
    {
        let crd = rest.pop().unwrap();
        proof {
            assert(all.take(i + 1).drop_last() =~= all.take(i as int));
        }
        let key = crd.spec.name.clone();
        out.insert(key, crd.spec);
        i += 1;
    }
    assert(all.take(n as int) =~= all);
    out
}

/// The versions of `crds` by service name, of the manifests that name one;
/// of two with one name the later stays.
pub open spec fn versions_by_service(crds: Seq<Crd<Manifest>>) -> Map<Seq<char>, String>
    decreases crds.len(),
{
    if crds.len() == 0 {
        Map::empty()
    } else {
        let before = versions_by_service(crds.drop_last());
        match crds.last().spec.version {
            Some(v) => before.insert(crds.last().spec.name@, v),
            None => before,
        }
    }
}

/// The version of every service that names one.
pub fn get_versions(crds: Vec<Crd<Manifest>>) -> (r: StringMap<String>)
    ensures
        r@ == versions_by_service(crds@),
{
    let ghost all = crds@;
    let n = crds.len();
    let mut rest = reversed(crds);
    let mut out: StringMap<String> = StringMap::new();
    let mut i: usize = 0;
    assert(all.take(0) =~= Seq::<Crd<Manifest>>::empty());
    while i < n
        invariant
            i <= n,
            n == all.len(),
            rest@.len() == n - i,
            forall|j: int| 0 <= j < n - i ==> #[trigger] rest@[j] == all[n - 1 - j],
            out@ == versions_by_service(all.take(i as int)),
        decreases n - i,
    {
        let crd = rest.pop().unwrap();
        assert(crd == all[i as int]);
        proof {
            assert(all.take(i + 1).drop_last() =~= all.take(i as int));
        }
        let Manifest { name, version, .. } = crd.spec;
        match version {
            Some(v) => {
                out.insert(name, v);
            },
            None => {},
        }
        i += 1;
    }
    assert(all.take(n as int) =~= all);
    out
}

/// Whether the resource at position `i` is the first named `name`.
pub open spec fn first_named<T>(crds: Seq<Crd<T>>, name: Seq<char>, i: int) -> bool {
    &&& 0 <= i < crds.len()
    &&& crds[i].name@ == name
    &&& forall|j: int| 0 <= j < i ==> (#[trigger] crds[j]).name@ != name
}

/// Whether the manifest at position `i` is the first of the service `key`.
pub open spec fn first_of_service(crds: Seq<Crd<Manifest>>, key: Seq<char>, i: int) -> bool {
    &&& 0 <= i < crds.len()
    &&& crds[i].spec.name@ == key
    &&& forall|j: int| 0 <= j < i ==> (#[trigger] crds[j]).spec.name@ != key
}

/// Takes the item at position `at` out of `items`.
fn take_at<T>(items: Vec<T>, at: usize) -> (r: T)
    requires
        at < items@.len(),
    ensures
        r == items@[at as int],
{
    let mut items = items;
    items.swap_remove(at)
}

/// The first configuration named `name`.
pub fn get_config<T>(cfgs: Vec<Crd<T>>, name: &str) -> (r: Option<T>)
    ensures
        match r {
            Some(spec) => exists|i: int| #[trigger]
                first_named(cfgs@, name@, i) && cfgs@[i].spec == spec,
            None => forall|j: int| 0 <= j < cfgs@.len() ==> (#[trigger] cfgs@[j]).name@ != name@,
        },
{
    let mut i: usize = 0;
    while i < cfgs.len()
        invariant
            i <= cfgs.len(),
            forall|j: int| 0 <= j < i ==> (#[trigger] cfgs@[j]).name@ != name@,
        decreases cfgs.len() - i,
    {
        if same_text(cfgs[i].name.as_str(), name) {
            proof {
                assert(first_named(cfgs@, name@, i as int));
            }
            return Some(take_at(cfgs, i).spec);
        }
        i += 1;
    }
    None
}

/// The first manifest of the service `key`.
pub fn get_manifest(crds: Vec<Crd<Manifest>>, key: &str) -> (r: Option<Crd<Manifest>>)
    ensures
        match r {
            Some(crd) => exists|i: int| #[trigger]
                first_of_service(crds@, key@, i) && crds@[i] == crd,
            None => forall|j: int|
                0 <= j < crds@.len() ==> (#[trigger] crds@[j]).spec.name@ != key@,
        },
{
    let mut i: usize = 0;
    while i < crds.len()
        invariant
            i <= crds.len(),
            forall|j: int| 0 <= j < i ==> (#[trigger] crds@[j]).spec.name@ != key@,
        decreases crds.len() - i,
    {
        if same_text(crds[i].spec.name.as_str(), key) {
            proof {
                assert(first_of_service(crds@, key@, i as int));
            }
            return Some(take_at(crds, i));
        }
        i += 1;
    }
    None
}

/// Whether the manifest `m` belongs to `team`.
pub open spec fn owned_by_team(m: Manifest, team: Seq<char>) -> bool {
    m.metadata matches Some(md) && md.team@ == team
}

/// The names of the services that `team` owns, in the order of `crds`.
pub open spec fn team_services(crds: Seq<Crd<Manifest>>, team: Seq<char>) -> Seq<String> {
    crds.filter(|c: Crd<Manifest>| owned_by_team(c.spec, team)).map_values(
        |c: Crd<Manifest>| c.spec.name,
    )
}

/// The services that `team` owns. A manifest without an owner belongs to no
/// team.
pub fn get_manifests_for(crds: Vec<Crd<Manifest>>, team: &str) -> (r: Vec<String>)
    ensures
        r@ == team_services(crds@, team@),
{
    let ghost all = crds@;
    let ghost pred = |c: Crd<Manifest>| owned_by_team(c.spec, team@);
    let n = crds.len();
    let mut rest = reversed(crds);
    let mut out: Vec<String> = Vec::new();
    let mut i: usize = 0;
    assert(all.take(0) =~= Seq::<Crd<Manifest>>::empty());
    proof {
        reveal(Seq::filter);
    }
    while i < n
        invariant
            i <= n,
            n == all.len(),
            pred == (|c: Crd<Manifest>| owned_by_team(c.spec, team@)),
            rest@.len() == n - i,
            forall|j: int| 0 <= j < n - i ==> #[trigger] rest@[j] == all[n - 1 - j],
            out@ == all.take(i as int).filter(pred).map_values(|c: Crd<Manifest>| c.spec.name),
        decreases n - i,
    {
        let crd = rest.pop().unwrap();
        proof {
            reveal(Seq::filter);
            assert(all.take(i + 1).drop_last() =~= all.take(i as int));
            assert(all.take(i + 1).last() == crd);
        }
        let Manifest { name, metadata, .. } = crd.spec;
        let owned = match &metadata {
            Some(md) => same_text(md.team.as_str(), team),
            None => false,
        };
        if owned {
            out.push(name);
        }
        assert(out@ =~= all.take(i + 1).filter(pred).map_values(|c: Crd<Manifest>| c.spec.name));
        i += 1;
    }
    assert(all.take(n as int) =~= all);
    out
}

/// Whether one of `deps` is the service `service`.
pub open spec fn depends_on(deps: Seq<Dependency>, service: Seq<char>) -> bool {
    exists|i: int| 0 <= i < deps.len() && (#[trigger] deps[i]).name@ == service
}

/// Whether one of `deps` is the service `service`.
pub fn has_dependency(deps: &Vec<Dependency>, service: &str) -> (r: bool)
    ensures
        r == depends_on(deps@, service@),
{
    let mut i: usize = 0;
    while i < deps.len()
        invariant
            i <= deps.len(),
            forall|j: int| 0 <= j < i ==> (#[trigger] deps@[j]).name@ != service@,
        decreases deps.len() - i,
    {
        if same_text(deps[i].name.as_str(), service) {
            return true;
        }
        i += 1;
    }
    false
}

/// The names of the services that depend on `service`, in the order of
/// `crds`.
pub open spec fn dependents(crds: Seq<Crd<Manifest>>, service: Seq<char>) -> Seq<String> {
    crds.filter(|c: Crd<Manifest>| depends_on(c.spec.dependencies@, service)).map_values(
        |c: Crd<Manifest>| c.spec.name,
    )
}

/// The services that depend on `service`.
pub fn get_reverse_deps(crds: Vec<Crd<Manifest>>, service: &str) -> (r: Vec<String>)
    ensures
        r@ == dependents(crds@, service@),
{
    let ghost all = crds@;
    let ghost pred = |c: Crd<Manifest>| depends_on(c.spec.dependencies@, service@);
    let n = crds.len();
    let mut rest = reversed(crds);
    let mut out: Vec<String> = Vec::new();
    let mut i: usize = 0;
    assert(all.take(0) =~= Seq::<Crd<Manifest>>::empty());
    proof {
        reveal(Seq::filter);
    }
    while i < n
        invariant
            i <= n,
            n == all.len(),
            pred == (|c: Crd<Manifest>| depends_on(c.spec.dependencies@, service@)),
            rest@.len() == n - i,
            forall|j: int| 0 <= j < n - i ==> #[trigger] rest@[j] == all[n - 1 - j],
            out@ == all.take(i as int).filter(pred).map_values(|c: Crd<Manifest>| c.spec.name),
        decreases n - i,
    {
        let crd = rest.pop().unwrap();
        proof {
            reveal(Seq::filter);
            assert(all.take(i + 1).drop_last() =~= all.take(i as int));
            assert(all.take(i + 1).last() == crd);
        }
        let Manifest { name, dependencies, .. } = crd.spec;
        if has_dependency(&dependencies, service) {
            out.push(name);
        }
        assert(out@ =~= all.take(i + 1).filter(pred).map_values(|c: Crd<Manifest>| c.spec.name));
        i += 1;
    }
    assert(all.take(n as int) =~= all);
    out
}

/// The link kept for `service` in `links`, if there is one.
pub fn get_link(links: &StringMap<String>, service: &str) -> (r: Option<String>)
    ensures
        match r {
            Some(l) => links@.dom().contains(service@) && l@ == links@[service@]@,
            None => !links@.dom().contains(service@),
        },
{
    match links.get(service) {
        Some(l) => Some(l.clone()),
        None => None,
    }
}

} // verus!
